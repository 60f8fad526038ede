//! The application state and the transitions the frame loop drives:
//! display selection, capture bookkeeping, crop commit, save and clipboard
//! requests, and the configurable shortcut chords.

use crate::annotate::{
    rasterize_strokes, spec_annotation_covers, AnnotationState, MAX_THICKNESS,
};
use crate::crop::{
    crop_from_buffer, spec_crop_height, spec_crop_width, spec_source_x, spec_source_y, CropRegion,
    CropSession,
};
use crate::geom::{Display, MAX_CHROME_OFFSET};
use crate::raster::{to_clipboard_image, ClipboardImage, Pixel, RasterImage};
use crate::savefmt::{
    default_save_path, default_stem, now_utc, prefixed_path, spec_default_stem,
    spec_prefixed_path, spec_save_path, FileExtension, Timestamp,
};
use vstd::prelude::*;

verus! {

/// A modifier key of a shortcut chord.
#[derive(Clone, Copy, PartialEq, Eq, Structural, Debug)]
pub enum ModifierKey {
    Alt,
    Ctrl,
    Shift,
    Command,
}

/// A letter key of a shortcut chord.
#[derive(Clone, Copy, PartialEq, Eq, Structural, Debug)]
pub enum ShortcutKey {
    A,
    S,
    Q,
    W,
    R,
}

/// A two-key chord binding: one modifier plus one letter.
#[derive(Clone, Copy, PartialEq, Eq, Structural, Debug)]
pub struct ChordBinding {
    pub modifier: ModifierKey,
    pub key: ShortcutKey,
}

impl ChordBinding {
    /// Whether a pressed modifier/key pair triggers this binding.
    pub fn matches(&self, modifier: ModifierKey, key: ShortcutKey) -> (r: bool)
        ensures
            r == (self.modifier == modifier && self.key == key),
    {
        self.modifier == modifier && self.key == key
    }
}

/// The default take-screenshot chord: Ctrl+S.
pub fn default_screenshot_binding() -> (b: ChordBinding)
    ensures
        b == (ChordBinding { modifier: ModifierKey::Ctrl, key: ShortcutKey::S }),
{
    ChordBinding { modifier: ModifierKey::Ctrl, key: ShortcutKey::S }
}

/// The default start-crop chord: Ctrl+R.
pub fn default_crop_binding() -> (b: ChordBinding)
    ensures
        b == (ChordBinding { modifier: ModifierKey::Ctrl, key: ShortcutKey::R }),
{
    ChordBinding { modifier: ModifierKey::Ctrl, key: ShortcutKey::R }
}

/// Output configuration: where captures are saved and in what format.
pub struct SaveConfig {
    pub directory: String,
    pub extension: FileExtension,
    pub auto_save: bool,
}

/// All session state the frame loop mutates.
pub struct AppState {
    pub displays: Vec<Display>,
    pub current_id: u32,
    pub full: Option<RasterImage>,
    pub cropped: Option<RasterImage>,
    pub session: CropSession,
    pub annotation: AnnotationState,
    pub save: SaveConfig,
    pub delay: u32,
    pub delay_enable: bool,
    pub screenshot_shortcut: ChordBinding,
    pub crop_shortcut: ChordBinding,
}

impl AppState {
    /// At least one display is enumerated, the current id names one of
    /// them, held images are well-formed and never zero-area, and every
    /// recorded annotation point is in range.
    pub open spec fn wf(self) -> bool {
        &&& self.displays@.len() >= 1
        &&& forall|i: int|
            0 <= i < self.displays@.len() ==> (#[trigger] self.displays@[i]).wf()
        &&& exists|i: int|
            0 <= i < self.displays@.len() && (#[trigger] self.displays@[i]).id == self.current_id
        &&& self.full matches Some(img) ==> img.wf() && img.width > 0 && img.height > 0
        &&& self.cropped matches Some(img) ==> img.wf() && img.width > 0 && img.height > 0
        &&& self.annotation.wf()
    }

    /// The image a crop, save, annotation or clipboard action works on:
    /// the most recent crop result when one exists, else the most recent
    /// full capture.
    pub open spec fn spec_active_image(self) -> Option<RasterImage> {
        if self.cropped is Some {
            self.cropped
        } else {
            self.full
        }
    }

    /// A fresh session over the enumerated displays: the first display is
    /// the default selection, no captures are held, no crop is in
    /// progress, and the save configuration starts at PNG into
    /// `directory` with auto-save, delay and shortcuts at their defaults.
    pub fn new(displays: Vec<Display>, directory: String) -> (s: AppState)
        requires
            displays@.len() >= 1,
            forall|i: int| 0 <= i < displays@.len() ==> (#[trigger] displays@[i]).wf(),
        ensures
            s.wf(),
            s.displays == displays,
            s.current_id == displays@[0].id,
            s.full is None,
            s.cropped is None,
            s.session == CropSession::Idle,
            s.annotation.spec_strokes().len() == 0,
            s.save.directory == directory,
            s.save.extension == FileExtension::Png,
            s.save.auto_save == false,
            s.delay == 0,
            s.delay_enable == false,
            s.screenshot_shortcut == (ChordBinding {
                modifier: ModifierKey::Ctrl,
                key: ShortcutKey::S,
            }),
            s.crop_shortcut == (ChordBinding { modifier: ModifierKey::Ctrl, key: ShortcutKey::R }),
    {
        let current_id: u32 = displays[0].id;
        AppState {
            displays,
            current_id,
            full: None,
            cropped: None,
            session: CropSession::Idle,
            annotation: AnnotationState::new(),
            save: SaveConfig { directory, extension: FileExtension::Png, auto_save: false },
            delay: 0,
            delay_enable: false,
            screenshot_shortcut: default_screenshot_binding(),
            crop_shortcut: default_crop_binding(),
        }
    }

    /// Finds the first enumerated display with the given id.
    pub fn display_by_id(&self, id: u32) -> (r: Option<&Display>)
        ensures
            r is Some <==> exists|i: int|
                0 <= i < self.displays@.len() && (#[trigger] self.displays@[i]).id == id,
            r matches Some(d) ==> d.id == id && exists|i: int|
                0 <= i < self.displays@.len() && #[trigger] self.displays@[i] == *d && (
                forall|k: int| 0 <= k < i ==> (#[trigger] self.displays@[k]).id != id),
    {
        let n: usize = self.displays.len();
        let mut i: usize = 0;
        while i < n
            invariant
                i <= n,
                n == self.displays@.len(),
                forall|k: int| 0 <= k < i ==> (#[trigger] self.displays@[k]).id != id,
            decreases n - i,
        {
            if self.displays[i].id == id {
                return Some(&self.displays[i]);
            }
            i = i + 1;
        }
        None
    }

    /// The currently selected display: the first enumerated display
    /// carrying the current id.
    pub fn current_display(&self) -> (d: &Display)
        requires
            self.wf(),
        ensures
            d.id == self.current_id,
            d.wf(),
            exists|i: int|
                0 <= i < self.displays@.len() && #[trigger] self.displays@[i] == *d,
    {
        let r = self.display_by_id(self.current_id);
        r.unwrap()
    }

    /// Selects the display with the given id, if it is enumerated.
    /// Changing the current display invalidates any crop gesture in
    /// progress; held captures stay.
    pub fn set_current_display(&mut self, id: u32) -> (ok: bool)
        requires
            old(self).wf(),
        ensures
            final(self).wf(),
            ok <==> exists|i: int|
                0 <= i < old(self).displays@.len() && (#[trigger] old(self).displays@[i]).id == id,
            ok ==> final(self).current_id == id && final(self).session == CropSession::Idle,
            !ok ==> *final(self) == *old(self),
            final(self).displays == old(self).displays,
            final(self).full == old(self).full,
            final(self).cropped == old(self).cropped,
            final(self).annotation == old(self).annotation,
            final(self).save == old(self).save,
            final(self).delay == old(self).delay,
            final(self).delay_enable == old(self).delay_enable,
            final(self).screenshot_shortcut == old(self).screenshot_shortcut,
            final(self).crop_shortcut == old(self).crop_shortcut,
    {
        let found: bool = self.display_by_id(id).is_some();
        if found {
            self.current_id = id;
            self.session = CropSession::Idle;
        }
        found
    }

    /// Whether a capture is held, so that crop and annotation may proceed.
    pub fn has_capture(&self) -> (r: bool)
        ensures
            r == (self.full is Some),
    {
        self.full.is_some()
    }

    /// Stores a fresh full-display capture. The previous full capture and
    /// any previous crop result are replaced: most recent wins.
    pub fn on_capture(&mut self, img: RasterImage)
        requires
            old(self).wf(),
            img.wf(),
            img.width > 0,
            img.height > 0,
        ensures
            final(self).wf(),
            final(self).full == Some(img),
            final(self).cropped is None,
            final(self).displays == old(self).displays,
            final(self).current_id == old(self).current_id,
            final(self).session == old(self).session,
            final(self).annotation == old(self).annotation,
            final(self).save == old(self).save,
            final(self).delay == old(self).delay,
            final(self).delay_enable == old(self).delay_enable,
            final(self).screenshot_shortcut == old(self).screenshot_shortcut,
            final(self).crop_shortcut == old(self).crop_shortcut,
    {
        self.cropped = None;
        self.full = Some(img);
        proof {
            let k = choose|i: int|
                0 <= i < old(self).displays@.len() && (#[trigger] old(self).displays@[i]).id == old(
                    self,
                ).current_id;
            assert(self.displays@[k].id == self.current_id);
        }
    }

    /// Discards the crop result and any crop gesture in progress.
    pub fn cancel_crop(&mut self)
        requires
            old(self).wf(),
        ensures
            final(self).wf(),
            final(self).cropped is None,
            final(self).session == CropSession::Idle,
            final(self).full == old(self).full,
            final(self).displays == old(self).displays,
            final(self).current_id == old(self).current_id,
            final(self).annotation == old(self).annotation,
            final(self).save == old(self).save,
            final(self).delay == old(self).delay,
            final(self).delay_enable == old(self).delay_enable,
            final(self).screenshot_shortcut == old(self).screenshot_shortcut,
            final(self).crop_shortcut == old(self).crop_shortcut,
    {
        self.cropped = None;
        self.session = CropSession::Idle;
        proof {
            let k = choose|i: int|
                0 <= i < old(self).displays@.len() && (#[trigger] old(self).displays@[i]).id == old(
                    self,
                ).current_id;
            assert(self.displays@[k].id == self.current_id);
        }
    }

    /// Arms a crop gesture, refusing when no capture is held yet.
    pub fn begin_crop(&mut self) -> (ok: bool)
        requires
            old(self).wf(),
        ensures
            final(self).wf(),
            ok == (old(self).full is Some),
            ok ==> final(self).session == CropSession::Armed,
            !ok ==> *final(self) == *old(self),
            final(self).full == old(self).full,
            final(self).cropped == old(self).cropped,
            final(self).displays == old(self).displays,
            final(self).current_id == old(self).current_id,
            final(self).annotation == old(self).annotation,
            final(self).save == old(self).save,
            final(self).delay == old(self).delay,
            final(self).delay_enable == old(self).delay_enable,
            final(self).screenshot_shortcut == old(self).screenshot_shortcut,
            final(self).crop_shortcut == old(self).crop_shortcut,
    {
        if self.full.is_some() {
            self.session.begin();
            true
        } else {
            false
        }
    }

    /// Commits a selected region against the active image on the given
    /// display: on success the cut-out becomes the new crop result; a
    /// degenerate region, or the absence of any capture, leaves every
    /// buffer as it was.
    pub fn commit_crop(&mut self, d: &Display, region: CropRegion, chrome_offset_y: u32) -> (ok:
        bool)
        requires
            old(self).wf(),
            d.wf(),
            region.wf(),
            chrome_offset_y <= MAX_CHROME_OFFSET,
        ensures
            final(self).wf(),
            final(self).full == old(self).full,
            final(self).displays == old(self).displays,
            final(self).current_id == old(self).current_id,
            final(self).session == old(self).session,
            final(self).annotation == old(self).annotation,
            final(self).save == old(self).save,
            final(self).delay == old(self).delay,
            final(self).delay_enable == old(self).delay_enable,
            final(self).screenshot_shortcut == old(self).screenshot_shortcut,
            final(self).crop_shortcut == old(self).crop_shortcut,
            old(self).spec_active_image() is None ==> !ok && *final(self) == *old(self),
            !ok ==> *final(self) == *old(self),
            old(self).spec_active_image() matches Some(src) ==> {
                &&& ok <==> (spec_crop_width(region, *d) > 0 && spec_crop_height(region, *d) > 0)
                &&& ok ==> (final(self).cropped matches Some(img) && img.wf() && img.width
                    == spec_crop_width(region, *d) && img.height == spec_crop_height(region, *d)
                    && forall|x: int, y: int|
                    0 <= x < img.width && 0 <= y < img.height ==> img.spec_index(x, y)
                        == src.spec_index_or_transparent(
                        spec_source_x(region, *d, x),
                        spec_source_y(region, *d, chrome_offset_y, y),
                    ))
            },
    {
        let out: Option<RasterImage> = match (&self.cropped, &self.full) {
            (Some(c), _) => crop_from_buffer(c, region, d, chrome_offset_y),
            (None, Some(f)) => crop_from_buffer(f, region, d, chrome_offset_y),
            (None, None) => {
                return false;
            },
        };
        match out {
            Some(img) => {
                self.cropped = Some(img);
                proof {
                    let k = choose|i: int|
                        0 <= i < old(self).displays@.len() && (#[trigger] old(
                            self,
                        ).displays@[i]).id == old(self).current_id;
                    assert(self.displays@[k].id == self.current_id);
                }
                true
            },
            None => false,
        }
    }

    /// Adopts a crop produced by direct re-capture: when the capture
    /// source can grab the pixel rectangle itself, the grabbed image
    /// replaces the crop result wholesale, exactly as a buffer-copy commit
    /// would have.
    pub fn adopt_crop(&mut self, img: RasterImage)
        requires
            old(self).wf(),
            img.wf(),
            img.width > 0,
            img.height > 0,
        ensures
            final(self).wf(),
            final(self).cropped == Some(img),
            final(self).full == old(self).full,
            final(self).displays == old(self).displays,
            final(self).current_id == old(self).current_id,
            final(self).session == old(self).session,
            final(self).annotation == old(self).annotation,
            final(self).save == old(self).save,
            final(self).delay == old(self).delay,
            final(self).delay_enable == old(self).delay_enable,
            final(self).screenshot_shortcut == old(self).screenshot_shortcut,
            final(self).crop_shortcut == old(self).crop_shortcut,
    {
        self.cropped = Some(img);
        proof {
            let k = choose|i: int|
                0 <= i < old(self).displays@.len() && (#[trigger] old(self).displays@[i]).id == old(
                    self,
                ).current_id;
            assert(self.displays@[k].id == self.current_id);
        }
    }

    /// Flushes the recorded strokes into the active image — the crop
    /// result when one exists, else the full capture — and clears the
    /// recording. Exactly the covered in-bounds pixels of that image take
    /// the stroke color; the other buffer, and a commit with nothing
    /// recorded or nothing captured, change no pixels.
    pub fn commit_annotation(&mut self, d: &Display, thickness: u32, color: Pixel)
        requires
            old(self).wf(),
            d.wf(),
            1 <= thickness <= MAX_THICKNESS,
        ensures
            final(self).wf(),
            final(self).annotation.spec_strokes().len() == 0,
            final(self).displays == old(self).displays,
            final(self).current_id == old(self).current_id,
            final(self).session == old(self).session,
            final(self).save == old(self).save,
            final(self).delay == old(self).delay,
            final(self).delay_enable == old(self).delay_enable,
            final(self).screenshot_shortcut == old(self).screenshot_shortcut,
            final(self).crop_shortcut == old(self).crop_shortcut,
            old(self).spec_active_image() is None ==> final(self).full == old(self).full
                && final(self).cropped == old(self).cropped,
            old(self).annotation.spec_strokes().len() == 0 ==> final(self).full == old(self).full
                && final(self).cropped == old(self).cropped,
            old(self).cropped matches Some(src) ==> (final(self).cropped matches Some(out)
                && final(self).full == old(self).full && out.wf() && out.width == src.width
                && out.height == src.height && forall|px: int, py: int|
                0 <= px < src.width && 0 <= py < src.height ==> out.spec_index(px, py) == (
                if spec_annotation_covers(
                    old(self).annotation.spec_strokes(),
                    d.scale_centi,
                    thickness,
                    (px, py),
                ) {
                    color
                } else {
                    src.spec_index(px, py)
                })),
            old(self).cropped is None ==> (old(self).full matches Some(src) ==> (final(self).full
                matches Some(out) && final(self).cropped is None && out.wf() && out.width
                == src.width && out.height == src.height && forall|px: int, py: int|
                0 <= px < src.width && 0 <= py < src.height ==> out.spec_index(px, py) == (
                if spec_annotation_covers(
                    old(self).annotation.spec_strokes(),
                    d.scale_centi,
                    thickness,
                    (px, py),
                ) {
                    color
                } else {
                    src.spec_index(px, py)
                }))),
    {
        if self.annotation.strokes.len() > 0 {
            match &mut self.cropped {
                Some(img) => {
                    rasterize_strokes(img, &self.annotation.strokes, d, thickness, color);
                },
                None => {
                    match &mut self.full {
                        Some(img) => {
                            rasterize_strokes(img, &self.annotation.strokes, d, thickness, color);
                        },
                        None => {},
                    }
                },
            }
        }
        self.annotation.clear();
        proof {
            let k = choose|i: int|
                0 <= i < old(self).displays@.len() && (#[trigger] old(self).displays@[i]).id == old(
                    self,
                ).current_id;
            assert(self.displays@[k].id == self.current_id);
        }
    }

    /// A reference to the active image: the crop result when one exists,
    /// else the full capture.
    pub fn active_image(&self) -> (r: Option<&RasterImage>)
        ensures
            match r {
                Some(img) => self.spec_active_image() == Some(*img),
                None => self.spec_active_image() is None,
            },
    {
        match (&self.cropped, &self.full) {
            (Some(c), _) => Some(c),
            (None, Some(f)) => Some(f),
            (None, None) => None,
        }
    }

    /// The path a plain save should write to, stamped with the current
    /// wall-clock time: under the configured directory and fixed stem when
    /// no prefix is given, under the caller's replacement prefix
    /// otherwise. For a user-chosen path taken verbatim, see
    /// `save_as_request`. Returns nothing, and asks for no write, when no
    /// image is held.
    pub fn save_request(&self, prefix: Option<String>) -> (r: Option<String>)
        ensures
            r is Some <==> self.spec_active_image() is Some,
            r matches Some(p) ==> {
                &&& prefix is None ==> exists|ts: Timestamp|
                    ts.wf() && p@ == spec_save_path(self.save.directory@, ts, self.save.extension)
                &&& prefix matches Some(pre) ==> exists|ts: Timestamp|
                    ts.wf() && p@ == spec_prefixed_path(pre@, ts, self.save.extension)
            },
    {
        if self.cropped.is_none() && self.full.is_none() {
            return None;
        }
        let ts: Timestamp = now_utc();
        let p: String = match &prefix {
            Some(pre) => prefixed_path(pre.as_str(), &ts, self.save.extension),
            None => default_save_path(self.save.directory.as_str(), &ts, self.save.extension),
        };
        Some(p)
    }

    /// The path a save-as action should write to: the user-chosen path,
    /// used verbatim — no timestamp and no extension appended — or, when
    /// the user chose none, the bare stem under the configured directory.
    /// Returns nothing, and asks for no write, when no image is held.
    pub fn save_as_request(&self, path: Option<String>) -> (r: Option<String>)
        ensures
            r is Some <==> self.spec_active_image() is Some,
            r matches Some(p) ==> {
                &&& path matches Some(q) ==> p@ == q@
                &&& path is None ==> p@ == spec_default_stem(self.save.directory@)
            },
    {
        if self.cropped.is_none() && self.full.is_none() {
            return None;
        }
        match path {
            Some(q) => Some(q),
            None => Some(default_stem(self.save.directory.as_str())),
        }
    }

    /// The width/height/byte-buffer record a clipboard publish needs,
    /// built from the active image: RGBA8, row-major, no padding. Returns
    /// nothing when no image is held.
    pub fn clipboard_payload(&self) -> (r: Option<ClipboardImage>)
        requires
            self.wf(),
        ensures
            match (r, self.spec_active_image()) {
                (Some(c), Some(img)) => {
                    &&& c.width == img.width
                    &&& c.height == img.height
                    &&& c.bytes@.len() == 4 * img.data@.len()
                    &&& forall|i: int|
                        0 <= i < img.data@.len() ==> c.bytes@[4 * i] == img.data@[i].r
                            && c.bytes@[4 * i + 1] == img.data@[i].g && c.bytes@[4 * i + 2]
                            == img.data@[i].b && c.bytes@[4 * i + 3] == img.data@[i].a
                },
                (None, None) => true,
                _ => false,
            },
    {
        match self.active_image() {
            Some(img) => Some(to_clipboard_image(img)),
            None => None,
        }
    }

    /// How long a capture waits before it grabs the screen: the configured
    /// delay when delaying is enabled, zero otherwise.
    pub fn effective_delay(&self) -> (r: u32)
        ensures
            r == (if self.delay_enable && self.delay > 0 {
                self.delay
            } else {
                0u32
            }),
    {
        if self.delay_enable && self.delay > 0 {
            self.delay
        } else {
            0
        }
    }
}

} // verus!
