//! Crop-region selection and the crop-commit algorithm.
//!
//! A crop is chosen by a drag gesture: the first pointer-down fixes the
//! start corner, further samples while the button is held move the live end
//! corner, and release commits. The committed region, normalized to
//! min/max corners, is cut out of the current raster buffer pixel by pixel,
//! with out-of-bounds reads replaced by the transparent pixel.

use crate::geom::{
    lemma_scale_bounds, spec_scale, Display, LogicalPoint, MAX_CHROME_OFFSET, MIN_SCALE_CENTI,
};
use crate::raster::{lemma_index_in_range, RasterImage};
use vstd::arithmetic::div_mod::{
    lemma_fundamental_div_mod, lemma_mod_division_less_than_divisor,
};
use vstd::arithmetic::mul::{
    lemma_mul_is_commutative, lemma_mul_is_distributive_add_other_way,
};
use vstd::prelude::*;

verus! {

/// The vertical pixel allowance for the non-capturable chrome strip that
/// overlays the capture view. Empirically calibrated for this window
/// layout; the commit step takes it as a parameter, so a different chrome
/// height only changes this constant.
pub const CHROME_OFFSET_Y: u32 = 65;

/// Horizontal inset applied to the selection-window rectangle so the drawn
/// one-pixel outline itself is not included in the crop.
pub const SELECTION_X_INSET: u32 = 1;

/// Vertical allowance added to the selection rectangle's top edge when
/// mapping selection-window coordinates to logical capture coordinates.
/// Calibrated together with `CHROME_OFFSET_Y`, which the commit step later
/// subtracts again.
pub const SELECTION_START_Y_OFFSET: u32 = 67;

/// Vertical allowance added to the selection rectangle's bottom edge when
/// mapping selection-window coordinates to logical capture coordinates.
pub const SELECTION_END_Y_OFFSET: u32 = 65;

/// The two corners of a drag gesture, in logical UI units. Not necessarily
/// ordered: `normalized` puts the min corner first.
#[derive(Clone, Copy, PartialEq, Eq, Structural, Debug)]
pub struct CropRegion {
    pub start: LogicalPoint,
    pub end: LogicalPoint,
}

impl CropRegion {
    /// Both corners are in mapper range.
    pub open spec fn wf(self) -> bool {
        self.start.wf() && self.end.wf()
    }

    /// The same region with the corners ordered min-to-max on each axis.
    pub open spec fn spec_normalized(self) -> CropRegion {
        CropRegion {
            start: LogicalPoint {
                x: if self.start.x <= self.end.x {
                    self.start.x
                } else {
                    self.end.x
                },
                y: if self.start.y <= self.end.y {
                    self.start.y
                } else {
                    self.end.y
                },
            },
            end: LogicalPoint {
                x: if self.start.x <= self.end.x {
                    self.end.x
                } else {
                    self.start.x
                },
                y: if self.start.y <= self.end.y {
                    self.end.y
                } else {
                    self.start.y
                },
            },
        }
    }

    /// Orders the corners min-to-max on each axis.
    pub fn normalized(self) -> (r: CropRegion)
        ensures
            r == self.spec_normalized(),
    {
        let sx: u32 = if self.start.x <= self.end.x {
            self.start.x
        } else {
            self.end.x
        };
        let ex: u32 = if self.start.x <= self.end.x {
            self.end.x
        } else {
            self.start.x
        };
        let sy: u32 = if self.start.y <= self.end.y {
            self.start.y
        } else {
            self.end.y
        };
        let ey: u32 = if self.start.y <= self.end.y {
            self.end.y
        } else {
            self.start.y
        };
        CropRegion {
            start: LogicalPoint { x: sx, y: sy },
            end: LogicalPoint { x: ex, y: ey },
        }
    }
}

/// The logical extent of a region along one axis: `end - start`, floored at
/// zero when the corners are not ordered.
pub open spec fn spec_extent(a: u32, b: u32) -> int {
    if b >= a {
        b - a
    } else {
        0
    }
}

/// Width in device pixels of the committed crop: the logical x extent
/// scaled by the display's scale factor, truncated.
pub open spec fn spec_crop_width(region: CropRegion, d: Display) -> int {
    (spec_extent(region.start.x, region.end.x) * d.scale_centi) / 100
}

/// Height in device pixels of the committed crop: the logical y extent
/// scaled by the display's scale factor, truncated.
pub open spec fn spec_crop_height(region: CropRegion, d: Display) -> int {
    (spec_extent(region.start.y, region.end.y) * d.scale_centi) / 100
}

/// The vertical compensation actually applied by the commit step: the
/// chrome offset at scale 1.0x and below, zero on high-DPI displays.
pub open spec fn spec_compensation(d: Display, chrome_offset_y: u32) -> int {
    if d.scale_centi <= MIN_SCALE_CENTI {
        chrome_offset_y as int
    } else {
        0
    }
}

/// Source column read for destination column `x`: the region's start
/// corner scaled to pixels, plus the offset.
pub open spec fn spec_source_x(region: CropRegion, d: Display, x: int) -> int {
    spec_scale(region.start.x, d.scale_centi) + x
}

/// Source row read for destination row `y`: the region's start row in
/// logical units less the chrome compensation (saturating at zero), plus
/// the offset. The start row is deliberately not scaled here; the
/// commit step reads rows in the source buffer's own units.
pub open spec fn spec_source_y(region: CropRegion, d: Display, chrome_offset_y: u32, y: int) -> int {
    let comp = spec_compensation(d, chrome_offset_y);
    let base = if region.start.y >= comp {
        region.start.y - comp
    } else {
        0
    };
    base + y
}

/// Row-major flat offset of `(x, y)` in a buffer `w` pixels wide.
pub open spec fn spec_flat(w: int, x: int, y: int) -> int {
    y * w + x
}

/// Cuts the committed region out of `src`.
///
/// Returns `None` exactly when the region is degenerate: zero pixel width
/// or height after scaling. Otherwise the result holds, at `(x, y)`, the
/// source pixel at `(spec_source_x(.., x), spec_source_y(.., y))`, with the
/// transparent pixel substituted wherever that position falls outside
/// `src`.
pub fn crop_from_buffer(
    src: &RasterImage,
    region: CropRegion,
    d: &Display,
    chrome_offset_y: u32,
) -> (out: Option<RasterImage>)
    requires
        src.wf(),
        region.wf(),
        d.wf(),
        chrome_offset_y <= MAX_CHROME_OFFSET,
    ensures
        match out {
            Some(img) => {
                &&& img.wf()
                &&& img.width == spec_crop_width(region, *d)
                &&& img.height == spec_crop_height(region, *d)
                &&& img.width > 0
                &&& img.height > 0
                &&& forall|x: int, y: int|
                    0 <= x < img.width && 0 <= y < img.height ==> img.spec_index(x, y)
                        == src.spec_index_or_transparent(
                        spec_source_x(region, *d, x),
                        spec_source_y(region, *d, chrome_offset_y, y),
                    )
            },
            None => spec_crop_width(region, *d) == 0 || spec_crop_height(region, *d) == 0,
        },
{
    let dx: u32 = if region.end.x >= region.start.x {
        region.end.x - region.start.x
    } else {
        0
    };
    let dy: u32 = if region.end.y >= region.start.y {
        region.end.y - region.start.y
    } else {
        0
    };
    let w: u32 = crate::geom::scale_coord(dx, d.scale_centi);
    let h: u32 = crate::geom::scale_coord(dy, d.scale_centi);
    if w == 0 || h == 0 {
        return None;
    }
    proof {
        lemma_scale_bounds(dx, d.scale_centi);
        lemma_scale_bounds(dy, d.scale_centi);
        lemma_scale_bounds(region.start.x, d.scale_centi);
    }
    let comp: u32 = if d.scale_centi <= MIN_SCALE_CENTI {
        chrome_offset_y
    } else {
        0
    };
    let sx0: u32 = crate::geom::scale_coord(region.start.x, d.scale_centi);
    let sy0: u32 = if region.start.y >= comp {
        region.start.y - comp
    } else {
        0
    };
    let mut data: Vec<crate::raster::Pixel> = Vec::new();
    let mut y: u32 = 0;
    while y < h
        invariant
            y <= h,
            0 < w <= 0x1000_0000,
            0 < h,
            sx0 + w <= u32::MAX,
            sy0 + h <= u32::MAX,
            src.wf(),
            data@.len() == y * w,
            sx0 == spec_scale(region.start.x, d.scale_centi),
            forall|qx: int, qy: int|
                0 <= qx < w && 0 <= qy < y ==> data@[#[trigger] spec_flat(w as int, qx, qy)]
                    == src.spec_index_or_transparent(sx0 + qx, sy0 + qy),
        decreases h - y,
    {
        let mut x: u32 = 0;
        while x < w
            invariant
                x <= w,
                y < h,
                0 < w <= 0x1000_0000,
                sx0 + w <= u32::MAX,
                sy0 + h <= u32::MAX,
                src.wf(),
                data@.len() == y * w + x,
                sx0 == spec_scale(region.start.x, d.scale_centi),
                forall|qx: int, qy: int|
                    0 <= qx < w && 0 <= qy < y ==> data@[#[trigger] spec_flat(w as int, qx, qy)]
                        == src.spec_index_or_transparent(sx0 + qx, sy0 + qy),
                forall|qx: int|
                    0 <= qx < x ==> data@[#[trigger] spec_flat(w as int, qx, y as int)]
                        == src.spec_index_or_transparent(sx0 + qx, sy0 + y),
            decreases w - x,
        {
            let p = src.get_pixel_or_transparent(sx0 + x, sy0 + y);
            data.push(p);
            proof {
                assert forall|qx: int, qy: int|
                    0 <= qx < w && 0 <= qy < y implies data@[#[trigger] spec_flat(
                    w as int,
                    qx,
                    qy,
                )] == src.spec_index_or_transparent(sx0 + qx, sy0 + qy) by {
                    lemma_index_in_range(w as int, y as int, qx, qy);
                    vstd::arithmetic::mul::lemma_mul_inequality(qy + 1, y as int, w as int);
                    lemma_mul_is_distributive_add_other_way(w as int, qy, 1);
                }
                assert(data@[spec_flat(w as int, x as int, y as int)] == src.spec_index_or_transparent(
                    sx0 + x,
                    sy0 + y,
                ));
            }
            x = x + 1;
        }
        proof {
            lemma_mul_is_distributive_add_other_way(w as int, y as int, 1);
        }
        y = y + 1;
    }
    let img = RasterImage { width: w, height: h, data };
    proof {
        lemma_mul_is_commutative(h as int, w as int);
        assert forall|qx: int, qy: int|
            0 <= qx < w && 0 <= qy < h implies img.spec_index(qx, qy)
            == src.spec_index_or_transparent(
            spec_source_x(region, *d, qx),
            spec_source_y(region, *d, chrome_offset_y, qy),
        ) by {
            lemma_index_in_range(w as int, h as int, qx, qy);
            assert(img.spec_index(qx, qy) == img.data@[spec_flat(w as int, qx, qy)]);
        }
    }
    Some(img)
}

/// A region whose two corners coincide scales to zero extent on both axes,
/// so committing it is refused and the previous crop result stands.
pub proof fn lemma_degenerate_region_rejected(region: CropRegion, d: Display)
    requires
        region.start == region.end,
    ensures
        spec_crop_width(region, d) == 0,
        spec_crop_height(region, d) == 0,
{
}

/// Cropping with the region anchored at the origin and scaling to exactly
/// the source dimensions reproduces the source image: with no chrome
/// compensation every destination pixel reads its own position, so a crop
/// of the full capture equals the full capture. The conclusion is stated
/// for any image satisfying the contract of `crop_from_buffer`.
pub proof fn lemma_full_region_crop_is_identity(
    src: RasterImage,
    region: CropRegion,
    d: Display,
    img: RasterImage,
)
    requires
        src.wf(),
        img.wf(),
        region.start == (LogicalPoint { x: 0, y: 0 }),
        spec_compensation(d, 0) == 0,
        img.width == spec_crop_width(region, d),
        img.height == spec_crop_height(region, d),
        spec_crop_width(region, d) == src.width,
        spec_crop_height(region, d) == src.height,
        forall|x: int, y: int|
            0 <= x < img.width && 0 <= y < img.height ==> img.spec_index(x, y)
                == src.spec_index_or_transparent(
                spec_source_x(region, d, x),
                spec_source_y(region, d, 0, y),
            ),
    ensures
        img.width == src.width,
        img.height == src.height,
        img.data@ == src.data@,
{
    let w = src.width as int;
    let h = src.height as int;
    assert forall|x: int, y: int| 0 <= x < w && 0 <= y < h implies img.spec_index(x, y)
        == src.spec_index(x, y) by {
        assert(spec_source_x(region, d, x) == x);
        assert(spec_source_y(region, d, 0, y) == y);
    }
    if w > 0 {
        assert forall|i: int| 0 <= i < src.data@.len() implies img.data@[i] == src.data@[i] by {
            lemma_fundamental_div_mod(i, w);
            lemma_mod_division_less_than_divisor(i, w);
            let x = i % w;
            let y = i / w;
            vstd::arithmetic::div_mod::lemma_multiply_divide_lt(i, w, h);
            lemma_mul_is_commutative(w, y);
            assert(img.spec_index(x, y) == img.data@[i]);
            assert(src.spec_index(x, y) == src.data@[i]);
        }
    }
    assert(img.data@ =~= src.data@);
}

/// The crop-selection state machine. One session covers one gesture:
/// arming, the drag, and the release that commits.
#[derive(Clone, Copy, PartialEq, Eq, Structural, Debug)]
pub enum CropSession {
    /// No crop selection in progress.
    Idle,
    /// Selection requested; waiting for the first pointer-down.
    Armed,
    /// Pointer went down at `start`; `last` is the most recent sample seen
    /// while the button stayed down, used as the live preview end corner.
    Dragging { start: LogicalPoint, last: Option<LogicalPoint> },
}

/// The `0RGB` word written for the live selection outline: white.
pub const OUTLINE_WORD: u32 = 0xFF_FFFF;

/// Whether `(px, py)` lies on the one-pixel border of the rectangle
/// spanned by the normalized region `r`.
pub open spec fn spec_on_outline(px: int, py: int, r: CropRegion) -> bool {
    &&& r.start.x <= px <= r.end.x
    &&& r.start.y <= py <= r.end.y
    &&& (px == r.start.x || px == r.end.x || py == r.start.y || py == r.end.y)
}

/// Writes one outline word into a `w`-wide preview buffer, skipping
/// positions outside it.
fn paint_outline_cell(buf: &mut Vec<u32>, w: u32, h: u32, x: u32, y: u32)
    requires
        old(buf)@.len() == w * h,
    ensures
        final(buf)@.len() == old(buf)@.len(),
        forall|px: int, py: int|
            0 <= px < w && 0 <= py < h ==> final(buf)@[#[trigger] spec_flat(w as int, px, py)] == (
            if px == x && py == y {
                OUTLINE_WORD
            } else {
                old(buf)@[spec_flat(w as int, px, py)]
            }),
{
    if x < w && y < h {
        proof {
            lemma_index_in_range(w as int, h as int, x as int, y as int);
            vstd::arithmetic::mul::lemma_mul_upper_bound(
                y as int,
                u32::MAX as int,
                w as int,
                u32::MAX as int,
            );
        }
        let wide: u64 = (y as u64) * (w as u64) + (x as u64);
        let n: usize = buf.len();
        assert(wide < n as u64);
        buf.set(wide as usize, OUTLINE_WORD);
        proof {
            assert forall|px: int, py: int|
                0 <= px < w && 0 <= py < h && !(px == x as int && py == y as int) implies buf@[
            #[trigger] spec_flat(w as int, px, py)] == old(buf)@[spec_flat(w as int, px, py)] by {
                lemma_index_in_range(w as int, h as int, px, py);
                if py != y as int {
                    if py < y as int {
                        vstd::arithmetic::mul::lemma_mul_inequality(py + 1, y as int, w as int);
                        lemma_mul_is_distributive_add_other_way(w as int, py, 1);
                    } else {
                        vstd::arithmetic::mul::lemma_mul_inequality(y as int + 1, py, w as int);
                        lemma_mul_is_distributive_add_other_way(w as int, y as int, 1);
                    }
                }
            }
        }
    }
}

/// Draws the live selection rectangle into a preview word buffer: the
/// one-pixel border of the rectangle spanned by the two drag corners turns
/// white, clamped to the buffer, and every other word keeps its value.
pub fn draw_selection_outline(buf: &mut Vec<u32>, w: u32, h: u32, a: LogicalPoint, b: LogicalPoint)
    requires
        old(buf)@.len() == w * h,
        a.wf(),
        b.wf(),
    ensures
        final(buf)@.len() == old(buf)@.len(),
        forall|px: int, py: int|
            0 <= px < w && 0 <= py < h ==> final(buf)@[#[trigger] spec_flat(w as int, px, py)] == (
            if spec_on_outline(px, py, (CropRegion { start: a, end: b }).spec_normalized()) {
                OUTLINE_WORD
            } else {
                old(buf)@[spec_flat(w as int, px, py)]
            }),
{
    let norm = (CropRegion { start: a, end: b }).normalized();
    let min_x: u32 = norm.start.x;
    let min_y: u32 = norm.start.y;
    let max_x: u32 = norm.end.x;
    let max_y: u32 = norm.end.y;
    let mut x: u32 = min_x;
    while x <= max_x
        invariant
            min_x <= x <= max_x + 1,
            min_x <= max_x <= crate::geom::MAX_COORD,
            min_y <= max_y <= crate::geom::MAX_COORD,
            buf@.len() == w * h,
            forall|px: int, py: int|
                0 <= px < w && 0 <= py < h ==> buf@[#[trigger] spec_flat(w as int, px, py)] == (
                if (py == min_y || py == max_y) && min_x <= px < x {
                    OUTLINE_WORD
                } else {
                    old(buf)@[spec_flat(w as int, px, py)]
                }),
        decreases max_x + 1 - x,
    {
        paint_outline_cell(buf, w, h, x, min_y);
        paint_outline_cell(buf, w, h, x, max_y);
        x = x + 1;
    }
    let mut y: u32 = min_y;
    while y <= max_y
        invariant
            min_y <= y <= max_y + 1,
            min_x <= max_x <= crate::geom::MAX_COORD,
            min_y <= max_y <= crate::geom::MAX_COORD,
            buf@.len() == w * h,
            forall|px: int, py: int|
                0 <= px < w && 0 <= py < h ==> buf@[#[trigger] spec_flat(w as int, px, py)] == (
                if ((py == min_y || py == max_y) && min_x <= px <= max_x) || ((px == min_x || px
                    == max_x) && min_y <= py < y) {
                    OUTLINE_WORD
                } else {
                    old(buf)@[spec_flat(w as int, px, py)]
                }),
        decreases max_y + 1 - y,
    {
        paint_outline_cell(buf, w, h, min_x, y);
        paint_outline_cell(buf, w, h, max_x, y);
        y = y + 1;
    }
}

/// Maps a normalized selection rectangle from the magnified selection
/// window into the logical coordinates the commit step expects: the min
/// corner one pixel inside the drawn outline and shifted down by the
/// calibrated top allowance, the max corner one pixel inside the outline
/// (saturating at zero) and shifted down by the bottom allowance.
pub fn selection_to_region(min: LogicalPoint, max: LogicalPoint) -> (r: CropRegion)
    requires
        min.x + SELECTION_X_INSET <= u32::MAX,
        min.y + SELECTION_START_Y_OFFSET <= u32::MAX,
        max.y + SELECTION_END_Y_OFFSET <= u32::MAX,
    ensures
        r.start == (LogicalPoint { x: (min.x + SELECTION_X_INSET) as u32, y: (min.y
            + SELECTION_START_Y_OFFSET) as u32 }),
        r.end == (LogicalPoint {
            x: if max.x >= SELECTION_X_INSET {
                (max.x - SELECTION_X_INSET) as u32
            } else {
                0
            },
            y: (max.y + SELECTION_END_Y_OFFSET) as u32,
        }),
{
    let end_x: u32 = if max.x >= SELECTION_X_INSET {
        max.x - SELECTION_X_INSET
    } else {
        0
    };
    CropRegion {
        start: LogicalPoint { x: min.x + SELECTION_X_INSET, y: min.y + SELECTION_START_Y_OFFSET },
        end: LogicalPoint { x: end_x, y: max.y + SELECTION_END_Y_OFFSET },
    }
}

/// The transition relation of the crop-selection state machine: from a
/// state and one pointer sample to the next state and the region to
/// commit, if the sample completed the gesture.
///
/// Only the first down sample of a gesture fixes the start corner; further
/// down samples move the live end corner and leave the start untouched. A
/// release with no drag sample in between disarms without committing, and
/// a release after a drag commits the normalized region.
pub open spec fn spec_session_step(
    s: CropSession,
    pos: LogicalPoint,
    down: bool,
) -> (CropSession, Option<CropRegion>) {
    match s {
        CropSession::Idle => (CropSession::Idle, None),
        CropSession::Armed => {
            if down {
                (CropSession::Dragging { start: pos, last: None }, None)
            } else {
                (CropSession::Armed, None)
            }
        },
        CropSession::Dragging { start, last } => {
            if down {
                (CropSession::Dragging { start, last: Some(pos) }, None)
            } else {
                match last {
                    Some(end) => (
                        CropSession::Idle,
                        Some((CropRegion { start, end }).spec_normalized()),
                    ),
                    None => (CropSession::Armed, None),
                }
            }
        },
    }
}

impl CropSession {
    /// Arms a new selection gesture, discarding any gesture in progress.
    pub fn begin(&mut self)
        ensures
            *final(self) == CropSession::Armed,
    {
        *self = CropSession::Armed;
    }

    /// Abandons the selection gesture.
    pub fn cancel(&mut self)
        ensures
            *final(self) == CropSession::Idle,
    {
        *self = CropSession::Idle;
    }

    /// Feeds one pointer sample (position plus button state) into the
    /// state machine and returns the normalized region to commit, if this
    /// sample completed the gesture.
    ///
    /// The last clause is the gesture-stability rule on its own: a down
    /// sample seen while already dragging never resets the start corner.
    pub fn on_sample(&mut self, pos: LogicalPoint, down: bool) -> (commit: Option<CropRegion>)
        ensures
            (*final(self), commit) == spec_session_step(*old(self), pos, down),
            (*old(self)) is Dragging && down
                ==> (*final(self)) is Dragging
                && (*final(self))->Dragging_start == (*old(self))->Dragging_start,
    {
        match *self {
            CropSession::Idle => None,
            CropSession::Armed => {
                if down {
                    *self = CropSession::Dragging { start: pos, last: None };
                }
                None
            },
            CropSession::Dragging { start, last } => {
                if down {
                    *self = CropSession::Dragging { start, last: Some(pos) };
                    None
                } else {
                    match last {
                        Some(end) => {
                            *self = CropSession::Idle;
                            Some((CropRegion { start, end }).normalized())
                        },
                        None => {
                            *self = CropSession::Armed;
                            None
                        },
                    }
                }
            },
        }
    }
}

} // verus!
