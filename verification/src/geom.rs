//! Displays and the logical-to-pixel coordinate mapper.
//!
//! Pointer positions arrive in logical UI units; the captured raster is
//! addressed in device pixels. A display's scale factor relates the two.
//! Floating point stays outside the verified core: the scale factor is held
//! in hundredths (100 is 1.0x, 200 is 2.0x), and scaling truncates, exactly
//! as a float multiply followed by an integer cast would on whole inputs.

use vstd::prelude::*;

verus! {

/// Largest logical or pixel coordinate the mapper accepts. Far above any
/// real display dimension; keeps every scaled coordinate well inside `u32`
/// and inside the range the line rasterizer can step over.
pub const MAX_COORD: u32 = 0x10_0000;

/// Smallest accepted scale factor, in hundredths: 1.0x. Displays never
/// report a logical unit larger than a device pixel.
pub const MIN_SCALE_CENTI: u32 = 100;

/// Largest accepted scale factor, in hundredths: 16.0x.
pub const MAX_SCALE_CENTI: u32 = 1600;

/// Largest accepted chrome compensation, in pixels.
pub const MAX_CHROME_OFFSET: u32 = 1024;

/// A capture target: an opaque id, its size in device pixels, and its
/// logical-to-physical scale factor in hundredths.
#[derive(Clone, Copy, PartialEq, Eq, Structural, Debug)]
pub struct Display {
    pub id: u32,
    pub width: u32,
    pub height: u32,
    pub scale_centi: u32,
}

/// A point in logical UI units.
#[derive(Clone, Copy, PartialEq, Eq, Structural, Debug)]
pub struct LogicalPoint {
    pub x: u32,
    pub y: u32,
}

/// A point in device pixels of the current display.
#[derive(Clone, Copy, PartialEq, Eq, Structural, Debug)]
pub struct PixelPoint {
    pub x: u32,
    pub y: u32,
}

impl Display {
    /// An enumerated display: non-degenerate, bounded, scale factor at
    /// least 1.0x.
    pub open spec fn wf(self) -> bool {
        &&& 0 < self.width <= MAX_COORD
        &&& 0 < self.height <= MAX_COORD
        &&& MIN_SCALE_CENTI <= self.scale_centi <= MAX_SCALE_CENTI
    }
}

impl LogicalPoint {
    /// In range for the mapper.
    pub open spec fn wf(self) -> bool {
        self.x <= MAX_COORD && self.y <= MAX_COORD
    }
}

/// Truncating scale: `v` logical units at `scale_centi` hundredths give
/// `v * scale_centi / 100` whole device pixels.
pub open spec fn spec_scale(v: u32, scale_centi: u32) -> int {
    (v * scale_centi) / 100
}

/// Pixel x of a logical point on a display.
pub open spec fn spec_to_pixel_x(p: LogicalPoint, d: Display) -> int {
    spec_scale(p.x, d.scale_centi)
}

/// Pixel y of a logical point on a display, after chrome compensation.
///
/// The compensation is applied only at scale 1.0x and below: on high-DPI
/// displays the non-capturable chrome strip is already accounted for in
/// logical units, so the offset is defined to be zero there. The
/// subtraction saturates at zero rather than going negative.
pub open spec fn spec_to_pixel_y(p: LogicalPoint, d: Display, chrome_offset_y: u32) -> int {
    let sy = spec_scale(p.y, d.scale_centi);
    if d.scale_centi <= MIN_SCALE_CENTI {
        if sy >= chrome_offset_y {
            sy - chrome_offset_y
        } else {
            0
        }
    } else {
        sy
    }
}

/// A scaled in-range coordinate stays small: at most 2^24 pixels.
pub proof fn lemma_scale_bounds(v: u32, scale_centi: u32)
    requires
        v <= MAX_COORD,
        scale_centi <= MAX_SCALE_CENTI,
    ensures
        0 <= spec_scale(v, scale_centi) <= 0x100_0000,
{
    vstd::arithmetic::mul::lemma_mul_upper_bound(
        v as int,
        MAX_COORD as int,
        scale_centi as int,
        MAX_SCALE_CENTI as int,
    );
    vstd::arithmetic::mul::lemma_mul_nonnegative(v as int, scale_centi as int);
    vstd::arithmetic::div_mod::lemma_div_is_ordered(
        (v * scale_centi) as int,
        MAX_COORD as int * MAX_SCALE_CENTI as int,
        100,
    );
    vstd::arithmetic::div_mod::lemma_div_pos_is_pos((v * scale_centi) as int, 100);
}

/// Scales one coordinate by a display's scale factor, truncating.
pub fn scale_coord(v: u32, scale_centi: u32) -> (r: u32)
    requires
        v <= MAX_COORD,
        scale_centi <= MAX_SCALE_CENTI,
    ensures
        r == spec_scale(v, scale_centi),
{
    proof {
        vstd::arithmetic::mul::lemma_mul_upper_bound(
            v as int,
            MAX_COORD as int,
            scale_centi as int,
            MAX_SCALE_CENTI as int,
        );
    }
    let wide: u64 = (v as u64) * (scale_centi as u64) / 100;
    wide as u32
}

/// Maps a logical pointer position to device-pixel coordinates of the
/// display: both axes scaled by the scale factor with truncation, then the
/// vertical chrome compensation subtracted (saturating) when and only when
/// the scale factor is at most 1.0x.
pub fn to_pixel(p: LogicalPoint, d: &Display, chrome_offset_y: u32) -> (r: PixelPoint)
    requires
        p.wf(),
        d.wf(),
        chrome_offset_y <= MAX_CHROME_OFFSET,
    ensures
        r.x == spec_to_pixel_x(p, *d),
        r.y == spec_to_pixel_y(p, *d, chrome_offset_y),
{
    let px: u32 = scale_coord(p.x, d.scale_centi);
    let sy: u32 = scale_coord(p.y, d.scale_centi);
    let py: u32 = if d.scale_centi <= MIN_SCALE_CENTI {
        if sy >= chrome_offset_y {
            sy - chrome_offset_y
        } else {
            0
        }
    } else {
        sy
    };
    PixelPoint { x: px, y: py }
}

/// With no chrome compensation, the origin maps to the pixel origin on
/// every display, whatever its scale factor.
pub proof fn lemma_origin_maps_to_origin(d: Display)
    requires
        d.wf(),
    ensures
        spec_to_pixel_x(LogicalPoint { x: 0, y: 0 }, d) == 0,
        spec_to_pixel_y(LogicalPoint { x: 0, y: 0 }, d, 0) == 0,
{
}

} // verus!
