//! The owned pixel data: a width-by-height grid of RGBA8 pixels, row-major,
//! top-left origin, with bounds-checked read and write used by the crop copy
//! and by the annotation flush.

use vstd::arithmetic::mul::{
    lemma_mul_inequality, lemma_mul_is_distributive_sub_other_way,
};
use vstd::prelude::*;

verus! {

/// One RGBA8 pixel.
#[derive(Clone, Copy, PartialEq, Eq, Structural, Debug)]
pub struct Pixel {
    pub r: u8,
    pub g: u8,
    pub b: u8,
    pub a: u8,
}

/// The pixel substituted for out-of-bounds reads: fully transparent black.
pub open spec fn spec_transparent() -> Pixel {
    Pixel { r: 0, g: 0, b: 0, a: 0 }
}

impl Pixel {
    /// The fully transparent pixel.
    pub fn transparent() -> (p: Pixel)
        ensures
            p == spec_transparent(),
    {
        Pixel { r: 0, g: 0, b: 0, a: 0 }
    }
}

/// An owned raster image: `width * height` RGBA8 pixels, row-major from the
/// top-left corner.
pub struct RasterImage {
    pub width: u32,
    pub height: u32,
    pub data: Vec<Pixel>,
}

/// A flat index `y * width + x` stays inside a `width * height` buffer.
pub proof fn lemma_index_in_range(w: int, h: int, x: int, y: int)
    requires
        0 <= x < w,
        0 <= y < h,
    ensures
        0 <= y * w + x < w * h,
{
    lemma_mul_inequality(y, h - 1, w);
    lemma_mul_is_distributive_sub_other_way(w, h, 1);
    vstd::arithmetic::mul::lemma_mul_is_commutative(w, h);
}

impl RasterImage {
    /// The backing vector holds exactly one pixel per grid cell.
    pub open spec fn wf(self) -> bool {
        self.data@.len() == self.width * self.height
    }

    /// The pixel at column `x`, row `y`.
    pub open spec fn spec_index(self, x: int, y: int) -> Pixel {
        self.data@[y * self.width + x]
    }

    /// The pixel at `(x, y)`, or the transparent pixel when the position is
    /// outside the image.
    pub open spec fn spec_index_or_transparent(self, x: int, y: int) -> Pixel {
        if 0 <= x < self.width && 0 <= y < self.height {
            self.spec_index(x, y)
        } else {
            spec_transparent()
        }
    }

    /// A fresh image of the given size with every pixel transparent.
    pub fn new_filled(width: u32, height: u32) -> (img: RasterImage)
        ensures
            img.wf(),
            img.width == width,
            img.height == height,
            forall|x: int, y: int|
                0 <= x < width && 0 <= y < height ==> img.spec_index(x, y) == spec_transparent(),
    {
        proof {
            vstd::arithmetic::mul::lemma_mul_upper_bound(
                width as int,
                u32::MAX as int,
                height as int,
                u32::MAX as int,
            );
        }
        let total: u64 = (width as u64) * (height as u64);
        let mut data: Vec<Pixel> = Vec::new();
        let mut i: u64 = 0;
        while i < total
            invariant
                i <= total,
                total == width * height,
                data@.len() == i,
                forall|j: int| 0 <= j < i ==> data@[j] == spec_transparent(),
            decreases total - i,
        {
            data.push(Pixel::transparent());
            i = i + 1;
        }
        let img = RasterImage { width, height, data };
        proof {
            assert forall|x: int, y: int|
                0 <= x < width && 0 <= y < height implies img.spec_index(x, y)
                == spec_transparent() by {
                lemma_index_in_range(width as int, height as int, x, y);
            }
        }
        img
    }

    /// The flat offset of `(x, y)` in the backing vector.
    fn index_of(&self, x: u32, y: u32) -> (i: usize)
        requires
            self.wf(),
            x < self.width,
            y < self.height,
        ensures
            i == y * self.width + x,
            i < self.data@.len(),
    {
        proof {
            lemma_index_in_range(self.width as int, self.height as int, x as int, y as int);
            vstd::arithmetic::mul::lemma_mul_upper_bound(
                y as int,
                u32::MAX as int,
                self.width as int,
                u32::MAX as int,
            );
        }
        let wide: u64 = (y as u64) * (self.width as u64) + (x as u64);
        let n: usize = self.data.len();
        assert(wide < n as u64);
        wide as usize
    }

    /// Reads the pixel at an in-bounds position.
    pub fn get_pixel(&self, x: u32, y: u32) -> (p: Pixel)
        requires
            self.wf(),
            x < self.width,
            y < self.height,
        ensures
            p == self.spec_index(x as int, y as int),
    {
        let i: usize = self.index_of(x, y);
        self.data[i]
    }

    /// Reads the pixel at any position, substituting the transparent pixel
    /// outside the image instead of failing.
    pub fn get_pixel_or_transparent(&self, x: u32, y: u32) -> (p: Pixel)
        requires
            self.wf(),
        ensures
            p == self.spec_index_or_transparent(x as int, y as int),
    {
        if x < self.width && y < self.height {
            self.get_pixel(x, y)
        } else {
            Pixel::transparent()
        }
    }

    /// Overwrites the pixel at an in-bounds position.
    pub fn put_pixel(&mut self, x: u32, y: u32, p: Pixel)
        requires
            old(self).wf(),
            x < old(self).width,
            y < old(self).height,
        ensures
            final(self).wf(),
            final(self).width == old(self).width,
            final(self).height == old(self).height,
            final(self).data@ == old(self).data@.update(y * old(self).width + x, p),
            final(self).spec_index(x as int, y as int) == p,
            forall|px: int, py: int|
                0 <= px < old(self).width && 0 <= py < old(self).height && !(px == x && py == y)
                    ==> final(self).spec_index(px, py) == old(self).spec_index(px, py),
    {
        let i: usize = self.index_of(x, y);
        self.data.set(i, p);
        proof {
            assert forall|px: int, py: int|
                0 <= px < self.width && 0 <= py < self.height && !(px == x as int && py
                    == y as int) implies self.spec_index(px, py) == old(self).spec_index(px, py) by {
                lemma_index_in_range(self.width as int, self.height as int, px, py);
                if py == y as int {
                    assert(py * self.width + px != y * self.width + x);
                } else if py < y as int {
                    lemma_mul_inequality(py + 1, y as int, self.width as int);
                    vstd::arithmetic::mul::lemma_mul_is_distributive_add_other_way(
                        self.width as int,
                        py,
                        1,
                    );
                } else {
                    lemma_mul_inequality(y as int + 1, py, self.width as int);
                    vstd::arithmetic::mul::lemma_mul_is_distributive_add_other_way(
                        self.width as int,
                        y as int,
                        1,
                    );
                }
            }
        }
    }

    /// Writes a pixel if the signed position lies inside the image, and
    /// leaves the image unchanged otherwise. Stroke points are user-driven
    /// and may step past the edge, so the skip is the contract, not a fault.
    pub fn put_pixel_checked(&mut self, x: i32, y: i32, p: Pixel)
        requires
            old(self).wf(),
        ensures
            final(self).wf(),
            final(self).width == old(self).width,
            final(self).height == old(self).height,
            forall|px: int, py: int|
                0 <= px < old(self).width && 0 <= py < old(self).height ==> final(self).spec_index(
                    px,
                    py,
                ) == (if px == x && py == y {
                    p
                } else {
                    old(self).spec_index(px, py)
                }),
    {
        if x >= 0 && y >= 0 {
            let xu: u32 = x as u32;
            let yu: u32 = y as u32;
            if xu < self.width && yu < self.height {
                self.put_pixel(xu, yu, p);
            }
        }
    }
}

/// The value of a pixel packed into one `0RGB` word: red in bits 16 to
/// 23, green in 8 to 15, blue in 0 to 7, alpha dropped.
pub open spec fn spec_pack_rgb(p: Pixel) -> int {
    p.r * 0x1_0000 + p.g * 0x100 + p.b
}

/// Packs a pixel into the `0RGB` word format the preview window displays.
pub fn pack_rgb(p: Pixel) -> (w: u32)
    ensures
        w == spec_pack_rgb(p),
{
    (p.r as u32) * 0x1_0000 + (p.g as u32) * 0x100 + (p.b as u32)
}

/// Flattens an image into the row-major `0RGB` word buffer a preview
/// window displays.
pub fn to_preview_buffer(img: &RasterImage) -> (buf: Vec<u32>)
    requires
        img.wf(),
    ensures
        buf@.len() == img.data@.len(),
        forall|i: int| 0 <= i < img.data@.len() ==> buf@[i] == spec_pack_rgb(img.data@[i]),
{
    let n: usize = img.data.len();
    let mut buf: Vec<u32> = Vec::new();
    let mut i: usize = 0;
    while i < n
        invariant
            i <= n,
            n == img.data@.len(),
            buf@.len() == i,
            forall|j: int| 0 <= j < i ==> buf@[j] == spec_pack_rgb(img.data@[j]),
        decreases n - i,
    {
        buf.push(pack_rgb(img.data[i]));
        i = i + 1;
    }
    buf
}

/// The clipboard-bound form of an image: dimensions plus the raw byte
/// buffer, RGBA8, row-major, no padding.
pub struct ClipboardImage {
    pub width: u32,
    pub height: u32,
    pub bytes: Vec<u8>,
}

/// Flattens an image into the width/height/byte-buffer record the system
/// clipboard takes: four bytes per pixel in r, g, b, a order, rows top to
/// bottom with no padding between them.
pub fn to_clipboard_image(img: &RasterImage) -> (c: ClipboardImage)
    requires
        img.wf(),
    ensures
        c.width == img.width,
        c.height == img.height,
        c.bytes@.len() == 4 * img.data@.len(),
        forall|i: int|
            0 <= i < img.data@.len() ==> c.bytes@[4 * i] == img.data@[i].r && c.bytes@[4 * i + 1]
                == img.data@[i].g && c.bytes@[4 * i + 2] == img.data@[i].b && c.bytes@[4 * i + 3]
                == img.data@[i].a,
{
    let n: usize = img.data.len();
    let mut bytes: Vec<u8> = Vec::new();
    let mut i: usize = 0;
    while i < n
        invariant
            i <= n,
            n == img.data@.len(),
            bytes@.len() == 4 * i,
            forall|j: int|
                0 <= j < i ==> bytes@[4 * j] == img.data@[j].r && bytes@[4 * j + 1]
                    == img.data@[j].g && bytes@[4 * j + 2] == img.data@[j].b && bytes@[4 * j + 3]
                    == img.data@[j].a,
        decreases n - i,
    {
        let p: Pixel = img.data[i];
        bytes.push(p.r);
        bytes.push(p.g);
        bytes.push(p.b);
        bytes.push(p.a);
        i = i + 1;
    }
    ClipboardImage { width: img.width, height: img.height, bytes }
}

} // verus!
