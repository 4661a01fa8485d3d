//! Normalized RGBA bitmaps, their content fingerprint, and the pixel
//! operations delegated to the image codec crate.

use vstd::prelude::*;

verus! {

/// A color with alpha, one byte per channel.
#[derive(Clone, Copy, Debug, PartialEq, Eq, Structural)]
pub struct Rgba {
    pub r: u8,
    pub g: u8,
    pub b: u8,
    pub a: u8,
}

/// A decoded bitmap: row-major RGBA bytes, four per pixel.
#[derive(Clone, Debug)]
pub struct Bitmap {
    pub width: u32,
    pub height: u32,
    pub pixels: Vec<u8>,
}

impl Bitmap {
    /// The pixel buffer holds exactly four bytes per pixel.
    pub open spec fn wf(self) -> bool {
        self.pixels@.len() == 4 * self.width * self.height
    }

    /// Read one channel byte of the pixel at (x, y).
    pub fn pixel(&self, x: u32, y: u32, c: u32) -> (b: u8)
        requires
            self.wf(),
            x < self.width,
            y < self.height,
            c < 4,
        ensures
            b == pixel_byte(self.pixels@, self.width as int, x as int, y as int, c as int),
    {
        let w = self.width;
        let n = self.pixels.len();
        proof {
            assert(n == self.pixels@.len());
            assert(0 <= (y as int) * (w as int) + (x as int) && ((y as int) * (w as int)
                + (x as int)) * 4 + 3 < 4 * (w as int) * (self.height as int)) by (nonlinear_arith)
                requires
                    0 <= (x as int) && (x as int) < (w as int),
                    0 <= (y as int) && (y as int) < (self.height as int),
            ;
            assert(4 * ((y as int) * (w as int) + (x as int)) + (c as int) < self.pixels@.len());
            assert((y as int) * (w as int) + (x as int) <= self.pixels@.len());
            assert(4 * ((y as int) * (w as int) + (x as int)) <= self.pixels@.len());
        }
        let idx: usize = 4 * ((y as usize) * (w as usize) + (x as usize)) + (c as usize);
        self.pixels[idx]
    }

    /// Build a bitmap from raw RGBA bytes.
    pub fn new(width: u32, height: u32, pixels: Vec<u8>) -> (r: Bitmap)
        requires
            pixels@.len() == 4 * width * height,
        ensures
            r == (Bitmap { width, height, pixels }),
            r.wf(),
    {
        Bitmap { width, height, pixels }
    }
}

/// One step of the 64-bit FNV-1a hash.
pub open spec fn fnv_step(acc: u64, byte: u8) -> u64 {
    vstd::wrapping::u64_specs::wrapping_mul(acc ^ (byte as u64), 0x100000001b3u64)
}

/// FNV-1a folded over `bytes`, starting from `acc`.
pub open spec fn fnv1a_from(bytes: Seq<u8>, acc: u64) -> u64
    decreases bytes.len(),
{
    if bytes.len() == 0 {
        acc
    } else {
        fnv1a_from(bytes.drop_first(), fnv_step(acc, bytes.first()))
    }
}

/// The content fingerprint of a byte sequence: 64-bit FNV-1a.
/// Order-sensitive, and a function of the bytes alone.
pub open spec fn fingerprint(bytes: Seq<u8>) -> u64 {
    fnv1a_from(bytes, 0xcbf29ce484222325u64)
}

/// Compute the fingerprint of a byte buffer.
pub fn fingerprint_bytes(bytes: &Vec<u8>) -> (r: u64)
    ensures
        r == fingerprint(bytes@),
{
    let mut acc: u64 = 0xcbf29ce484222325u64;
    let mut i: usize = 0;
    proof {
        assert(bytes@.skip(0) =~= bytes@);
    }
    while i < bytes.len()
        invariant
            0 <= i <= bytes@.len(),
            fingerprint(bytes@) == fnv1a_from(bytes@.skip(i as int), acc),
        decreases bytes@.len() - i,
    {
        proof {
            assert(bytes@.skip(i as int).len() > 0);
            assert(bytes@.skip(i as int).first() == bytes@[i as int]);
            assert(bytes@.skip(i as int).drop_first() =~= bytes@.skip(i as int + 1));
        }
        acc = (acc ^ (bytes[i] as u64)).wrapping_mul(0x100000001b3u64);
        i = i + 1;
    }
    proof {
        assert(bytes@.skip(i as int) =~= Seq::<u8>::empty());
    }
    acc
}

/// Cells needed to cover `px` pixels with cells of `cell` pixels: ceiling division.
pub open spec fn cells_for(px: int, cell: int) -> int {
    (px + cell - 1) / cell
}

/// The cell footprint from ceiling division covers the pixel size and is the
/// least count of cells that does: `cells * cell >= px` and `(cells - 1) * cell < px`.
pub proof fn lemma_footprint_minimal(px: int, cell: int)
    requires
        px > 0,
        cell > 0,
    ensures
        cells_for(px, cell) * cell >= px,
        (cells_for(px, cell) - 1) * cell < px,
        cells_for(px, cell) > 0,
{
    let f = cells_for(px, cell);
    let x = px + cell - 1;
    let r = x % cell;
    vstd::arithmetic::div_mod::lemma_fundamental_div_mod(x, cell);
    vstd::arithmetic::div_mod::lemma_mod_bound(x, cell);
    assert(cell * f == x - r);
    assert(f * cell == cell * f) by (nonlinear_arith);
    assert((f - 1) * cell == f * cell - cell) by (nonlinear_arith);
    assert(f > 0) by (nonlinear_arith)
        requires
            f * cell >= px,
            px > 0,
            cell > 0,
    ;
}

/// Compute the cell footprint of a pixel extent, as `cells_for` says.
pub fn cells_for_px(px: u32, cell: u16) -> (r: u64)
    requires
        cell > 0,
    ensures
        r == cells_for(px as int, cell as int),
{
    (px as u64 + cell as u64 - 1) / (cell as u64)
}

/// The byte of channel `c` of the pixel at `(x, y)` in a row-major RGBA buffer.
pub open spec fn pixel_byte(pixels: Seq<u8>, width: int, x: int, y: int, c: int) -> u8 {
    pixels[4 * (y * width + x) + c]
}

/// What the image crate's `resize` returns for a bitmap, as raw RGBA bytes.
/// A function of the source pixels and the old and new dimensions alone.
pub uninterp spec fn scaled_of(
    pixels: Seq<u8>,
    width: u32,
    height: u32,
    new_width: u32,
    new_height: u32,
) -> Seq<u8>;

/// What the image crate's `overlay` leaves when `pixels` is drawn over a
/// solid background of the given color at the same dimensions.
pub uninterp spec fn composited_of(
    pixels: Seq<u8>,
    width: u32,
    height: u32,
    red: u8,
    green: u8,
    blue: u8,
    alpha: u8,
) -> Seq<u8>;

/// Relies on image::imageops::resize: scales the bitmap to exactly the
/// requested dimensions; the output is a function of the inputs alone.
#[verifier::external_body]
pub(crate) fn scale_to(img: &Bitmap, new_width: u32, new_height: u32) -> (r: Bitmap)
    requires
        img.wf(),
        new_width > 0,
        new_height > 0,
        4 * new_width * new_height <= usize::MAX,
    ensures
        r.width == new_width,
        r.height == new_height,
        r.wf(),
        r.pixels@ == scaled_of(img.pixels@, img.width, img.height, new_width, new_height),
{
    let buf = image::RgbaImage::from_raw(img.width, img.height, img.pixels.clone()).unwrap();
    let out = image::imageops::resize(&buf, new_width, new_height, image::imageops::FilterType::Nearest);
    Bitmap { width: new_width, height: new_height, pixels: out.into_raw() }
}

/// The bytes of the top-left sub-rectangle of a row-major RGBA buffer:
/// the requested size clipped to what the source has, copied pixel for
/// pixel.
pub open spec fn cropped_of(
    pixels: Seq<u8>,
    width: int,
    height: int,
    req_w: int,
    req_h: int,
) -> Seq<u8> {
    let ow = if req_w <= width {
        req_w
    } else {
        width
    };
    let oh = if req_h <= height {
        req_h
    } else {
        height
    };
    Seq::new(
        (4 * ow * oh) as nat,
        |k: int| pixels[4 * (((k / 4) / ow) * width + (k / 4) % ow) + k % 4],
    )
}

/// `out` is the top-left sub-rectangle of `src`, of the requested size
/// clipped to what `src` has.
pub open spec fn is_crop_of(out: Bitmap, src: Bitmap, new_width: int, new_height: int) -> bool {
    &&& out.width == if new_width <= src.width {
        new_width
    } else {
        src.width as int
    }
    &&& out.height == if new_height <= src.height {
        new_height
    } else {
        src.height as int
    }
    &&& out.wf()
    &&& out.pixels@ == cropped_of(
        src.pixels@,
        src.width as int,
        src.height as int,
        new_width,
        new_height,
    )
    &&& forall|x: int, y: int, c: int|
        0 <= x < out.width && 0 <= y < out.height && 0 <= c < 4 ==> #[trigger] pixel_byte(
            out.pixels@, out.width as int, x, y, c) == pixel_byte(
            src.pixels@, src.width as int, x, y, c)
}

/// Relies on image::imageops::crop_imm: returns the top-left sub-rectangle of
/// the intersection of the requested size with the bitmap.
#[verifier::external_body]
pub(crate) fn crop_to(img: &Bitmap, new_width: u32, new_height: u32) -> (r: Bitmap)
    requires
        img.wf(),
    ensures
        is_crop_of(r, *img, new_width as int, new_height as int),
{
    let buf = image::RgbaImage::from_raw(img.width, img.height, img.pixels.clone()).unwrap();
    let out = image::imageops::crop_imm(&buf, 0, 0, new_width, new_height).to_image();
    Bitmap { width: out.width(), height: out.height(), pixels: out.into_raw() }
}

/// Relies on image::imageops::overlay: composites the bitmap over a solid
/// background of the given color at the same dimensions.
#[verifier::external_body]
pub(crate) fn composite_over(img: &Bitmap, bg: Rgba) -> (r: Bitmap)
    requires
        img.wf(),
    ensures
        r.width == img.width,
        r.height == img.height,
        r.wf(),
        r.pixels@ == composited_of(img.pixels@, img.width, img.height, bg.r, bg.g, bg.b, bg.a),
{
    let top = image::RgbaImage::from_raw(img.width, img.height, img.pixels.clone()).unwrap();
    let base = image::ImageBuffer::from_pixel(img.width, img.height, image::Rgba([bg.r, bg.g, bg.b, bg.a]));
    let mut bottom: image::DynamicImage = base.into();
    image::imageops::overlay(&mut bottom, &image::DynamicImage::ImageRgba8(top), 0, 0);
    Bitmap { width: img.width, height: img.height, pixels: bottom.into_bytes() }
}

} // verus!
