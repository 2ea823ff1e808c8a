//! Decoded textures: a width, a height and the red, green and blue bytes of
//! each texel, row by row.

use crate::image::Rgb;
use vstd::prelude::*;

verus! {

/// A decoded texture. Texel `(x, y)` occupies the three bytes that start at
/// `(y * w + x) * 3`.
#[derive(Clone, Debug)]
pub struct Tex {
    pub w: usize,
    pub h: usize,
    pub data: Vec<u8>,
}

/// Whether `len` bytes are exactly the texels of a `w` by `h` texture that is
/// not empty.
pub open spec fn rgb8_len_ok(w: int, h: int, len: int) -> bool {
    w > 0 && h > 0 && len == w * h * 3
}

impl Tex {
    /// The texture is not empty and holds three bytes for each texel.
    pub open spec fn wf(&self) -> bool {
        rgb8_len_ok(self.w as int, self.h as int, self.data@.len() as int)
    }

    /// Texel `(x, y)`: the three bytes stored for it.
    pub open spec fn texel_at(&self, x: int, y: int) -> Rgb {
        Rgb {
            r: self.data@[(y * self.w + x) * 3],
            g: self.data@[(y * self.w + x) * 3 + 1],
            b: self.data@[(y * self.w + x) * 3 + 2],
        }
    }

    /// A texture from decoded bytes, or `None` where a side is zero or the
    /// bytes are not three for each texel.
    pub fn from_rgb8(w: u32, h: u32, data: Vec<u8>) -> (t: Option<Tex>)
        ensures
            t.is_some() <==> rgb8_len_ok(w as int, h as int, data@.len() as int),
            t matches Some(tex) ==> tex.wf() && tex.w == w && tex.h == h && tex.data@ == data@,
    {
        if w == 0 || h == 0 {
            return None;
        }
        let n: u64 = data.len() as u64;
        let w64: u64 = w as u64;
        let h64: u64 = h as u64;
        assert(w64 * h64 <= 0xffff_ffff * 0xffff_ffff) by (nonlinear_arith)
            requires
                w64 <= 0xffff_ffff,
                h64 <= 0xffff_ffff,
        ;
        let texels: u64 = w64 * h64;
        if n % 3 != 0 || n / 3 != texels {
            return None;
        }
        Some(Tex { w: w as usize, h: h as usize, data })
    }

    /// Texel `(x, y)`.
    pub fn texel(&self, x: usize, y: usize) -> (c: Rgb)
        requires
            self.wf(),
            x < self.w,
            y < self.h,
        ensures
            c == self.texel_at(x as int, y as int),
    {
        let n: usize = self.data.len();
        proof {
            crate::image::lemma_pixel_index(x as int, y as int, self.w as int, self.h as int);
        }
        assert((y * self.w + x) * 3 + 2 < n) by (nonlinear_arith)
            requires
                0 <= y * self.w + x < self.w * self.h,
                n == self.w * self.h * 3,
        ;
        let idx: usize = (y * self.w + x) * 3;
        Rgb { r: self.data[idx], g: self.data[idx + 1], b: self.data[idx + 2] }
    }
}

/// The texture cached for material `mat_id`, if the cache reaches that far and
/// holds one there.
pub fn tex_for_mat(mat_id: usize, cache: &[Option<Tex>]) -> (t: Option<&Tex>)
    ensures
        t.is_some() <==> (mat_id < cache@.len() && cache@[mat_id as int].is_some()),
        t matches Some(tex) ==> cache@[mat_id as int] == Some(*tex),
{
    if mat_id < cache.len() {
        cache[mat_id].as_ref()
    } else {
        None
    }
}

/// Decodes an image file held in memory to eight-bit red, green and blue.
///
/// The body asks `image::ImageFormat::from_path` for the format that the
/// extension of `path` names, hands the bytes to
/// `image::load_from_memory_with_format`, and converts what comes back with
/// `DynamicImage::to_rgb8`, `dimensions` and `into_raw`. Nothing is claimed
/// of the result: the decoders may take different routes on different
/// processors, so not even that equal bytes decode equally is stated here.
#[verifier::external_body]
fn decode_rgb8(path: &str, bytes: &[u8]) -> (out: Option<(u32, u32, Vec<u8>)>) {
    let format = image::ImageFormat::from_path(path).ok()?;
    let rgb = image::load_from_memory_with_format(bytes, format).ok()?.to_rgb8();
    let (w, h) = rgb.dimensions();
    Some((w, h, rgb.into_raw()))
}

/// The texture that the bytes of the file at `path` hold, or `None` where they
/// cannot be decoded in the format that the extension of `path` names, or
/// decode to an image that is empty or not three bytes a texel. Whatever is
/// returned is sound.
pub fn load_tex(path: &str, bytes: &[u8]) -> (t: Option<Tex>)
    ensures
        t matches Some(tex) ==> tex.wf(),
{
    match decode_rgb8(path, bytes) {
        Some((w, h, data)) => Tex::from_rgb8(w, h, data),
        None => None,
    }
}

} // verus!
