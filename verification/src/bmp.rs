//! Encoding of an 8-bit RGB image as an uncompressed 24-bit bitmap file:
//! a 54-byte header, then the rows from the bottom up, each pixel as blue,
//! green, red, each row padded with zeros to a multiple of four bytes.

use crate::image::{Image, Rgb};
use vstd::prelude::*;

verus! {

/// Length of the file header and the bitmap header together.
pub const BMP_HEADER_LEN: usize = 54;

/// Bytes in one stored row of `w` pixels: three a pixel, rounded up to a
/// multiple of four.
pub open spec fn row_stride(w: int) -> int {
    ((w * 3 + 3) / 4) * 4
}

/// Bytes of pixel data for a `w` by `h` image.
pub open spec fn pixel_data_len(w: int, h: int) -> int {
    row_stride(w) * h
}

/// Length of the whole file for a `w` by `h` image.
pub open spec fn bmp_len(w: int, h: int) -> int {
    BMP_HEADER_LEN as int + pixel_data_len(w, h)
}

/// Whether the header can describe a `w` by `h` image: both sides fit a signed
/// 32-bit field and the file length fits an unsigned one.
pub open spec fn bmp_fits(w: int, h: int) -> bool {
    &&& 0 <= w <= 0x7fff_ffff
    &&& 0 <= h <= 0x7fff_ffff
    &&& bmp_len(w, h) <= 0xffff_ffff
}

/// The two bytes of `v`, low byte first.
pub open spec fn le16(v: int) -> Seq<u8> {
    seq![(v % 256) as u8, (v / 256 % 256) as u8]
}

/// The four bytes of `v`, low byte first.
pub open spec fn le32(v: int) -> Seq<u8> {
    seq![
        (v % 256) as u8,
        (v / 256 % 256) as u8,
        (v / 65536 % 256) as u8,
        (v / 16777216 % 256) as u8,
    ]
}

/// The 54 header bytes for a `w` by `h` image.
pub open spec fn bmp_header(w: int, h: int) -> Seq<u8> {
    seq![0x42u8, 0x4du8] + le32(bmp_len(w, h)) + le16(0) + le16(0) + le32(54) + le32(40) + le32(w)
        + le32(h) + le16(1) + le16(24) + le32(0) + le32(pixel_data_len(w, h)) + le32(2835) + le32(
        2835,
    ) + le32(0) + le32(0)
}

/// Byte `j` of a stored pixel: blue, green, red.
pub open spec fn channel(p: Rgb, j: int) -> u8 {
    if j == 0 {
        p.b
    } else if j == 1 {
        p.g
    } else {
        p.r
    }
}

/// The stored bytes of image row `sy`: its pixels from the left, then zeros up
/// to the row stride.
pub open spec fn bmp_row(pixels: Seq<Rgb>, w: int, sy: int) -> Seq<u8> {
    Seq::new(
        row_stride(w) as nat,
        |j: int|
            if j < 3 * w {
                channel(pixels[sy * w + j / 3], j % 3)
            } else {
                0u8
            },
    )
}

/// The first `n` stored rows of a `w` by `h` image: the bottom row comes first.
pub open spec fn bmp_rows(pixels: Seq<Rgb>, w: int, h: int, n: nat) -> Seq<u8>
    decreases n,
{
    if n == 0 {
        Seq::empty()
    } else {
        bmp_rows(pixels, w, h, (n - 1) as nat) + bmp_row(pixels, w, h - n)
    }
}

/// The whole file for the pixels of a `w` by `h` image given row by row from
/// the top.
pub open spec fn bmp_bytes(pixels: Seq<Rgb>, w: int, h: int) -> Seq<u8> {
    bmp_header(w, h) + bmp_rows(pixels, w, h, h as nat)
}

fn push_le16(out: &mut Vec<u8>, v: u16)
    ensures
        final(out)@ == old(out)@ + le16(v as int),
{
    out.push((v % 256) as u8);
    out.push((v / 256 % 256) as u8);
    proof {
        assert(out@ =~= old(out)@ + le16(v as int));
    }
}

fn push_le32(out: &mut Vec<u8>, v: u32)
    ensures
        final(out)@ == old(out)@ + le32(v as int),
{
    out.push((v % 256) as u8);
    out.push((v / 256 % 256) as u8);
    out.push((v / 65536 % 256) as u8);
    out.push((v / 16777216 % 256) as u8);
    proof {
        assert(out@ =~= old(out)@ + le32(v as int));
    }
}

/// The 54 header bytes for a `w` by `h` image with `data_len` bytes of pixel
/// data.
fn header_bytes(w: u32, h: u32, data_len: u32) -> (out: Vec<u8>)
    requires
        data_len == pixel_data_len(w as int, h as int),
        bmp_len(w as int, h as int) <= 0xffff_ffff,
    ensures
        out@ == bmp_header(w as int, h as int),
        out@.len() == BMP_HEADER_LEN,
{
    let mut out: Vec<u8> = Vec::new();
    out.push(0x42u8);
    out.push(0x4du8);
    assert(out@ =~= seq![0x42u8, 0x4du8]);
    push_le32(&mut out, 54 + data_len);
    push_le16(&mut out, 0);
    push_le16(&mut out, 0);
    push_le32(&mut out, 54);
    push_le32(&mut out, 40);
    push_le32(&mut out, w);
    push_le32(&mut out, h);
    push_le16(&mut out, 1);
    push_le16(&mut out, 24);
    push_le32(&mut out, 0);
    push_le32(&mut out, data_len);
    push_le32(&mut out, 2835);
    push_le32(&mut out, 2835);
    push_le32(&mut out, 0);
    push_le32(&mut out, 0);
    out
}

/// Appends the stored bytes of image row `sy`.
fn push_row(out: &mut Vec<u8>, img: &Image<Rgb>, sy: usize)
    requires
        img.wf(),
        sy < img.h,
        bmp_fits(img.w as int, img.h as int),
    ensures
        final(out)@ == old(out)@ + bmp_row(img.data@, img.w as int, sy as int),
{
    let w: usize = img.w;
    let n: usize = img.data.len();
    let ghost start = out@;
    let ghost row = bmp_row(img.data@, w as int, sy as int);
    proof {
        lemma_stride_bounds(w as int);
        lemma_data_fits(w as int, img.h as int);
    }
    let stride: usize = (w * 3 + 3) / 4 * 4;
    let mut x: usize = 0;
    while x < w
        invariant
            img.wf(),
            w == img.w,
            n == img.data@.len(),
            sy < img.h,
            x <= w,
            3 * w <= stride,
            stride == row_stride(w as int),
            row == bmp_row(img.data@, w as int, sy as int),
            out@ == start + row.subrange(0, 3 * x),
        decreases w - x,
    {
        proof {
            crate::image::lemma_pixel_index(x as int, sy as int, w as int, img.h as int);
        }
        assert(sy * w + x < n);
        let p: Rgb = img.data[sy * w + x];
        out.push(p.b);
        out.push(p.g);
        out.push(p.r);
        proof {
            assert(out@ =~= start + row.subrange(0, 3 * (x + 1)));
        }
        x += 1;
    }
    let mut j: usize = 3 * w;
    while j < stride
        invariant
            3 * w <= j <= stride,
            stride == row_stride(w as int),
            row == bmp_row(img.data@, w as int, sy as int),
            out@ == start + row.subrange(0, j as int),
        decreases stride - j,
    {
        out.push(0u8);
        proof {
            assert(out@ =~= start + row.subrange(0, j + 1));
        }
        j += 1;
    }
    proof {
        assert(row.subrange(0, stride as int) =~= row);
    }
}

/// A row is at least as long as its pixels and less than four bytes longer.
pub proof fn lemma_stride_bounds(w: int)
    requires
        0 <= w,
    ensures
        3 * w <= row_stride(w) < 3 * w + 4,
        row_stride(w) % 4 == 0,
{
}

/// Where the file fits its header fields, so do its parts.
proof fn lemma_data_fits(w: int, h: int)
    requires
        bmp_fits(w, h),
    ensures
        h > 0 ==> row_stride(w) <= pixel_data_len(w, h),
        0 <= pixel_data_len(w, h) <= 0xffff_ffff - 54,
        h > 0 ==> 3 * w + 3 <= 0xffff_ffff,
{
    lemma_stride_bounds(w);
    assert(h > 0 ==> row_stride(w) * h >= row_stride(w)) by (nonlinear_arith)
        requires
            row_stride(w) >= 0,
    ;
    assert(row_stride(w) * h >= 0) by (nonlinear_arith)
        requires
            row_stride(w) >= 0,
            h >= 0,
    ;
}

/// The bitmap file for `img`, or `None` where the image is too large for the
/// header's fields.
pub fn encode_bmp24(img: &Image<Rgb>) -> (out: Option<Vec<u8>>)
    requires
        img.wf(),
    ensures
        out.is_some() <==> bmp_fits(img.w as int, img.h as int),
        out matches Some(bytes) ==> bytes@ == bmp_bytes(img.data@, img.w as int, img.h as int),
{
    let w: usize = img.w;
    let h: usize = img.h;
    if w > 0x7fff_ffff || h > 0x7fff_ffff {
        return None;
    }
    let w64: u64 = w as u64;
    let h64: u64 = h as u64;
    let stride64: u64 = (w64 * 3 + 3) / 4 * 4;
    assert(stride64 * h64 <= 0x1_8000_0000 * 0x7fff_ffff) by (nonlinear_arith)
        requires
            stride64 <= 0x1_8000_0000,
            h64 <= 0x7fff_ffff,
    ;
    let data64: u64 = stride64 * h64;
    if data64 > 0xffff_ffff - 54 {
        return None;
    }
    let mut out: Vec<u8> = header_bytes(w as u32, h as u32, data64 as u32);
    let mut y: usize = 0;
    while y < h
        invariant
            img.wf(),
            w == img.w,
            h == img.h,
            y <= h,
            bmp_fits(w as int, h as int),
            out@ == bmp_header(w as int, h as int) + bmp_rows(
                img.data@,
                w as int,
                h as int,
                y as nat,
            ),
        decreases h - y,
    {
        let sy: usize = h - 1 - y;
        let ghost before = out@;
        push_row(&mut out, img, sy);
        proof {
            assert(bmp_rows(img.data@, w as int, h as int, (y + 1) as nat) == bmp_rows(
                img.data@,
                w as int,
                h as int,
                y as nat,
            ) + bmp_row(img.data@, w as int, h - (y + 1)));
            assert(out@ =~= bmp_header(w as int, h as int) + bmp_rows(
                img.data@,
                w as int,
                h as int,
                (y + 1) as nat,
            ));
        }
        y += 1;
    }
    Some(out)
}

} // verus!
