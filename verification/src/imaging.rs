//! Image work on encoded bytes: the PNG previews shown on the cards, and the
//! conversions between the clipboard's raw RGBA pixels and the PNG a clip
//! keeps. Images travel between the steps as plain width, height and RGBA
//! bytes; the codecs are the `image` and `base64` crates'.

use vstd::prelude::*;
use vstd::string::StringExecFns;
use base64::Engine;
use image::ImageEncoder;
use crate::history::PREVIEW_MAX_SIDE;

verus! {

/// The RGBA pixels (width, height, four bytes per pixel row by row) that the
/// `image` crate's PNG decoder gives for `png`, or `None` when it rejects
/// the bytes.
pub uninterp spec fn png_rgba(png: Seq<u8>) -> Option<(u32, u32, Seq<u8>)>;

/// The pixels the `image` crate's `DynamicImage::thumbnail` makes of
/// `width` x `height` RGBA pixels, fitted into a `max_side` x `max_side` box
/// with the aspect ratio kept.
pub uninterp spec fn thumbnail_pixels(width: u32, height: u32, rgba: Seq<u8>, max_side: u32) -> (
    u32,
    u32,
    Seq<u8>,
);

/// The PNG that the `image` crate's PNG encoder, at its default compression
/// and filter, writes for `width` x `height` RGBA pixels given row by row;
/// `None` when it refuses them.
pub uninterp spec fn png_encoding(width: u32, height: u32, rgba: Seq<u8>) -> Option<Seq<u8>>;

/// Decodes a PNG into RGBA pixels. Calls
/// `image::load_from_memory_with_format` with `ImageFormat::Png` (a
/// built-in format, so no decoding hook takes part) and converts the image
/// with `DynamicImage::to_rgba8`, whose buffer holds exactly four bytes per
/// pixel. Claims that the pixels, or the rejection, are the ones `png_rgba`
/// names; the decoder's error becomes its text.
#[verifier::external_body]
fn decode_png_rgba(png: &[u8]) -> (r: Result<(u32, u32, Vec<u8>), String>)
    ensures
        match r {
            Ok(px) => png_rgba(png@) == Some((px.0, px.1, px.2@)) && px.2@.len() == 4 * px.0 * px.1,
            Err(_) => png_rgba(png@) is None,
        },
{
    match image::load_from_memory_with_format(png, image::ImageFormat::Png) {
        Ok(img) => {
            let buf = img.to_rgba8();
            let (width, height) = buf.dimensions();
            Ok((width, height, buf.into_raw()))
        },
        Err(e) => Err(e.to_string()),
    }
}

/// The most source pixels one thumbnail pixel may average: the crate adds
/// the 8-bit channel values of a block, and half the block's size, in a
/// `u32`, which holds 256 times this many.
pub const THUMBNAIL_MAX_BLOCK: u64 = 0xff_ffff;

/// A bound on the side of the block of source pixels that the thumbnail
/// averages into one pixel, along a side of `side` pixels of an image whose
/// longer side is `longest`, fitted into a box of `max_side`: the side
/// itself, or one and a half times the scale factor with room for the
/// crate's `f32` rounding (a few pixels, and one more per 2^22 pixels of
/// side), whichever is less.
pub open spec fn thumbnail_block_side(side: int, longest: int, max_side: int) -> int {
    let bound = (3 * longest) / (2 * max_side) + 8 + side / 0x40_0000;
    if side < bound {
        side
    } else {
        bound
    }
}

/// Whether fitting `width` x `height` pixels into a `max_side` box keeps
/// every averaged block within `THUMBNAIL_MAX_BLOCK` pixels, so that the
/// crate's sums cannot overflow.
pub open spec fn thumbnail_fits(width: u32, height: u32, max_side: u32) -> bool {
    let longest: int = if width < height {
        height as int
    } else {
        width as int
    };
    thumbnail_block_side(width as int, longest, max_side as int) * thumbnail_block_side(
        height as int,
        longest,
        max_side as int,
    ) <= THUMBNAIL_MAX_BLOCK
}

/// Tests `thumbnail_fits`.
pub fn thumbnail_fits_exec(width: u32, height: u32, max_side: u32) -> (r: bool)
    requires
        1 <= max_side,
    ensures
        r == thumbnail_fits(width, height, max_side),
{
    let longest: u64 = if width < height {
        height as u64
    } else {
        width as u64
    };
    let m: u64 = max_side as u64;
    let scale: u64 = (3 * longest) / (2 * m);
    let bw_bound: u64 = scale + 8 + (width as u64) / 0x40_0000;
    let bh_bound: u64 = scale + 8 + (height as u64) / 0x40_0000;
    let bw: u64 = if (width as u64) < bw_bound {
        width as u64
    } else {
        bw_bound
    };
    let bh: u64 = if (height as u64) < bh_bound {
        height as u64
    } else {
        bh_bound
    };
    assert(bw <= 0xffff_ffff && bh <= 0xffff_ffff);
    assert(bw * bh <= 0xffff_ffff * 0xffff_ffff) by (nonlinear_arith)
        requires
            bw <= 0xffff_ffff,
            bh <= 0xffff_ffff,
    ;
    let area: u128 = (bw as u128) * (bh as u128);
    area <= THUMBNAIL_MAX_BLOCK as u128
}

/// Fits RGBA pixels into a `max_side` x `max_side` box, keeping the aspect
/// ratio. Calls `DynamicImage::thumbnail` on the pixels as an RGBA image
/// (`ImageBuffer::from_raw` accepts a buffer of exactly four bytes per pixel)
/// and takes the result's pixels with `to_rgba8`. Claims that they are the
/// ones `thumbnail_pixels` names, four bytes per pixel, and, as
/// `resize_dimensions` computes them, at least 1 and at most the box on each
/// side. The crate sums each averaged block in a `u32` and would overflow on
/// a block that `thumbnail_fits` does not bound, so such sizes are left out;
/// the box is kept to the preview's, so the output buffer stays small.
#[verifier::external_body]
fn thumbnail_rgba(width: u32, height: u32, rgba: Vec<u8>, max_side: u32) -> (r: (u32, u32, Vec<u8>))
    requires
        rgba@.len() == 4 * width * height,
        1 <= max_side <= PREVIEW_MAX_SIDE,
        thumbnail_fits(width, height, max_side),
    ensures
        (r.0, r.1, r.2@) == thumbnail_pixels(width, height, rgba@, max_side),
        r.2@.len() == 4 * r.0 * r.1,
        1 <= r.0 <= max_side,
        1 <= r.1 <= max_side,
{
    let buf = image::RgbaImage::from_raw(width, height, rgba).unwrap();
    let small = image::DynamicImage::ImageRgba8(buf).thumbnail(max_side, max_side).to_rgba8();
    let (w, h) = small.dimensions();
    (w, h, small.into_raw())
}

/// Encodes raw RGBA pixels as PNG. Calls `ImageEncoder::write_image` of
/// `image::codecs::png::PngEncoder` with `ExtendedColorType::Rgba8`, writing
/// into a `Vec`; claims that the bytes, or the refusal, are the ones
/// `png_encoding` names. The encoder panics unless the buffer holds exactly
/// four bytes per pixel, so other buffers are left out.
#[verifier::external_body]
fn encode_rgba_png(width: u32, height: u32, rgba: &[u8]) -> (r: Option<Vec<u8>>)
    requires
        rgba@.len() == 4 * width * height,
    ensures
        match r {
            Some(bytes) => png_encoding(width, height, rgba@) == Some(bytes@),
            None => png_encoding(width, height, rgba@) is None,
        },
{
    let mut out: Vec<u8> = Vec::new();
    match image::codecs::png::PngEncoder::new(&mut out).write_image(
        rgba,
        width,
        height,
        image::ExtendedColorType::Rgba8,
    ) {
        Ok(()) => Some(out),
        Err(_) => None,
    }
}

/// The character of the standard base64 alphabet for a six-bit value.
pub open spec fn base64_digit(v: int) -> char {
    if v < 26 {
        ((65 + v) as u32) as char
    } else if v < 52 {
        ((97 + v - 26) as u32) as char
    } else if v < 62 {
        ((48 + v - 52) as u32) as char
    } else if v == 62 {
        '+'
    } else {
        '/'
    }
}

/// The standard, padded base64 encoding of `b`: every three bytes become
/// four characters; a last group of one or two bytes is padded with `=`.
pub open spec fn base64_standard(b: Seq<u8>) -> Seq<char>
    decreases b.len(),
{
    if b.len() == 0 {
        seq![]
    } else {
        let x = b[0] as int;
        if b.len() == 1 {
            seq![base64_digit(x / 4), base64_digit((x % 4) * 16), '=', '=']
        } else {
            let y = b[1] as int;
            if b.len() == 2 {
                seq![base64_digit(x / 4), base64_digit((x % 4) * 16 + y / 16), base64_digit((y % 16) * 4), '=']
            } else {
                let z = b[2] as int;
                seq![
                    base64_digit(x / 4),
                    base64_digit((x % 4) * 16 + y / 16),
                    base64_digit((y % 16) * 4 + z / 64),
                    base64_digit(z % 64),
                ] + base64_standard(b.skip(3))
            }
        }
    }
}

/// The longest input whose padded base64 length still fits in a `usize`.
pub const BASE64_MAX_INPUT: usize = 3 * (usize::MAX / 4);

/// Standard, padded base64. Calls `Engine::encode` on
/// `base64::engine::general_purpose::STANDARD`; claims the standard padded
/// encoding. The crate panics when the encoded length overflows a `usize`,
/// so such inputs are left out.
#[verifier::external_body]
fn base64_encode(bytes: &[u8]) -> (r: String)
    requires
        bytes@.len() <= BASE64_MAX_INPUT,
    ensures
        r@ == base64_standard(bytes@),
{
    base64::engine::general_purpose::STANDARD.encode(bytes)
}

/// The text every preview image starts with.
pub const PNG_DATA_URL_PREFIX: &'static str = "data:image/png;base64,";

/// The data-URL of the PNG `png`.
pub open spec fn spec_png_data_url(png: Seq<u8>) -> Seq<char> {
    PNG_DATA_URL_PREFIX@ + base64_standard(png)
}

/// The data-URL that shows the PNG `png`: the prefix, then the PNG in
/// base64. Empty for a buffer too large for its base64 length to fit in a
/// `usize`, which no buffer in memory is.
pub fn png_data_url(png: &[u8]) -> (url: String)
    ensures
        png@.len() <= BASE64_MAX_INPUT ==> url@ == spec_png_data_url(png@),
        png@.len() > BASE64_MAX_INPUT ==> url@.len() == 0,
{
    if png.len() > BASE64_MAX_INPUT {
        return String::new();
    }
    let text = base64_encode(png);
    String::from_str(PNG_DATA_URL_PREFIX).concat(text.as_str())
}

/// The pixels of the preview of `png`: its decoded pixels fitted into the
/// `PREVIEW_MAX_SIDE` box; `None` when it does not decode, or when it is so
/// large and thin that the thumbnail's averaging could overflow.
pub open spec fn preview_pixels(png: Seq<u8>) -> Option<(u32, u32, Seq<u8>)> {
    match png_rgba(png) {
        Some(px) => if thumbnail_fits(px.0, px.1, PREVIEW_MAX_SIDE) {
            Some(thumbnail_pixels(px.0, px.1, px.2, PREVIEW_MAX_SIDE))
        } else {
            None
        },
        None => None,
    }
}

/// The PNG of the preview of `png`.
pub open spec fn preview_png(png: Seq<u8>) -> Option<Seq<u8>> {
    match preview_pixels(png) {
        Some(t) => png_encoding(t.0, t.1, t.2),
        None => None,
    }
}

/// The preview data-URL of `png`: the data-URL of its preview PNG, or empty
/// when there is no preview or it does not encode.
pub open spec fn spec_preview_url(png: Seq<u8>) -> Seq<char> {
    match preview_png(png) {
        Some(b) => if b.len() <= BASE64_MAX_INPUT {
            spec_png_data_url(b)
        } else {
            Seq::empty()
        },
        None => Seq::empty(),
    }
}

/// Downscales to `PREVIEW_MAX_SIDE` and re-encodes as a PNG data-URL. On any
/// decode or encode failure the card renders without an image.
pub fn preview_data_url(png: &[u8]) -> (url: String)
    ensures
        url@ == spec_preview_url(png@),
        preview_pixels(png@) matches Some(t) ==> 1 <= t.0 <= PREVIEW_MAX_SIDE && 1 <= t.1
            <= PREVIEW_MAX_SIDE,
{
    let (width, height, rgba) = match decode_png_rgba(png) {
        Ok(px) => px,
        Err(_) => return String::new(),
    };
    if !thumbnail_fits_exec(width, height, PREVIEW_MAX_SIDE) {
        return String::new();
    }
    let (tw, th, small) = thumbnail_rgba(width, height, rgba, PREVIEW_MAX_SIDE);
    let encoded = match encode_rgba_png(tw, th, small.as_slice()) {
        Some(bytes) => bytes,
        None => return String::new(),
    };
    png_data_url(encoded.as_slice())
}

/// Raw RGBA pixels, as the clipboard hands them out, encoded as PNG: `None`
/// when the buffer is too short for the size, otherwise the encoder's PNG, or
/// `None` when the encoder refuses the pixels. A buffer longer than the size
/// makes the encoder panic and is left out.
pub fn png_from_rgba(width: u32, height: u32, rgba: Vec<u8>) -> (png: Option<Vec<u8>>)
    requires
        rgba@.len() <= 4 * width * height,
    ensures
        rgba@.len() < 4 * width * height ==> png is None,
        rgba@.len() == 4 * width * height ==> match png {
            Some(bytes) => png_encoding(width, height, rgba@) == Some(bytes@),
            None => png_encoding(width, height, rgba@) is None,
        },
{
    assert(4 * width * height <= 4 * u32::MAX * u32::MAX) by (nonlinear_arith);
    let needed: u128 = 4u128 * (width as u128) * (height as u128);
    if (rgba.len() as u128) < needed {
        None
    } else {
        encode_rgba_png(width, height, rgba.as_slice())
    }
}

/// A PNG decoded into RGBA pixels, as the clipboard takes them: the
/// decoder's width, height and pixels, four bytes per pixel; the decoder's
/// message when it rejects the bytes.
pub fn rgba_from_png(png: &[u8]) -> (r: Result<(u32, u32, Vec<u8>), String>)
    ensures
        match r {
            Ok(px) => png_rgba(png@) == Some((px.0, px.1, px.2@)) && px.2@.len() == 4 * px.0 * px.1,
            Err(_) => png_rgba(png@) is None,
        },
{
    decode_png_rgba(png)
}

} // verus!
