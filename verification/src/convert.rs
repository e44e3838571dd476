//! From the source formats to the canonical layout of four bytes a pixel:
//! blue, green, red, alpha. The colour conversions are `ffimage`'s and the
//! JPEG decoder is `image`'s; what is made of their results is decided
//! here.

use ffimage::color::{Bgra, Rgb};
use ffimage::packed::{ImageBuffer, ImageView};
use ffimage::traits::Convert;
use ffimage_yuv::yuv::Yuv;
use ffimage_yuv::yuyv::Yuyv;
use vstd::prelude::*;
use crate::error::CameraError;

verus! {

/// A colour value cut off at the ends of a byte.
pub open spec fn clamp_channel(value: int) -> u8 {
    if value < 0 {
        0
    } else if value > 255 {
        255
    } else {
        value as u8
    }
}

/// Red of a YUV pixel: studio-range BT.601, in fixed point with eight
/// fractional bits, rounded down after adding a half.
pub open spec fn yuv_red(y: u8, u: u8, v: u8) -> u8 {
    clamp_channel((298 * (y - 16) + 409 * (v - 128) + 128) / 256)
}

/// Green of a YUV pixel.
pub open spec fn yuv_green(y: u8, u: u8, v: u8) -> u8 {
    clamp_channel((298 * (y - 16) - 100 * (u - 128) - 208 * (v - 128) + 128) / 256)
}

/// Blue of a YUV pixel.
pub open spec fn yuv_blue(y: u8, u: u8, v: u8) -> u8 {
    clamp_channel((298 * (y - 16) + 516 * (u - 128) + 128) / 256)
}

/// Bytes in one row of packed 4:2:2 data: four for each pair of pixels. A
/// last pixel without a partner has no data.
pub open spec fn yuyv_row_bytes(width: u32) -> int {
    (width / 2) * 4
}

/// One byte of the 4:4:4 image that packed 4:2:2 rows unfold to. The two
/// pixels of a pair share the pair's chroma; a last pixel without a partner
/// is all zero.
pub open spec fn yuv444_byte(buf: Seq<u8>, width: u32, i: int) -> u8 {
    let pixel = i / 3;
    let channel = i % 3;
    let row = pixel / (width as int);
    let col = pixel % (width as int);
    let pair = row * yuyv_row_bytes(width) + (col / 2) * 4;
    if col / 2 < width / 2 {
        if channel == 0 {
            buf[pair + 2 * (col % 2)]
        } else if channel == 1 {
            buf[pair + 1]
        } else {
            buf[pair + 3]
        }
    } else {
        0
    }
}

/// The 4:4:4 image, three bytes a pixel, that packed 4:2:2 rows unfold to.
pub open spec fn yuv444_of_yuyv(buf: Seq<u8>, width: u32, height: u32) -> Seq<u8> {
    Seq::new((3 * width * height) as nat, |i: int| yuv444_byte(buf, width, i))
}

/// One byte of the RGB image of a 4:4:4 YUV image.
pub open spec fn rgb_byte(buf: Seq<u8>, i: int) -> u8 {
    let at = 3 * (i / 3);
    if i % 3 == 0 {
        yuv_red(buf[at], buf[at + 1], buf[at + 2])
    } else if i % 3 == 1 {
        yuv_green(buf[at], buf[at + 1], buf[at + 2])
    } else {
        yuv_blue(buf[at], buf[at + 1], buf[at + 2])
    }
}

/// The RGB image, three bytes a pixel, of a 4:4:4 YUV image.
pub open spec fn rgb_of_yuv444(buf: Seq<u8>, width: u32, height: u32) -> Seq<u8> {
    Seq::new((3 * width * height) as nat, |i: int| rgb_byte(buf, i))
}

/// One byte of the canonical image of an RGB image: blue, green, red, and
/// an alpha that is fully opaque.
pub open spec fn bgra_byte(buf: Seq<u8>, i: int) -> u8 {
    if i % 4 == 3 {
        255
    } else {
        buf[3 * (i / 4) + 2 - i % 4]
    }
}

/// The canonical image, four bytes a pixel, of an RGB image.
pub open spec fn bgra_of_rgb(buf: Seq<u8>, width: u32, height: u32) -> Seq<u8> {
    Seq::new((4 * width * height) as nat, |i: int| bgra_byte(buf, i))
}

/// Unfolds packed 4:2:2 rows into a 4:4:4 image.
///
/// Calls `ffimage::traits::Convert::convert` from a `Yuyv<u8>` view of `buf`
/// into a zeroed `Yuv<u8>` buffer of the same size. The view is refused,
/// and `None` returned, when `buf` is shorter than one row; otherwise each
/// row is read at its packed offset and every pair of pixels is written
/// with its own luma and the pair's chroma.
#[verifier::external_body]
fn unfold_yuyv(buf: &[u8], width: u32, height: u32) -> (res: Option<Vec<u8>>)
    requires
        3 * width <= u32::MAX,
        3 * width * height <= isize::MAX,
        height * yuyv_row_bytes(width) <= buf@.len(),
    ensures
        res is None <==> buf@.len() < yuyv_row_bytes(width),
        res matches Some(out) ==> out@ == yuv444_of_yuyv(buf@, width, height),
{
    let view = ImageView::<Yuyv<u8>>::from_buf(buf, width, height)?;
    let mut out = ImageBuffer::<Yuv<u8>>::new(width, height, 0u8);
    view.convert(&mut out);
    Some(out.into_buf())
}

/// Turns a 4:4:4 YUV image into an RGB image.
///
/// Calls `ffimage::traits::Convert::convert` from a `Yuv<u8>` view of `buf`
/// into an `Rgb<u8>` buffer of the same size. The view is refused, and
/// `None` returned, when `buf` is shorter than one row; otherwise every
/// pixel is converted by `ffimage_yuv`'s fixed-point matrix.
#[verifier::external_body]
fn yuv444_to_rgb(buf: &[u8], width: u32, height: u32) -> (res: Option<Vec<u8>>)
    requires
        3 * width <= u32::MAX,
        3 * width * height <= buf@.len(),
    ensures
        res is None <==> buf@.len() < 3 * width,
        res matches Some(out) ==> out@ == rgb_of_yuv444(buf@, width, height),
{
    let view = ImageView::<Yuv<u8>>::from_buf(buf, width, height)?;
    let mut out = ImageBuffer::<Rgb<u8>>::new(width, height, 0u8);
    view.convert(&mut out);
    Some(out.into_buf())
}

/// Turns an RGB image into the canonical layout.
///
/// Calls `ffimage::traits::Convert::convert` from an `Rgb<u8>` view of
/// `buf` into a `Bgra<u8>` buffer of the same size. The view is refused,
/// and `None` returned, when `buf` is shorter than one row; otherwise every
/// pixel is written as blue, green, red and the largest alpha.
#[verifier::external_body]
fn rgb_to_bgra(buf: &[u8], width: u32, height: u32) -> (res: Option<Vec<u8>>)
    requires
        4 * width <= u32::MAX,
        4 * width * height <= isize::MAX,
        3 * width * height <= buf@.len(),
    ensures
        res is None <==> buf@.len() < 3 * width,
        res matches Some(out) ==> out@ == bgra_of_rgb(buf@, width, height),
{
    let view = ImageView::<Rgb<u8>>::from_buf(buf, width, height)?;
    let mut out = ImageBuffer::<Bgra<u8>>::new(width, height, 0u8);
    view.convert(&mut out);
    Some(out.into_buf())
}

/// The canonical image of packed 4:2:2 rows: unfolded to 4:4:4, converted
/// to RGB, and laid out as blue, green, red, alpha.
pub open spec fn bgra_of_yuyv(buf: Seq<u8>, width: u32, height: u32) -> Seq<u8> {
    bgra_of_rgb(rgb_of_yuv444(yuv444_of_yuyv(buf, width, height), width, height), width, height)
}

/// Whether `len` bytes of packed 4:2:2 rows hold an image of the given size
/// that can be converted: a canonical row must be countable in 32 bits, the
/// canonical image must be allocatable, and every row must be there.
pub open spec fn yuyv_fits(len: nat, width: u32, height: u32) -> bool {
    &&& 4 * width <= u32::MAX
    &&& 4 * width * height <= isize::MAX
    &&& height * yuyv_row_bytes(width) <= len
}

/// What `yuyv_to_rgb32` returns.
pub open spec fn yuyv_converted(buf: Seq<u8>, width: u32, height: u32) -> Result<
    Seq<u8>,
    CameraError,
> {
    if yuyv_fits(buf.len(), width, height) {
        Ok(bgra_of_yuyv(buf, width, height))
    } else {
        Err(CameraError::MalformedSample)
    }
}

/// The view of a conversion's result.
pub open spec fn seq_result(res: Result<Vec<u8>, CameraError>) -> Result<Seq<u8>, CameraError> {
    match res {
        Ok(out) => Ok(out@),
        Err(e) => Err(e),
    }
}

/// Converts packed 4:2:2 rows (luma, blue chroma, luma, red chroma for each
/// pair of pixels) to the canonical layout. Chroma is not interpolated:
/// both pixels of a pair take the pair's chroma. The matrix is the one for
/// studio-range BT.601 in fixed point, as `yuv_red`, `yuv_green` and
/// `yuv_blue` give it. Bytes after the last row are ignored.
pub fn yuyv_to_rgb32(buf: &[u8], width: u32, height: u32) -> (res: Result<Vec<u8>, CameraError>)
    ensures
        seq_result(res) == yuyv_converted(buf@, width, height),
{
    if width > u32::MAX / 4 {
        return Err(CameraError::MalformedSample);
    }
    let len: usize = buf.len();
    let w: usize = width as usize;
    let h: usize = height as usize;
    let row: usize = (w / 2) * 4;
    let need = match h.checked_mul(row) {
        Some(need) => need,
        None => {
            return Err(CameraError::MalformedSample);
        },
    };
    if need > len {
        return Err(CameraError::MalformedSample);
    }
    let out_len = match canonical_len(width, height) {
        Some(out_len) => out_len,
        None => {
            return Err(CameraError::MalformedSample);
        },
    };
    if out_len > isize::MAX as usize {
        return Err(CameraError::MalformedSample);
    }
    if height == 0 {
        let out: Vec<u8> = Vec::new();
        assert(4 * width * height == 0) by (nonlinear_arith)
            requires
                height == 0,
        ;
        assert(out@ =~= bgra_of_yuyv(buf@, width, height));
        return Ok(out);
    }
    assert(3 * width * height <= 4 * width * height && 3 * width <= 3 * width * height && row
        <= height * row) by (nonlinear_arith)
        requires
            height >= 1,
            row >= 0,
    ;
    let yuv = match unfold_yuyv(buf, width, height) {
        Some(yuv) => yuv,
        None => {
            return Err(CameraError::MalformedSample);
        },
    };
    let rgb = match yuv444_to_rgb(yuv.as_slice(), width, height) {
        Some(rgb) => rgb,
        None => {
            return Err(CameraError::MalformedSample);
        },
    };
    match rgb_to_bgra(rgb.as_slice(), width, height) {
        Some(out) => Ok(out),
        None => Err(CameraError::MalformedSample),
    }
}

/// The luma and chroma of the pixel in column `col` of row `row` of packed
/// 4:2:2 rows; all zero for a last pixel without a partner.
pub open spec fn yuyv_pixel(buf: Seq<u8>, width: u32, col: int, row: int) -> (u8, u8, u8) {
    let pair = row * yuyv_row_bytes(width) + (col / 2) * 4;
    if col / 2 < width / 2 {
        (buf[pair + 2 * (col % 2)], buf[pair + 1], buf[pair + 3])
    } else {
        (0, 0, 0)
    }
}

/// Every pixel of the canonical image of packed 4:2:2 rows is the blue,
/// green and red of the luma and chroma found at its place, and opaque.
pub proof fn lemma_bgra_of_yuyv_pixel(buf: Seq<u8>, width: u32, height: u32, col: int, row: int)
    requires
        0 <= col < width,
        0 <= row < height,
    ensures
        ({
            let out = bgra_of_yuyv(buf, width, height);
            let at = 4 * (row * width + col);
            let (y, u, v) = yuyv_pixel(buf, width, col, row);
            &&& out.len() == 4 * width * height
            &&& 0 <= at && at + 3 < out.len()
            &&& out[at] == yuv_blue(y, u, v)
            &&& out[at + 1] == yuv_green(y, u, v)
            &&& out[at + 2] == yuv_red(y, u, v)
            &&& out[at + 3] == 255
        }),
{
    let pixel = row * width + col;
    assert(0 <= pixel < width * height) by (nonlinear_arith)
        requires
            0 <= col < width,
            0 <= row < height,
            pixel == row * width + col,
    ;
    assert(4 * width * height == 4 * (width * height) && 3 * width * height == 3 * (width
        * height)) by (nonlinear_arith);
    vstd::arithmetic::div_mod::lemma_fundamental_div_mod_converse(pixel, width as int, row, col);
}

/// A decoded picture: its size, and its pixels as red, green, blue and
/// alpha, row after row.
#[derive(Debug)]
pub struct DecodedImage {
    pub width: u32,
    pub height: u32,
    pub rgba: Vec<u8>,
}

/// `image::ImageError`, the error of the decoder. It is carried from the
/// decoder to the place that reports a malformed sample and never looked
/// into.
#[verifier::external_type_specification]
#[verifier::external_body]
pub struct ExImageError(image::ImageError);

/// `image::DynamicImage`, a picture as the decoder hands it out. It is
/// carried from the decoder to `rgba8_of` and never looked into.
#[verifier::external_type_specification]
#[verifier::external_body]
pub struct ExDynamicImage(image::DynamicImage);

/// Decodes one JPEG picture.
///
/// Calls `image::io::Reader::decode` on a reader over `buf` whose format is
/// set to JPEG. Nothing is claimed of the outcome: what a decoder makes of
/// a picture may differ in the last bit from one machine to another.
#[verifier::external_body]
fn decode_jpeg(buf: &[u8]) -> (res: Result<image::DynamicImage, image::ImageError>) {
    let mut reader = image::io::Reader::new(std::io::Cursor::new(buf));
    reader.set_format(image::ImageFormat::Jpeg);
    reader.decode()
}

/// Hands out a decoded picture as plain values.
///
/// Calls `image::DynamicImage::to_rgba8` and takes the size and the bytes
/// of the buffer that it makes. Nothing is claimed of them.
#[verifier::external_body]
fn rgba8_of(picture: &image::DynamicImage) -> (res: DecodedImage) {
    let rgba = picture.to_rgba8();
    DecodedImage { width: rgba.width(), height: rgba.height(), rgba: rgba.into_raw() }
}

/// One byte of the canonical image of an RGBA image: red and blue change
/// places, and alpha is fully opaque whatever it was.
pub open spec fn bgra_of_rgba_byte(rgba: Seq<u8>, i: int) -> u8 {
    if i % 4 == 3 {
        255
    } else {
        rgba[4 * (i / 4) + 2 - i % 4]
    }
}

/// The canonical image of an RGBA image.
pub open spec fn bgra_of_rgba(rgba: Seq<u8>) -> Seq<u8> {
    Seq::new(rgba.len(), |i: int| bgra_of_rgba_byte(rgba, i))
}

/// Bytes of a canonical image of the given size, if that many can be
/// counted.
pub fn canonical_len(width: u32, height: u32) -> (res: Option<usize>)
    ensures
        match res {
            Some(len) => len == 4 * width * height,
            None => 4 * width * height > usize::MAX,
        },
{
    let w: usize = width as usize;
    let h: usize = height as usize;
    assert(4 * width * height == (w * h) * 4 && w * h <= (w * h) * 4) by (nonlinear_arith)
        requires
            w == width,
            h == height,
    ;
    match w.checked_mul(h) {
        Some(pixels) => pixels.checked_mul(4),
        None => None,
    }
}

/// What `repack_rgba` returns: the canonical image of the picture, unless
/// the picture is not of the size that the sample announced.
pub open spec fn repacked(decoded: DecodedImage, width: u32, height: u32) -> Result<
    Seq<u8>,
    CameraError,
> {
    if decoded.width == width && decoded.height == height && decoded.rgba@.len() == 4 * width
        * height {
        Ok(bgra_of_rgba(decoded.rgba@))
    } else {
        Err(CameraError::MalformedSample)
    }
}

/// Lays a decoded picture out in the canonical layout, in place.
pub fn repack_rgba(decoded: DecodedImage, width: u32, height: u32) -> (res: Result<
    Vec<u8>,
    CameraError,
>)
    ensures
        seq_result(res) == repacked(decoded, width, height),
{
    if decoded.width != width || decoded.height != height {
        return Err(CameraError::MalformedSample);
    }
    let ghost rgba = decoded.rgba@;
    let mut data = decoded.rgba;
    let len: usize = data.len();
    let expected = match canonical_len(width, height) {
        Some(expected) => expected,
        None => {
            return Err(CameraError::MalformedSample);
        },
    };
    if expected != len {
        return Err(CameraError::MalformedSample);
    }
    let ghost pixels: int = width * height;
    assert(4 * width * height == 4 * pixels) by (nonlinear_arith)
        requires
            pixels == width * height,
    ;
    let mut at: usize = 0;
    while at < len
        invariant
            len % 4 == 0,
            at % 4 == 0,
            at <= len,
            data@.len() == len,
            rgba.len() == len,
            forall|i: int| 0 <= i < at ==> data@[i] == bgra_of_rgba_byte(rgba, i),
            forall|i: int| at <= i < len ==> data@[i] == rgba[i],
        decreases len - at,
    {
        let red = data[at];
        let blue = data[at + 2];
        data.set(at, blue);
        data.set(at + 2, red);
        data.set(at + 3, 255);
        at += 4;
    }
    assert(data@ =~= bgra_of_rgba(rgba));
    Ok(data)
}

/// Decodes a JPEG picture and lays it out in the canonical layout.
///
/// What the decoder makes of `buf` is not stated here; whatever it is, a
/// picture that comes out has the announced size and is opaque, and a
/// picture that cannot be decoded, or is of another size, is malformed.
/// `repack_rgba` says what is made of each decoded picture.
pub fn mjpg_to_rgb32(buf: &[u8], width: u32, height: u32) -> (res: Result<Vec<u8>, CameraError>)
    ensures
        match res {
            Ok(out) => {
                &&& out@.len() == 4 * width * height
                &&& forall|i: int| 0 <= i < out@.len() && i % 4 == 3 ==> out@[i] == 255
            },
            Err(e) => e == CameraError::MalformedSample,
        },
{
    match decode_jpeg(buf) {
        Ok(picture) => {
            let decoded = rgba8_of(&picture);
            repack_rgba(decoded, width, height)
        },
        Err(_) => Err(CameraError::MalformedSample),
    }
}

/// Where byte `i` of the packed rows lies among the padded ones.
pub open spec fn padded_index(i: int, pitch: int, row_bytes: int) -> int {
    (i / row_bytes) * pitch + i % row_bytes
}

/// The rows of an image without what lies between them: `height` rows of
/// `row_bytes` each, the next one `pitch` bytes after the one before.
pub open spec fn packed_rows(bytes: Seq<u8>, pitch: int, row_bytes: int, height: int) -> Seq<u8> {
    Seq::new((row_bytes * height) as nat, |i: int| bytes[padded_index(i, pitch, row_bytes)])
}

/// Whether `len` bytes hold `height` rows of `row_bytes` each at a distance
/// of `pitch`. The last row needs no padding after it.
pub open spec fn rows_fit(len: nat, pitch: int, row_bytes: int, height: int) -> bool {
    &&& row_bytes <= pitch
    &&& height > 0 ==> (height - 1) * pitch + row_bytes <= len
}

/// What `strip_padding` returns: the packed rows, unless they are not all
/// there.
pub open spec fn stripped(bytes: Seq<u8>, pitch: int, row_bytes: int, height: int) -> Result<
    Seq<u8>,
    CameraError,
> {
    if rows_fit(bytes.len(), pitch, row_bytes, height) {
        Ok(packed_rows(bytes, pitch, row_bytes, height))
    } else {
        Err(CameraError::MalformedSample)
    }
}

/// Strips the padding between rows. Rows that are packed already, with
/// nothing after them, are handed back as they came.
pub fn strip_padding(bytes: Vec<u8>, pitch: usize, row_bytes: usize, height: usize) -> (res: Result<
    Vec<u8>,
    CameraError,
>)
    ensures
        seq_result(res) == stripped(bytes@, pitch as int, row_bytes as int, height as int),
{
    let len: usize = bytes.len();
    if row_bytes > pitch {
        return Err(CameraError::MalformedSample);
    }
    if height > 0 {
        let need = match (height - 1).checked_mul(pitch) {
            Some(before) => before.checked_add(row_bytes),
            None => None,
        };
        match need {
            Some(need) => {
                if need > len {
                    return Err(CameraError::MalformedSample);
                }
            },
            None => {
                return Err(CameraError::MalformedSample);
            },
        }
    }
    if height == 0 || row_bytes == 0 {
        let out: Vec<u8> = Vec::new();
        assert(out@ =~= packed_rows(bytes@, pitch as int, row_bytes as int, height as int));
        return Ok(out);
    }
    assert(row_bytes * height <= (height - 1) * pitch + row_bytes) by (nonlinear_arith)
        requires
            row_bytes <= pitch,
            height > 0,
    ;
    let total: usize = row_bytes * height;
    if pitch == row_bytes && len == total {
        assert forall|i: int| 0 <= i < total implies #[trigger] padded_index(
            i,
            pitch as int,
            row_bytes as int,
        ) == i by {
            vstd::arithmetic::div_mod::lemma_fundamental_div_mod(i, row_bytes as int);
        }
        assert(bytes@ =~= packed_rows(bytes@, pitch as int, row_bytes as int, height as int));
        return Ok(bytes);
    }
    let mut out: Vec<u8> = Vec::with_capacity(total);
    let mut row: usize = 0;
    while row < height
        invariant
            0 < row_bytes <= pitch,
            height > 0,
            (height - 1) * pitch + row_bytes <= bytes@.len(),
            bytes@.len() == len,
            row <= height,
            out@.len() == row * row_bytes,
            forall|i: int|
                0 <= i < out@.len() ==> out@[i] == bytes@[padded_index(
                    i,
                    pitch as int,
                    row_bytes as int,
                )],
        decreases height - row,
    {
        assert(row * pitch + row_bytes <= (height - 1) * pitch + row_bytes) by (nonlinear_arith)
            requires
                row < height,
                pitch >= 0,
        ;
        let start: usize = row * pitch;
        let ghost before = out@;
        let row_slice = vstd::slice::slice_subrange(bytes.as_slice(), start, start + row_bytes);
        out.extend_from_slice(row_slice);
        assert forall|i: int| 0 <= i < out@.len() implies out@[i] == bytes@[padded_index(
            i,
            pitch as int,
            row_bytes as int,
        )] by {
            if i >= before.len() {
                let col = i - before.len();
                vstd::arithmetic::div_mod::lemma_fundamental_div_mod_converse(
                    i,
                    row_bytes as int,
                    row as int,
                    col,
                );
            }
        }
        assert((row + 1) * row_bytes == row * row_bytes + row_bytes) by (nonlinear_arith);
        row += 1;
    }
    assert(out@.len() == row_bytes * height) by (nonlinear_arith)
        requires
            out@.len() == row * row_bytes,
            row == height,
    ;
    assert(out@ =~= packed_rows(bytes@, pitch as int, row_bytes as int, height as int));
    Ok(out)
}

/// Whether `len` bytes of packed RGB rows hold an image of the given size
/// that can be converted.
pub open spec fn rgb_fits(len: nat, width: u32, height: u32) -> bool {
    &&& 4 * width <= u32::MAX
    &&& 4 * width * height <= isize::MAX
    &&& 3 * width * height <= len
}

/// What `rgb24_to_rgb32` returns.
pub open spec fn rgb_converted(buf: Seq<u8>, width: u32, height: u32) -> Result<
    Seq<u8>,
    CameraError,
> {
    if rgb_fits(buf.len(), width, height) {
        Ok(bgra_of_rgb(buf, width, height))
    } else {
        Err(CameraError::MalformedSample)
    }
}

/// Converts packed rows of red, green, blue to the canonical layout. Bytes
/// after the last row are ignored.
pub fn rgb24_to_rgb32(buf: &[u8], width: u32, height: u32) -> (res: Result<Vec<u8>, CameraError>)
    ensures
        seq_result(res) == rgb_converted(buf@, width, height),
{
    if width > u32::MAX / 4 {
        return Err(CameraError::MalformedSample);
    }
    let len: usize = buf.len();
    let out_len = match canonical_len(width, height) {
        Some(out_len) => out_len,
        None => {
            return Err(CameraError::MalformedSample);
        },
    };
    if out_len > isize::MAX as usize {
        return Err(CameraError::MalformedSample);
    }
    let ghost pixels: int = width * height;
    assert(4 * width * height == 4 * pixels && 3 * width * height == 3 * pixels)
        by (nonlinear_arith)
        requires
            pixels == width * height,
    ;
    if out_len / 4 * 3 > len {
        return Err(CameraError::MalformedSample);
    }
    if height == 0 {
        let out: Vec<u8> = Vec::new();
        assert(out@ =~= bgra_of_rgb(buf@, width, height));
        return Ok(out);
    }
    assert(3 * width <= 3 * width * height) by (nonlinear_arith)
        requires
            height >= 1,
    ;
    match rgb_to_bgra(buf, width, height) {
        Some(out) => Ok(out),
        None => Err(CameraError::MalformedSample),
    }
}

/// A solid colour stays solid. Where every pair of packed 4:2:2 rows of
/// even width holds the same luma and chroma, every pixel of the canonical
/// image is the blue, green and red of that luma and chroma, and opaque.
pub proof fn lemma_solid_colour_stays_solid(
    buf: Seq<u8>,
    width: u32,
    height: u32,
    y: u8,
    u: u8,
    v: u8,
    col: int,
    row: int,
)
    requires
        width % 2 == 0,
        forall|i: int|
            0 <= i < height * yuyv_row_bytes(width) ==> #[trigger] buf[i] == (if i % 4 == 1 {
                u
            } else if i % 4 == 3 {
                v
            } else {
                y
            }),
        0 <= col < width,
        0 <= row < height,
    ensures
        ({
            let out = bgra_of_yuyv(buf, width, height);
            let at = 4 * (row * width + col);
            &&& 0 <= at && at + 3 < out.len()
            &&& out[at] == yuv_blue(y, u, v)
            &&& out[at + 1] == yuv_green(y, u, v)
            &&& out[at + 2] == yuv_red(y, u, v)
            &&& out[at + 3] == 255
        }),
{
    lemma_bgra_of_yuyv_pixel(buf, width, height, col, row);
    let pairs: int = width as int / 2;
    let pair = row * yuyv_row_bytes(width) + (col / 2) * 4;
    assert(pair == 4 * (row * pairs + col / 2) && 0 <= row * pairs + col / 2 < height * pairs
        && height * yuyv_row_bytes(width) == 4 * (height * pairs)) by (nonlinear_arith)
        requires
            pair == row * (pairs * 4) + (col / 2) * 4,
            yuyv_row_bytes(width) == pairs * 4,
            0 <= col / 2 < pairs,
            0 <= row < height,
    ;
}

} // verus!
