//! Samples as devices deliver them, and the normalizer that makes frames
//! of them.

use vstd::prelude::*;
use crate::convert::{
    bgra_of_rgb,
    bgra_of_yuyv,
    canonical_len,
    mjpg_to_rgb32,
    packed_rows,
    rgb24_to_rgb32,
    rgb_converted,
    seq_result,
    strip_padding,
    stripped,
    yuyv_converted,
    yuyv_row_bytes,
    yuyv_to_rgb32,
};
use crate::error::CameraError;
use crate::frame::{frame_result, Frame, FrameView};

verus! {

/// The source formats that the normalizer knows.
#[derive(Debug, Clone, Copy, PartialEq, Eq, Structural)]
pub enum PixelFormat {
    /// Packed red, green, blue, three bytes a pixel; tag `RGB3`.
    Rgb24,
    /// Packed 4:2:2: luma, blue chroma, luma, red chroma for each pair of
    /// pixels; tag `YUYV`.
    Yuyv,
    /// One JPEG picture per sample; tag `MJPG`.
    Mjpeg,
    /// Blue, green, red, alpha, four bytes a pixel: the canonical layout,
    /// as hardware buffers come; tag `BGRA`.
    Bgra32,
}

impl PixelFormat {
    /// The format that a tag of four characters names, if it names one.
    pub open spec fn of_tag(tag: [u8; 4]) -> Option<PixelFormat> {
        if tag[0] == 0x52 && tag[1] == 0x47 && tag[2] == 0x42 && tag[3] == 0x33 {
            Some(PixelFormat::Rgb24)
        } else if tag[0] == 0x59 && tag[1] == 0x55 && tag[2] == 0x59 && tag[3] == 0x56 {
            Some(PixelFormat::Yuyv)
        } else if tag[0] == 0x4d && tag[1] == 0x4a && tag[2] == 0x50 && tag[3] == 0x47 {
            Some(PixelFormat::Mjpeg)
        } else if tag[0] == 0x42 && tag[1] == 0x47 && tag[2] == 0x52 && tag[3] == 0x41 {
            Some(PixelFormat::Bgra32)
        } else {
            None
        }
    }

    /// Reads a format tag. A tag that names no known format is reported,
    /// never guessed at.
    pub fn from_tag(tag: &[u8; 4]) -> (res: Result<PixelFormat, CameraError>)
        ensures
            res == (match PixelFormat::of_tag(*tag) {
                Some(format) => Ok::<PixelFormat, CameraError>(format),
                None => Err(CameraError::UnsupportedPixelFormat),
            }),
    {
        if tag[0] == 0x52 && tag[1] == 0x47 && tag[2] == 0x42 && tag[3] == 0x33 {
            Ok(PixelFormat::Rgb24)
        } else if tag[0] == 0x59 && tag[1] == 0x55 && tag[2] == 0x59 && tag[3] == 0x56 {
            Ok(PixelFormat::Yuyv)
        } else if tag[0] == 0x4d && tag[1] == 0x4a && tag[2] == 0x50 && tag[3] == 0x47 {
            Ok(PixelFormat::Mjpeg)
        } else if tag[0] == 0x42 && tag[1] == 0x47 && tag[2] == 0x52 && tag[3] == 0x41 {
            Ok(PixelFormat::Bgra32)
        } else {
            Err(CameraError::UnsupportedPixelFormat)
        }
    }

    /// Bytes that one row of `width` pixels takes, padding apart. A
    /// compressed sample has no rows.
    pub open spec fn row_bytes(self, width: u32) -> int {
        match self {
            PixelFormat::Rgb24 => 3 * width,
            PixelFormat::Yuyv => yuyv_row_bytes(width),
            PixelFormat::Mjpeg => 0,
            PixelFormat::Bgra32 => 4 * width,
        }
    }

    /// Bytes that one row of `width` pixels takes, padding apart.
    pub fn row_len(self, width: u32) -> (res: u64)
        ensures
            res == self.row_bytes(width),
    {
        let w: u64 = width as u64;
        match self {
            PixelFormat::Rgb24 => 3 * w,
            PixelFormat::Yuyv => (w / 2) * 4,
            PixelFormat::Mjpeg => 0,
            PixelFormat::Bgra32 => 4 * w,
        }
    }
}

/// One sample as the device delivered it.
#[derive(Debug)]
pub struct RawSample {
    /// Names the format of `bytes` in four characters.
    pub format_tag: [u8; 4],
    /// Pixels per row.
    pub width: u32,
    /// Number of rows.
    pub height: u32,
    /// Bytes from the start of one row to the start of the next; zero where
    /// the rows are packed. A compressed sample has none.
    pub stride: usize,
    /// The sample's memory.
    pub bytes: Vec<u8>,
}

/// The distance between the starts of two rows.
pub open spec fn pitch_of(format: PixelFormat, width: u32, stride: usize) -> int {
    if stride == 0 {
        format.row_bytes(width)
    } else {
        stride as int
    }
}

/// The canonical bytes of an uncompressed sample: its rows without their
/// padding, converted as their format asks. A sample whose rows are not all
/// there, or longer than memory can be, is malformed.
pub open spec fn normalized(
    format: PixelFormat,
    width: u32,
    height: u32,
    stride: usize,
    bytes: Seq<u8>,
) -> Result<Seq<u8>, CameraError>
    recommends
        format != PixelFormat::Mjpeg,
{
    let row_bytes = format.row_bytes(width);
    if height > 0 && row_bytes > usize::MAX {
        Err(CameraError::MalformedSample)
    } else {
        match stripped(bytes, pitch_of(format, width, stride), row_bytes, height as int) {
            Ok(packed) => match format {
                PixelFormat::Rgb24 => rgb_converted(packed, width, height),
                PixelFormat::Yuyv => yuyv_converted(packed, width, height),
                _ => Ok(packed),
            },
            Err(e) => Err(e),
        }
    }
}

/// Whether every pixel of a canonical image is opaque.
pub open spec fn opaque(data: Seq<u8>) -> bool {
    forall|i: int| 0 <= i < data.len() && i % 4 == 3 ==> data[i] == 255
}

impl RawSample {
    /// What `normalize` owes for this sample. An unknown tag is reported as
    /// such and nothing else is. An uncompressed sample has one result. For
    /// a compressed one the decoder decides; what comes out is a frame of
    /// the size announced, opaque, or the sample is malformed.
    pub open spec fn normalizes_to(self, res: Result<FrameView, CameraError>) -> bool {
        match PixelFormat::of_tag(self.format_tag) {
            None => res == Err::<FrameView, CameraError>(CameraError::UnsupportedPixelFormat),
            Some(PixelFormat::Mjpeg) => match res {
                Ok(frame) => {
                    &&& frame.size == (self.width, self.height)
                    &&& frame.data.len() == 4 * self.width * self.height
                    &&& opaque(frame.data)
                },
                Err(e) => e == CameraError::MalformedSample,
            },
            Some(format) => res == (match normalized(
                format,
                self.width,
                self.height,
                self.stride,
                self.bytes@,
            ) {
                Ok(data) => Ok::<FrameView, CameraError>(
                    FrameView { data, size: (self.width, self.height) },
                ),
                Err(e) => Err(e),
            }),
        }
    }
}

/// Turns a sample into a frame in the canonical layout.
pub fn normalize(raw: RawSample) -> (res: Result<Frame, CameraError>)
    ensures
        raw.normalizes_to(frame_result(res)),
{
    let format = match PixelFormat::from_tag(&raw.format_tag) {
        Ok(format) => format,
        Err(e) => {
            return Err(e);
        },
    };
    let width = raw.width;
    let height = raw.height;
    let size = (width, height);
    let data = match format {
        PixelFormat::Mjpeg => mjpg_to_rgb32(raw.bytes.as_slice(), width, height),
        _ => {
            let row_len: u64 = format.row_len(width);
            let pitch: u64 = if raw.stride == 0 {
                row_len
            } else {
                raw.stride as u64
            };
            let packed = if row_len > pitch {
                Err(CameraError::MalformedSample)
            } else if height == 0 {
                let none: Vec<u8> = Vec::new();
                assert(none@ =~= packed_rows(
                    raw.bytes@,
                    pitch as int,
                    format.row_bytes(width),
                    0,
                ));
                Ok(none)
            } else if row_len > usize::MAX as u64 {
                Err(CameraError::MalformedSample)
            } else {
                strip_padding(raw.bytes, pitch as usize, row_len as usize, height as usize)
            };
            match packed {
                Ok(packed) => match format {
                    PixelFormat::Rgb24 => rgb24_to_rgb32(packed.as_slice(), width, height),
                    PixelFormat::Yuyv => yuyv_to_rgb32(packed.as_slice(), width, height),
                    _ => Ok(packed),
                },
                Err(e) => Err(e),
            }
        },
    };
    match data {
        Ok(data) => Frame::new(data, size),
        Err(e) => Err(e),
    }
}

/// Pass-through. A sample that is canonical already, with its rows packed
/// and nothing after them, comes out byte for byte.
pub proof fn lemma_canonical_passes_through(width: u32, height: u32, stride: usize, bytes: Seq<u8>)
    requires
        stride == 0 || stride == 4 * width,
        bytes.len() == 4 * width * height,
        bytes.len() <= usize::MAX,
    ensures
        normalized(PixelFormat::Bgra32, width, height, stride, bytes) == Ok::<
            Seq<u8>,
            CameraError,
        >(bytes),
{
    let row_bytes: int = 4 * width;
    let rows: int = height as int;
    assert(4 * width * height == row_bytes * rows);
    assert(rows > 0 ==> (rows - 1) * row_bytes + row_bytes == row_bytes * rows && row_bytes
        <= row_bytes * rows) by (nonlinear_arith)
        requires
            row_bytes >= 0,
    ;
    let packed = packed_rows(bytes, row_bytes, row_bytes, rows);
    assert forall|i: int| 0 <= i < bytes.len() implies #[trigger] packed[i] == bytes[i] by {
        vstd::arithmetic::div_mod::lemma_fundamental_div_mod(i, row_bytes);
    }
    assert(packed =~= bytes);
}

/// Pass-through for samples. `normalize` owes the bytes of a canonical
/// sample back as they came.
pub proof fn lemma_canonical_sample_passes_through(raw: RawSample)
    requires
        PixelFormat::of_tag(raw.format_tag) == Some(PixelFormat::Bgra32),
        raw.stride == 0 || raw.stride == 4 * raw.width,
        raw.bytes@.len() == 4 * raw.width * raw.height,
    ensures
        raw.normalizes_to(Ok(FrameView { data: raw.bytes@, size: (raw.width, raw.height) })),
{
    vstd::std_specs::vec::axiom_spec_len(&raw.bytes);
    lemma_canonical_passes_through(raw.width, raw.height, raw.stride, raw.bytes@);
}

/// Normalizing twice is normalizing once. The frame that an uncompressed
/// sample gives, taken as a canonical sample of the same size, gives the
/// same frame again.
pub proof fn lemma_normalized_is_canonical(
    format: PixelFormat,
    width: u32,
    height: u32,
    stride: usize,
    bytes: Seq<u8>,
)
    requires
        format != PixelFormat::Mjpeg,
        bytes.len() <= usize::MAX,
        normalized(format, width, height, stride, bytes) is Ok,
    ensures
        ({
            let data = normalized(format, width, height, stride, bytes)->Ok_0;
            &&& data.len() == 4 * width * height
            &&& normalized(PixelFormat::Bgra32, width, height, 0, data) == Ok::<
                Seq<u8>,
                CameraError,
            >(data)
        }),
{
    let data = normalized(format, width, height, stride, bytes)->Ok_0;
    let row_bytes = format.row_bytes(width);
    let pitch = pitch_of(format, width, stride);
    let rows: int = height as int;
    if format == PixelFormat::Bgra32 {
        assert(rows > 0 ==> row_bytes * rows <= (rows - 1) * pitch + row_bytes)
            by (nonlinear_arith)
            requires
                0 <= row_bytes <= pitch,
        ;
    }
    lemma_canonical_passes_through(width, height, 0, data);
}

/// Normalizing twice is normalizing once, whatever the format. The frame
/// that `normalize` makes of a sample, handed in again as a canonical
/// sample of the same size, comes out as the same frame.
pub proof fn lemma_normalize_is_idempotent(raw: RawSample, frame: FrameView, again: RawSample)
    requires
        raw.normalizes_to(Ok(frame)),
        PixelFormat::of_tag(again.format_tag) == Some(PixelFormat::Bgra32),
        again.width == raw.width,
        again.height == raw.height,
        again.stride == 0,
        again.bytes@ == frame.data,
    ensures
        again.normalizes_to(Ok(frame)),
{
    vstd::std_specs::vec::axiom_spec_len(&raw.bytes);
    vstd::std_specs::vec::axiom_spec_len(&again.bytes);
    let format = PixelFormat::of_tag(raw.format_tag)->Some_0;
    if format != PixelFormat::Mjpeg {
        lemma_normalized_is_canonical(format, raw.width, raw.height, raw.stride, raw.bytes@);
    } else {
        lemma_canonical_passes_through(raw.width, raw.height, 0, frame.data);
    }
}

} // verus!
