use image::codecs::jpeg::JpegEncoder;
use image::ColorType;
use kamera::convert::{mjpg_to_rgb32, repack_rgba, rgb24_to_rgb32, strip_padding, DecodedImage};
use kamera::{normalize, CameraError, PixelFormat, RawSample};

fn raw(tag: &[u8; 4], width: u32, height: u32, stride: usize, bytes: Vec<u8>) -> RawSample {
    RawSample { format_tag: *tag, width, height, stride, bytes }
}

#[test]
fn tags_name_formats() {
    assert_eq!(PixelFormat::from_tag(b"RGB3"), Ok(PixelFormat::Rgb24));
    assert_eq!(PixelFormat::from_tag(b"YUYV"), Ok(PixelFormat::Yuyv));
    assert_eq!(PixelFormat::from_tag(b"MJPG"), Ok(PixelFormat::Mjpeg));
    assert_eq!(PixelFormat::from_tag(b"BGRA"), Ok(PixelFormat::Bgra32));
    assert_eq!(PixelFormat::from_tag(b"BGR4"), Err(CameraError::UnsupportedPixelFormat));
    assert_eq!(PixelFormat::from_tag(b"yuyv"), Err(CameraError::UnsupportedPixelFormat));
    assert_eq!(PixelFormat::from_tag(&[0; 4]), Err(CameraError::UnsupportedPixelFormat));
}

#[test]
fn rows_have_their_lengths() {
    assert_eq!(PixelFormat::Rgb24.row_len(5), 15);
    assert_eq!(PixelFormat::Yuyv.row_len(5), 8);
    assert_eq!(PixelFormat::Yuyv.row_len(6), 12);
    assert_eq!(PixelFormat::Mjpeg.row_len(5), 0);
    assert_eq!(PixelFormat::Bgra32.row_len(u32::MAX), 4 * (u32::MAX as u64));
}

#[test]
fn unknown_tag_is_reported() {
    let res = normalize(raw(b"NV12", 2, 2, 0, vec![0; 6]));
    assert_eq!(res.err(), Some(CameraError::UnsupportedPixelFormat));
}

#[test]
fn canonical_sample_passes_through() {
    let bytes: Vec<u8> = (0..24).collect();
    let frame = normalize(raw(b"BGRA", 3, 2, 0, bytes.clone())).unwrap();
    assert_eq!(frame.size_u32(), (3, 2));
    assert_eq!(frame.data().data_u8(), &bytes[..]);
    let again = normalize(raw(b"BGRA", 3, 2, 12, bytes.clone())).unwrap();
    assert_eq!(again.data().data_u8(), &bytes[..]);
}

#[test]
fn normalizing_twice_is_normalizing_once() {
    let first = normalize(raw(b"RGB3", 2, 1, 0, vec![1, 2, 3, 4, 5, 6])).unwrap();
    let bytes = first.data().data_u8().to_vec();
    let second = normalize(raw(b"BGRA", 2, 1, 0, bytes.clone())).unwrap();
    assert_eq!(second.size_u32(), first.size_u32());
    assert_eq!(second.data().data_u8(), &bytes[..]);
}

#[test]
fn padding_between_rows_is_stripped() {
    // Two rows of two pixels, twelve bytes from row to row.
    let bytes = vec![
        1, 2, 3, 4, 5, 6, 7, 8, 0xee, 0xee, 0xee, 0xee, //
        9, 10, 11, 12, 13, 14, 15, 16, 0xee, 0xee, 0xee, 0xee,
    ];
    let frame = normalize(raw(b"BGRA", 2, 2, 12, bytes)).unwrap();
    assert_eq!(frame.size_u32(), (2, 2));
    assert_eq!(
        frame.data().data_u8(),
        &[1, 2, 3, 4, 5, 6, 7, 8, 9, 10, 11, 12, 13, 14, 15, 16]
    );
}

#[test]
fn last_row_needs_no_padding() {
    let bytes = vec![1, 2, 3, 4, 0xee, 0xee, 5, 6, 7, 8];
    let frame = normalize(raw(b"BGRA", 1, 2, 6, bytes)).unwrap();
    assert_eq!(frame.data().data_u8(), &[1, 2, 3, 4, 5, 6, 7, 8]);
}

#[test]
fn bytes_after_the_last_row_are_dropped() {
    let bytes = vec![1, 2, 3, 4, 5, 6, 7, 8, 9, 9, 9];
    let frame = normalize(raw(b"BGRA", 1, 2, 0, bytes)).unwrap();
    assert_eq!(frame.data().data_u8(), &[1, 2, 3, 4, 5, 6, 7, 8]);
}

#[test]
fn missing_rows_are_malformed() {
    let short = normalize(raw(b"BGRA", 2, 2, 0, vec![0; 15]));
    assert_eq!(short.err(), Some(CameraError::MalformedSample));
    let narrow = normalize(raw(b"BGRA", 2, 2, 7, vec![0; 64]));
    assert_eq!(narrow.err(), Some(CameraError::MalformedSample));
    let padded = normalize(raw(b"BGRA", 2, 2, 12, vec![0; 19]));
    assert_eq!(padded.err(), Some(CameraError::MalformedSample));
    let rgb = normalize(raw(b"RGB3", 2, 2, 0, vec![0; 11]));
    assert_eq!(rgb.err(), Some(CameraError::MalformedSample));
    let yuyv = normalize(raw(b"YUYV", 2, 2, 0, vec![0; 7]));
    assert_eq!(yuyv.err(), Some(CameraError::MalformedSample));
}

#[test]
fn sample_without_rows_is_an_empty_frame() {
    let frame = normalize(raw(b"BGRA", 640, 0, 0, Vec::new())).unwrap();
    assert_eq!(frame.size_u32(), (640, 0));
    assert_eq!(frame.data().data_u8(), &[] as &[u8]);
    let frame = normalize(raw(b"YUYV", 0, 480, 0, Vec::new())).unwrap();
    assert_eq!(frame.size_u32(), (0, 480));
}

#[test]
fn rgb_is_laid_out_blue_first_and_opaque() {
    let bytes = vec![10, 20, 30, 40, 50, 60, 70, 80, 90, 100, 110, 120];
    let frame = normalize(raw(b"RGB3", 2, 2, 0, bytes)).unwrap();
    assert_eq!(frame.size_u32(), (2, 2));
    assert_eq!(
        frame.data().data_u8(),
        &[30, 20, 10, 255, 60, 50, 40, 255, 90, 80, 70, 255, 120, 110, 100, 255]
    );
    assert_eq!(frame.data().data_u32()[0], 0xff0a_141e);
}

#[test]
fn rgb_rows_lose_their_padding() {
    let bytes = vec![1, 2, 3, 0xee, 4, 5, 6];
    let frame = normalize(raw(b"RGB3", 1, 2, 4, bytes)).unwrap();
    assert_eq!(frame.data().data_u8(), &[3, 2, 1, 255, 6, 5, 4, 255]);
}

#[test]
fn rgb_converter_reports_what_does_not_fit() {
    assert_eq!(rgb24_to_rgb32(&[1, 2, 3], 1, 1), Ok(vec![3, 2, 1, 255]));
    assert_eq!(rgb24_to_rgb32(&[1, 2, 3, 4], 1, 1), Ok(vec![3, 2, 1, 255]));
    assert_eq!(rgb24_to_rgb32(&[1, 2], 1, 1), Err(CameraError::MalformedSample));
    assert_eq!(rgb24_to_rgb32(&[], 0x4000_0000, 0), Err(CameraError::MalformedSample));
    assert_eq!(rgb24_to_rgb32(&[], 7, 0), Ok(Vec::new()));
}

#[test]
fn yuyv_solid_red_becomes_red() {
    // Red is Y = 82, U = 90, V = 240.
    let mut bytes = Vec::new();
    for _ in 0..6 {
        bytes.extend_from_slice(&[82, 90, 82, 240]);
    }
    let frame = normalize(raw(b"YUYV", 4, 3, 0, bytes)).unwrap();
    assert_eq!(frame.size_u32(), (4, 3));
    let data = frame.data();
    assert_eq!(data.data_u8().len(), 48);
    for pixel in data.data_u8().chunks(4) {
        let (blue, green, red, alpha) = (pixel[0], pixel[1], pixel[2], pixel[3]);
        assert!(blue <= 2 && green <= 2 && red >= 253, "{:?}", pixel);
        assert_eq!(alpha, 255);
    }
    for word in data.data_u32() {
        assert_eq!(word, 0xffff_0100);
    }
}

#[test]
fn yuyv_rows_lose_their_padding() {
    let bytes = vec![82, 90, 82, 240, 0xee, 0xee, 16, 128, 235, 128];
    let frame = normalize(raw(b"YUYV", 2, 2, 6, bytes)).unwrap();
    assert_eq!(
        frame.data().data_u8(),
        &[0, 1, 255, 255, 0, 1, 255, 255, 0, 0, 0, 255, 255, 255, 255, 255]
    );
}

#[test]
fn strip_padding_keeps_the_rows() {
    let bytes = vec![1, 2, 0, 3, 4, 0, 5, 6];
    assert_eq!(strip_padding(bytes.clone(), 3, 2, 3), Ok(vec![1, 2, 3, 4, 5, 6]));
    assert_eq!(strip_padding(bytes.clone(), 2, 2, 4), Ok(bytes.clone()));
    assert_eq!(strip_padding(bytes.clone(), 2, 2, 3), Ok(vec![1, 2, 0, 3, 4, 0]));
    assert_eq!(strip_padding(bytes.clone(), 3, 2, 4), Err(CameraError::MalformedSample));
    assert_eq!(strip_padding(bytes.clone(), 1, 2, 1), Err(CameraError::MalformedSample));
    assert_eq!(strip_padding(bytes.clone(), 4, 0, 100), Err(CameraError::MalformedSample));
    assert_eq!(strip_padding(bytes.clone(), 4, 0, 2), Ok(Vec::new()));
    assert_eq!(strip_padding(bytes.clone(), 9, 9, 0), Ok(Vec::new()));
    assert_eq!(
        strip_padding(bytes, usize::MAX, 1, usize::MAX),
        Err(CameraError::MalformedSample)
    );
}

#[test]
fn decoded_picture_is_repacked() {
    let decoded = DecodedImage { width: 2, height: 1, rgba: vec![1, 2, 3, 4, 5, 6, 7, 8] };
    assert_eq!(repack_rgba(decoded, 2, 1), Ok(vec![3, 2, 1, 255, 7, 6, 5, 255]));
}

#[test]
fn decoded_picture_of_another_size_is_malformed() {
    let wide = DecodedImage { width: 2, height: 1, rgba: vec![0; 8] };
    assert_eq!(repack_rgba(wide, 1, 2), Err(CameraError::MalformedSample));
    let tall = DecodedImage { width: 1, height: 2, rgba: vec![0; 8] };
    assert_eq!(repack_rgba(tall, 1, 1), Err(CameraError::MalformedSample));
    let short = DecodedImage { width: 2, height: 1, rgba: vec![0; 7] };
    assert_eq!(repack_rgba(short, 2, 1), Err(CameraError::MalformedSample));
}

fn jpeg_of(rgb: &[u8], width: u32, height: u32) -> Vec<u8> {
    let mut jpeg = Vec::new();
    JpegEncoder::new_with_quality(&mut jpeg, 100)
        .encode(rgb, width, height, ColorType::Rgb8)
        .unwrap();
    jpeg
}

#[test]
fn jpeg_of_a_solid_colour_becomes_that_colour() {
    let (width, height) = (16u32, 8u32);
    let mut rgb = Vec::new();
    for _ in 0..(width * height) {
        rgb.extend_from_slice(&[200, 100, 50]);
    }
    let jpeg = jpeg_of(&rgb, width, height);
    assert_ne!(jpeg.len(), rgb.len());
    let frame = normalize(raw(b"MJPG", width, height, 0, jpeg)).unwrap();
    assert_eq!(frame.size_u32(), (width, height));
    let data = frame.data();
    assert_eq!(data.data_u8().len(), 4 * 16 * 8);
    for pixel in data.data_u8().chunks(4) {
        assert!((pixel[0] as i32 - 50).abs() <= 3, "{:?}", pixel);
        assert!((pixel[1] as i32 - 100).abs() <= 3, "{:?}", pixel);
        assert!((pixel[2] as i32 - 200).abs() <= 3, "{:?}", pixel);
        assert_eq!(pixel[3], 255);
    }
}

#[test]
fn jpeg_of_another_size_is_malformed() {
    let jpeg = jpeg_of(&[9; 16 * 8 * 3], 16, 8);
    assert_eq!(mjpg_to_rgb32(&jpeg, 8, 16), Err(CameraError::MalformedSample));
    assert_eq!(mjpg_to_rgb32(&jpeg, 16, 8).map(|out| out.len()), Ok(512));
}

#[test]
fn bytes_that_are_no_jpeg_are_malformed() {
    let res = normalize(raw(b"MJPG", 2, 2, 0, vec![1, 2, 3, 4, 5, 6, 7, 8]));
    assert_eq!(res.err(), Some(CameraError::MalformedSample));
    let empty = normalize(raw(b"MJPG", 0, 0, 0, Vec::new()));
    assert_eq!(empty.err(), Some(CameraError::MalformedSample));
}
