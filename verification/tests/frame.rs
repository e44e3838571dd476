use kamera::{CameraError, Frame};

#[test]
fn frame_needs_four_bytes_a_pixel() {
    assert!(Frame::new(vec![0; 24], (3, 2)).is_ok());
    assert_eq!(Frame::new(vec![0; 23], (3, 2)).err(), Some(CameraError::MalformedSample));
    assert_eq!(Frame::new(vec![0; 25], (3, 2)).err(), Some(CameraError::MalformedSample));
    assert!(Frame::new(Vec::new(), (0, 7)).is_ok());
    assert_eq!(
        Frame::new(Vec::new(), (u32::MAX, u32::MAX)).err(),
        Some(CameraError::MalformedSample)
    );
}

#[test]
fn frame_gives_its_size_and_bytes() {
    let frame = Frame::new(vec![1, 2, 3, 4, 5, 6, 7, 8], (2, 1)).unwrap();
    assert_eq!(frame.size_u32(), (2, 1));
    assert_eq!(frame.data().data_u8(), &[1, 2, 3, 4, 5, 6, 7, 8]);
}

#[test]
fn words_have_the_first_byte_lowest() {
    let frame = Frame::new(vec![0x11, 0x22, 0x33, 0xff, 0, 0, 0, 0x80], (1, 2)).unwrap();
    assert_eq!(frame.data().data_u32(), vec![0xff33_2211, 0x8000_0000]);
    let blank = Frame::new(Vec::new(), (0, 0)).unwrap();
    assert_eq!(blank.data().data_u32(), Vec::<u32>::new());
}

#[test]
fn words_are_what_the_machine_reads_where_it_reads_low_byte_first() {
    let bytes = vec![0x11, 0x22, 0x33, 0x44, 0xaa, 0xbb, 0xcc, 0xdd];
    let frame = Frame::new(bytes.clone(), (2, 1)).unwrap();
    let words: Vec<u32> = bytes
        .chunks(4)
        .map(|b| u32::from_le_bytes([b[0], b[1], b[2], b[3]]))
        .collect();
    assert_eq!(frame.data().data_u32(), words);
}
