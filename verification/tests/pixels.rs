use kamera::{CameraError, Pixels, Plane};

#[test]
fn locked_region_of_a_packed_buffer() {
    let pixels = Pixels::new(0, 2560, 640, 480, false, &Vec::new()).unwrap();
    assert_eq!(pixels, Pixels { len: 2560 * 480, stride: 2560, width: 640, height: 480 });
}

#[test]
fn planes_are_ignored_unless_the_buffer_is_planar() {
    let planes = vec![Plane { stride: 7, height: 9 }];
    let pixels = Pixels::new(0, 64, 16, 2, false, &planes).unwrap();
    assert_eq!(pixels.len, 128);
}

#[test]
fn locked_region_of_a_planar_buffer() {
    let planes = vec![Plane { stride: 640, height: 480 }, Plane { stride: 640, height: 240 }];
    let pixels = Pixels::new(0, 1, 640, 480, true, &planes).unwrap();
    assert_eq!(pixels, Pixels { len: 640 * 480 + 640 * 240, stride: 1, width: 640, height: 480 });
    let none = Pixels::new(0, 640, 640, 480, true, &Vec::new()).unwrap();
    assert_eq!(none.len, 0);
}

#[test]
fn failed_lock_is_reported() {
    let none = Vec::new();
    assert_eq!(Pixels::new(-6662, 2560, 640, 480, false, &none), Err(CameraError::LockFailed));
    assert_eq!(Pixels::new(1, 0, 0, 0, true, &Vec::new()), Err(CameraError::LockFailed));
}

#[test]
fn region_beyond_the_address_space_is_reported() {
    assert_eq!(Pixels::new(0, usize::MAX, 1, 2, false, &Vec::new()), Err(CameraError::LockFailed));
    let planes = vec![Plane { stride: usize::MAX, height: 1 }, Plane { stride: 1, height: 1 }];
    assert_eq!(Pixels::new(0, 4, 1, 1, true, &planes), Err(CameraError::LockFailed));
    let fits = vec![Plane { stride: usize::MAX - 1, height: 1 }, Plane { stride: 1, height: 1 }];
    assert_eq!(Pixels::new(0, 4, 1, 1, true, &fits).unwrap().len, usize::MAX);
}
