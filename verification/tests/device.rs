use kamera::device::find_device;
use kamera::CameraDevice;

fn device(id: &str, name: &str) -> CameraDevice {
    CameraDevice { id: id.to_string(), name: name.to_string() }
}

#[test]
fn node_without_a_name_is_called_by_its_id() {
    let named = CameraDevice::from_node("/dev/video0".to_string(), Some("Webcam".to_string()));
    assert_eq!(named, device("/dev/video0", "Webcam"));
    let unnamed = CameraDevice::from_node("/dev/video1".to_string(), None);
    assert_eq!(unnamed, device("/dev/video1", "/dev/video1"));
}

#[test]
fn devices_are_equal_when_id_and_name_are() {
    assert_eq!(device("a", "x"), device("a", "x"));
    assert_ne!(device("a", "x"), device("a", "y"));
    assert_ne!(device("a", "x"), device("b", "x"));
    assert_eq!(device("a", "x").clone(), device("a", "x"));
}

#[test]
fn identity_is_by_id() {
    assert!(device("a", "x").same_device(&device("a", "y")));
    assert!(!device("a", "x").same_device(&device("b", "x")));
}

#[test]
fn find_device_gives_the_first_match() {
    let devices = vec![device("a", "1"), device("b", "2"), device("b", "3"), device("c", "4")];
    assert_eq!(find_device(&devices, &device("a", "")), Some(0));
    assert_eq!(find_device(&devices, &device("b", "")), Some(1));
    assert_eq!(find_device(&devices, &device("c", "")), Some(3));
    assert_eq!(find_device(&devices, &device("d", "")), None);
    assert_eq!(find_device(&Vec::new(), &device("a", "")), None);
}
