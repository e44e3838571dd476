//! The errors of the camera.

use vstd::prelude::*;

verus! {

/// Everything that can go wrong between enumerating devices and handing a
/// frame to the consumer.
#[derive(Debug, Clone, Copy, PartialEq, Eq, Structural)]
pub enum CameraError {
    /// Enumeration returned no device.
    NoDeviceAvailable,
    /// The device asked for is not among the enumerated ones. The camera
    /// has gone idle and given up its session.
    DeviceNotFound,
    /// The backend could not open a session on the device. The camera is
    /// as it was.
    BackendOpenFailed,
    /// The backend could not start the session. The camera is idle.
    BackendStartFailed,
    /// The sample carries a format tag that the normalizer does not know.
    UnsupportedPixelFormat,
    /// The native buffer could not be locked for reading.
    LockFailed,
    /// The sample's bytes are not a picture of its format and size: rows
    /// are missing, the size is beyond what can be converted, or the
    /// picture cannot be decoded.
    MalformedSample,
}

} // verus!
