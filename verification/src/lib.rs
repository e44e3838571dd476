//! Camera frame acquisition core: the frame slot that bridges a pushing
//! delivery thread and a pulling consumer, the controller that owns one
//! capture session at a time, and the normalizer that turns native samples
//! into one canonical 32-bit pixel layout.

pub mod camera;
pub mod convert;
pub mod device;
pub mod error;
pub mod frame;
pub mod pixels;
pub mod sample;
pub mod slot;

pub use camera::{Camera, CameraView, Switch};
pub use device::CameraDevice;
pub use error::CameraError;
pub use frame::{Frame, FrameData, FrameView};
pub use pixels::{Pixels, Plane};
pub use sample::{normalize, PixelFormat, RawSample};
pub use slot::{Slot, SlotView, State, Wait};
