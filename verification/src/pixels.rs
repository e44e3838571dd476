//! The geometry of a locked native pixel buffer.

use vstd::prelude::*;
use crate::error::CameraError;
use crate::sample::RawSample;

verus! {

/// Geometry of one plane of a planar native buffer.
#[derive(Debug, Clone, Copy, PartialEq, Eq, Structural)]
pub struct Plane {
    /// Bytes from the start of one row to the start of the next.
    pub stride: usize,
    /// Number of rows.
    pub height: usize,
}

/// The readable region of a native pixel buffer that has been locked.
#[derive(Debug, Clone, Copy, PartialEq, Eq, Structural)]
pub struct Pixels {
    /// Bytes that may be read from the base address.
    pub len: usize,
    /// Bytes from the start of one row to the start of the next.
    pub stride: usize,
    /// Pixels per row.
    pub width: usize,
    /// Number of rows.
    pub height: usize,
}

/// Bytes occupied by the given planes, laid out one after another.
pub open spec fn planes_len(planes: Seq<Plane>) -> nat
    decreases planes.len(),
{
    if planes.len() == 0 {
        0
    } else {
        planes_len(planes.drop_last()) + (planes.last().stride * planes.last().height) as nat
    }
}

/// Bytes that a locked buffer exposes: the sum over its planes when it is
/// planar, `stride * height` otherwise.
pub open spec fn locked_len(
    stride: usize,
    height: usize,
    is_planar: bool,
    planes: Seq<Plane>,
) -> nat {
    if is_planar {
        planes_len(planes)
    } else {
        (stride * height) as nat
    }
}

/// A prefix of the planes never occupies more than all of them.
pub proof fn lemma_planes_len_prefix(planes: Seq<Plane>, n: int)
    requires
        0 <= n <= planes.len(),
    ensures
        planes_len(planes.take(n)) <= planes_len(planes),
    decreases planes.len() - n,
{
    if n < planes.len() {
        lemma_planes_len_prefix(planes, n + 1);
        assert(planes.take(n + 1).drop_last() =~= planes.take(n));
    } else {
        assert(planes.take(n) =~= planes);
    }
}

impl Pixels {
    /// What `new` returns: the region, unless the lock failed or the region
    /// does not fit the address space.
    pub open spec fn locked(
        lock_status: i32,
        stride: usize,
        width: usize,
        height: usize,
        is_planar: bool,
        planes: Seq<Plane>,
    ) -> Result<Pixels, CameraError> {
        let len = locked_len(stride, height, is_planar, planes);
        if lock_status != 0 || len > usize::MAX {
            Err(CameraError::LockFailed)
        } else {
            Ok(Pixels { len: len as usize, stride, width, height })
        }
    }

    /// Describes the region that a lock on a native buffer has made readable.
    ///
    /// `lock_status` is what the native lock call returned; zero means that
    /// the lock is held. A buffer whose region does not fit the address
    /// space cannot have been locked as a whole and is reported likewise.
    pub fn new(
        lock_status: i32,
        stride: usize,
        width: usize,
        height: usize,
        is_planar: bool,
        planes: &Vec<Plane>,
    ) -> (res: Result<Pixels, CameraError>)
        ensures
            res == Pixels::locked(lock_status, stride, width, height, is_planar, planes@),
    {
        if lock_status != 0 {
            return Err(CameraError::LockFailed);
        }
        let mut len: usize = 0;
        if is_planar {
            let mut index: usize = 0;
            while index < planes.len()
                invariant
                    lock_status == 0,
                    is_planar,
                    index <= planes.len(),
                    len == planes_len(planes@.take(index as int)),
                decreases planes.len() - index,
            {
                let plane = planes[index];
                proof {
                    lemma_planes_len_prefix(planes@, index + 1);
                    assert(planes@.take(index + 1).drop_last() =~= planes@.take(index as int));
                }
                let size = match plane.stride.checked_mul(plane.height) {
                    Some(size) => size,
                    None => {
                        return Err(CameraError::LockFailed);
                    },
                };
                len = match len.checked_add(size) {
                    Some(sum) => sum,
                    None => {
                        return Err(CameraError::LockFailed);
                    },
                };
                index += 1;
            }
            assert(planes@.take(index as int) =~= planes@);
        } else {
            len = match stride.checked_mul(height) {
                Some(size) => size,
                None => {
                    return Err(CameraError::LockFailed);
                },
            };
        }
        Ok(Pixels { len, stride, width, height })
    }

    /// What `sample` returns: the sample, if the bytes are the whole region
    /// and the size can be written in 32 bits.
    pub open spec fn sampled(self, format_tag: [u8; 4], bytes: Vec<u8>) -> Result<
        RawSample,
        CameraError,
    > {
        if bytes@.len() == self.len && self.width <= u32::MAX && self.height <= u32::MAX {
            Ok(
                RawSample {
                    format_tag,
                    width: self.width as u32,
                    height: self.height as u32,
                    stride: self.stride,
                    bytes,
                },
            )
        } else {
            Err(CameraError::MalformedSample)
        }
    }

    /// Makes a sample of the bytes that were read from the region.
    pub fn sample(&self, format_tag: [u8; 4], bytes: Vec<u8>) -> (res: Result<
        RawSample,
        CameraError,
    >)
        ensures
            res == self.sampled(format_tag, bytes),
    {
        if bytes.len() != self.len || self.width > u32::MAX as usize || self.height
            > u32::MAX as usize {
            return Err(CameraError::MalformedSample);
        }
        Ok(
            RawSample {
                format_tag,
                width: self.width as u32,
                height: self.height as u32,
                stride: self.stride,
                bytes,
            },
        )
    }
}

} // verus!
