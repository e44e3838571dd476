//! Frames in the canonical layout, and read-only views of their pixels.

use vstd::prelude::*;
use crate::convert::canonical_len;
use crate::error::CameraError;

verus! {

/// A frame as a value: the canonical bytes, four for each pixel in the
/// order blue, green, red, alpha, row after row without padding, and the
/// size in pixels as width and height.
pub struct FrameView {
    pub data: Seq<u8>,
    pub size: (u32, u32),
}

/// The 32-bit word that four bytes make, the first byte lowest: a canonical
/// pixel reads `0xAARRGGBB`.
pub open spec fn word_of(b0: u8, b1: u8, b2: u8, b3: u8) -> u32 {
    (b0 + 0x100 * b1 + 0x1_0000 * b2 + 0x100_0000 * b3) as u32
}

/// The words that the bytes make, four bytes to a word.
pub open spec fn words_of(data: Seq<u8>) -> Seq<u32> {
    Seq::new(
        data.len() / 4,
        |i: int| word_of(data[4 * i], data[4 * i + 1], data[4 * i + 2], data[4 * i + 3]),
    )
}

/// One frame in the canonical layout. It owns its pixels; views of them
/// borrow from it.
#[derive(Debug)]
pub struct Frame {
    data: Vec<u8>,
    size: (u32, u32),
}

/// The pixels of a frame, borrowed for reading.
#[derive(Debug)]
pub struct FrameData<'a> {
    data: &'a [u8],
}

impl View for Frame {
    type V = FrameView;

    closed spec fn view(&self) -> FrameView {
        FrameView { data: self.data@, size: self.size }
    }
}

impl<'a> View for FrameData<'a> {
    type V = Seq<u8>;

    closed spec fn view(&self) -> Seq<u8> {
        self.data@
    }
}

impl Frame {
    #[verifier::type_invariant]
    spec fn well_formed(self) -> bool {
        self.data@.len() == 4 * self.size.0 * self.size.1
    }

    /// What `new` returns: the frame, if there are four bytes for each
    /// pixel and no more.
    pub open spec fn framed(data: Seq<u8>, size: (u32, u32)) -> Result<FrameView, CameraError> {
        if data.len() == 4 * size.0 * size.1 {
            Ok(FrameView { data, size })
        } else {
            Err(CameraError::MalformedSample)
        }
    }

    /// Makes a frame of canonical bytes and a size of width and height.
    pub fn new(data: Vec<u8>, size: (u32, u32)) -> (res: Result<Frame, CameraError>)
        ensures
            frame_result(res) == Frame::framed(data@, size),
    {
        let len: usize = data.len();
        match canonical_len(size.0, size.1) {
            Some(expected) => {
                if expected == len {
                    Ok(Frame { data, size })
                } else {
                    Err(CameraError::MalformedSample)
                }
            },
            None => Err(CameraError::MalformedSample),
        }
    }

    /// The pixels, borrowed for as long as the frame is.
    pub fn data(&self) -> (res: FrameData<'_>)
        ensures
            res@ == self@.data,
            res@.len() == 4 * self@.size.0 * self@.size.1,
    {
        proof {
            use_type_invariant(self);
            assert(4 * self.size.0 * self.size.1 == 4 * (self.size.0 * self.size.1))
                by (nonlinear_arith);
        }
        FrameData { data: self.data.as_slice() }
    }

    /// The size in pixels: width, then height.
    pub fn size_u32(&self) -> (res: (u32, u32))
        ensures
            res == self@.size,
    {
        self.size
    }
}

/// The view of a frame that may have failed.
pub open spec fn frame_result(res: Result<Frame, CameraError>) -> Result<FrameView, CameraError> {
    match res {
        Ok(frame) => Ok(frame@),
        Err(e) => Err(e),
    }
}

impl<'a> FrameData<'a> {
    #[verifier::type_invariant]
    spec fn well_formed(self) -> bool {
        self.data@.len() % 4 == 0
    }

    /// The pixels byte by byte.
    pub fn data_u8(&self) -> (res: &[u8])
        ensures
            res@ == self@,
    {
        self.data
    }

    /// The pixels word by word.
    pub fn data_u32(&self) -> (res: Vec<u32>)
        ensures
            res@ == words_of(self@),
    {
        proof {
            use_type_invariant(self);
        }
        let len: usize = self.data.len();
        let count: usize = len / 4;
        let mut words: Vec<u32> = Vec::with_capacity(count);
        let mut index: usize = 0;
        while index < count
            invariant
                len == self.data@.len(),
                count == len / 4,
                len % 4 == 0,
                index <= count,
                words@.len() == index,
                forall|i: int|
                    0 <= i < index ==> words@[i] == word_of(
                        self.data@[4 * i],
                        self.data@[4 * i + 1],
                        self.data@[4 * i + 2],
                        self.data@[4 * i + 3],
                    ),
            decreases count - index,
        {
            let at: usize = 4 * index;
            let b0: u32 = self.data[at] as u32;
            let b1: u32 = self.data[at + 1] as u32;
            let b2: u32 = self.data[at + 2] as u32;
            let b3: u32 = self.data[at + 3] as u32;
            words.push(b0 + 0x100 * b1 + 0x1_0000 * b2 + 0x100_0000 * b3);
            index += 1;
        }
        words
    }
}

} // verus!
