//! The decoded frame: dimensions and one plane of luma samples.

use vstd::prelude::*;

verus! {

/// What a frame holds, as plain values.
pub struct FrameView {
    pub width: nat,
    pub height: nat,
    /// One sample per pixel, row by row.
    pub luma: Seq<u8>,
}

impl FrameView {
    /// The plane holds exactly one sample for each pixel.
    pub open spec fn wf(self) -> bool {
        self.luma.len() == self.width * self.height
    }
}

/// A decoded frame. Its plane always holds `width * height` samples: the
/// constructor refuses any other buffer, and nothing changes a frame once it
/// is made.
#[derive(Debug, PartialEq, Eq)]
pub struct Frame {
    width: u16,
    height: u16,
    ybuf: Vec<u8>,
}

impl View for Frame {
    type V = FrameView;

    closed spec fn view(&self) -> FrameView {
        FrameView { width: self.width as nat, height: self.height as nat, luma: self.ybuf@ }
    }
}

impl Frame {
    #[verifier::type_invariant]
    spec fn plane_fits(self) -> bool {
        self.ybuf@.len() == self.width * self.height
    }

    /// A frame of the given dimensions over `luma`, if `luma` holds one
    /// sample per pixel.
    pub fn new(width: u16, height: u16, luma: Vec<u8>) -> (frame: Option<Frame>)
        ensures
            frame is Some <==> luma@.len() == width * height,
            frame matches Some(f) ==> f@ == (FrameView {
                width: width as nat,
                height: height as nat,
                luma: luma@,
            }),
    {
        assert(width * height <= 0xFFFF * 0xFFFF) by (nonlinear_arith)
            requires
                width <= 0xFFFF,
                height <= 0xFFFF,
        ;
        let samples: u64 = (width as u64) * (height as u64);
        if luma.len() as u64 == samples {
            Some(Frame { width, height, ybuf: luma })
        } else {
            None
        }
    }

    pub fn width(&self) -> (width: u16)
        ensures
            width == self@.width,
    {
        self.width
    }

    pub fn height(&self) -> (height: u16)
        ensures
            height == self@.height,
    {
        self.height
    }

    /// The samples, with the fact that makes a frame a frame.
    pub fn luma(&self) -> (luma: &[u8])
        ensures
            luma@ == self@.luma,
            self@.wf(),
    {
        proof {
            use_type_invariant(self);
        }
        self.ybuf.as_slice()
    }

    /// Gives up the frame for its samples.
    pub fn into_luma(self) -> (luma: Vec<u8>)
        ensures
            luma@ == self@.luma,
            self@.wf(),
    {
        proof {
            use_type_invariant(&self);
        }
        self.ybuf
    }
}

} // verus!
