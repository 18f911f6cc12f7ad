//! Interactive control of the iteration depth.
//!
//! The controller owns the current iteration depth and the frame buffer.
//! On a depth-increase or depth-decrease event it adjusts the depth
//! (clamping decrements at 1) and synchronously re-renders the whole frame
//! at the new depth before returning, so between calls the buffer always
//! holds one complete frame of the current depth: a render in progress is
//! never observable. The presentation loop around it decides the input
//! policy; this design takes level-triggered input, one event per loop
//! tick while a key is held.

use vstd::prelude::*;

use crate::framebuffer::{FrameBuffer, MAX_DIM};
use crate::raster::{mandelbrot_to_buf, spec_frame, MAX_DEPTH, MAX_SAMPLES};

verus! {

/// Owner of the iteration depth and the frame buffer.
pub struct InteractiveController {
    pub depth: u32,
    pub samples: u32,
    pub frame: FrameBuffer,
}

impl InteractiveController {
    /// The depth is at least 1, the supersample factor is in range, and the
    /// buffer holds the complete frame rendered at the current depth.
    pub open spec fn wf(&self) -> bool {
        &&& self.frame.wf()
        &&& 1 <= self.depth <= MAX_DEPTH
        &&& 1 <= self.samples <= MAX_SAMPLES
        &&& self.frame.data@ == spec_frame(
            self.frame.width as int,
            self.frame.height as int,
            self.depth as nat,
            self.samples as int,
        )
    }

    /// Creates the controller and renders the initial frame.
    pub fn new(width: usize, height: usize, depth: u32, samples: u32) -> (c: Self)
        requires
            1 <= width <= MAX_DIM,
            1 <= height <= MAX_DIM,
            1 <= depth <= MAX_DEPTH,
            1 <= samples <= MAX_SAMPLES,
        ensures
            c.wf(),
            c.depth == depth,
            c.samples == samples,
            c.frame.width == width,
            c.frame.height == height,
    {
        let mut frame = FrameBuffer::new(width, height);
        mandelbrot_to_buf(&mut frame.data, width, height, depth, samples);
        InteractiveController { depth, samples, frame }
    }

    /// Depth-increase event: raises the depth by one and re-renders the
    /// whole frame at the new depth.
    pub fn increase_depth(&mut self)
        requires
            old(self).wf(),
            old(self).depth < MAX_DEPTH,
        ensures
            final(self).wf(),
            final(self).depth == old(self).depth + 1,
            final(self).samples == old(self).samples,
            final(self).frame.width == old(self).frame.width,
            final(self).frame.height == old(self).frame.height,
    {
        self.depth = self.depth + 1;
        let width = self.frame.width;
        let height = self.frame.height;
        mandelbrot_to_buf(&mut self.frame.data, width, height, self.depth, self.samples);
    }

    /// Depth-decrease event: lowers the depth by one, clamped at 1, and
    /// re-renders the whole frame at the new depth.
    pub fn decrease_depth(&mut self)
        requires
            old(self).wf(),
        ensures
            final(self).wf(),
            final(self).depth == if old(self).depth > 1 {
                old(self).depth - 1
            } else {
                1int
            },
            final(self).samples == old(self).samples,
            final(self).frame.width == old(self).frame.width,
            final(self).frame.height == old(self).frame.height,
    {
        if self.depth > 1 {
            self.depth = self.depth - 1;
        }
        let width = self.frame.width;
        let height = self.frame.height;
        mandelbrot_to_buf(&mut self.frame.data, width, height, self.depth, self.samples);
    }
}

} // verus!
