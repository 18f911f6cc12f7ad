//! Dense row-major frame buffer of packed color words.
//!
//! Each pixel is one 32-bit word holding three 8-bit channels packed as
//! `r << 16 | g << 8 | b`, top byte zero. Writes through `set_pix` take
//! coordinates relative to the canvas center and silently clip anything at
//! or beyond half the canvas size: clipping is a policy, not an error.

use vstd::prelude::*;

verus! {

/// Largest canvas side accepted: keeps every row-major index well inside
/// the 32-bit range on any target.
pub const MAX_DIM: usize = 46340;

/// Value of the packed color word `r << 16 | g << 8 | b`.
pub open spec fn pack_rgb(r: int, g: int, b: int) -> int {
    65536 * r + 256 * g + b
}

/// Packed word of the grayscale pixel with all three channels equal to `v`.
pub open spec fn pack_gray(v: int) -> int {
    pack_rgb(v, v, v)
}

/// Packs three 8-bit channels into one color word.
pub fn pack_color(r: u8, g: u8, b: u8) -> (w: u32)
    ensures
        w == pack_rgb(r as int, g as int, b as int),
        w <= 0xff_ff_ff,
{
    let wr: u32 = r as u32;
    let wg: u32 = g as u32;
    let wb: u32 = b as u32;
    proof {
        assert((wr << 16u32) | (wg << 8u32) | wb == wr * 65536 + wg * 256 + wb) by (bit_vector)
            requires
                wr <= 255,
                wg <= 255,
                wb <= 255,
        {}
    }
    (wr << 16u32) | (wg << 8u32) | wb
}

/// Fixed-size dense array of packed color words, one per pixel, row-major.
pub struct FrameBuffer {
    pub width: usize,
    pub height: usize,
    pub data: Vec<u32>,
}

impl FrameBuffer {
    /// The buffer holds exactly one word per pixel of a non-degenerate
    /// canvas of bounded size.
    pub open spec fn wf(&self) -> bool {
        &&& 1 <= self.width <= MAX_DIM
        &&& 1 <= self.height <= MAX_DIM
        &&& self.data@.len() == self.width * self.height
    }

    /// A centered coordinate is inside the canvas only when both components
    /// are strictly smaller than half the canvas size in absolute value.
    pub open spec fn in_bounds(&self, x: int, y: int) -> bool {
        &&& -(self.width as int / 2) < x < self.width as int / 2
        &&& -(self.height as int / 2) < y < self.height as int / 2
    }

    /// Row-major slot of the centered coordinate `(x, y)`.
    pub open spec fn pix_index(&self, x: int, y: int) -> int {
        (self.height as int / 2 + y) * self.width + (self.width as int / 2 + x)
    }

    /// An in-bounds coordinate indexes a real slot of the buffer.
    pub proof fn lemma_pix_index_in_range(&self, x: int, y: int)
        requires
            self.wf(),
            self.in_bounds(x, y),
        ensures
            0 <= self.pix_index(x, y) < self.data@.len(),
    {
        let row = self.height as int / 2 + y;
        let col = self.width as int / 2 + x;
        assert(1 <= row <= self.height - 1);
        assert(1 <= col <= self.width - 1);
        assert(row * self.width <= (self.height - 1) * self.width) by (nonlinear_arith)
            requires
                row <= self.height - 1,
                self.width >= 1,
        {}
        assert((self.height - 1) * self.width + self.width == self.height * self.width)
            by (nonlinear_arith)
        {}
        assert(row * self.width >= self.width) by (nonlinear_arith)
            requires
                row >= 1,
                self.width >= 1,
        {}
        assert(self.width * self.height == self.height * self.width) by (nonlinear_arith);
    }

    /// Allocates an all-black buffer of `width * height` pixels.
    pub fn new(width: usize, height: usize) -> (fb: Self)
        requires
            1 <= width <= MAX_DIM,
            1 <= height <= MAX_DIM,
        ensures
            fb.wf(),
            fb.width == width,
            fb.height == height,
            forall|i: int| 0 <= i < fb.data@.len() ==> fb.data@[i] == 0u32,
    {
        proof {
            assert(width * height <= 46340 * 46340) by (nonlinear_arith)
                requires
                    width <= 46340,
                    height <= 46340,
                    width >= 0,
                    height >= 0,
            {}
        }
        let n = width * height;
        let mut data: Vec<u32> = Vec::new();
        let mut i: usize = 0;
        while i < n
            invariant
                i <= n,
                data@.len() == i,
                forall|j: int| 0 <= j < i ==> data@[j] == 0u32,
            decreases n - i,
        {
            data.push(0);
            i = i + 1;
        }
        FrameBuffer { width, height, data }
    }

    /// Writes the packed color into the slot of the centered coordinate
    /// `(x, y)`; a coordinate at or beyond half the canvas size is clipped
    /// and the buffer is left untouched.
    pub fn set_pix(&mut self, x: i64, y: i64, color: (u8, u8, u8))
        requires
            old(self).wf(),
        ensures
            final(self).wf(),
            final(self).width == old(self).width,
            final(self).height == old(self).height,
            old(self).in_bounds(x as int, y as int) ==> final(self).data@ == old(self).data@.update(
                old(self).pix_index(x as int, y as int),
                pack_rgb(color.0 as int, color.1 as int, color.2 as int) as u32,
            ),
            !old(self).in_bounds(x as int, y as int) ==> final(self).data@ == old(self).data@,
    {
        let half_w = (self.width / 2) as i64;
        let half_h = (self.height / 2) as i64;
        if x >= half_w || x <= -half_w || y >= half_h || y <= -half_h {
            return ;
        }
        let word = pack_color(color.0, color.1, color.2);
        let row = half_h + y;
        let col = half_w + x;
        proof {
            self.lemma_pix_index_in_range(x as int, y as int);
            assert(0 <= row * (self.width as int) <= 46339 * 46340) by (nonlinear_arith)
                requires
                    1 <= row <= 46339,
                    1 <= self.width <= 46340,
            {}
        }
        let idx = row * (self.width as i64) + col;
        self.data.set(idx as usize, word);
    }
}

} // verus!
