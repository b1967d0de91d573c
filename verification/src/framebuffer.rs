//! A row-major pixel grid of packed colors with bounds-checked writes.
//! The silent rejection of out-of-range coordinates in [`Framebuffer::draw_pixel`]
//! is the sole clipping mechanism of the renderer.

use vstd::prelude::*;
use crate::color::Color;

verus! {

/// `(x, y)` lies inside a `w × h` grid.
pub open spec fn pix_in_bounds(x: int, y: int, w: int, h: int) -> bool {
    0 <= x < w && 0 <= y < h
}

/// A fixed-size pixel grid. Pixel `(x, y)` is stored at index
/// `y * width + x` of `buffer`.
pub struct Framebuffer {
    pub width: usize,
    pub height: usize,
    pub buffer: Vec<u32>,
}

impl Framebuffer {
    /// The buffer always holds exactly `width * height` pixels.
    pub open spec fn wf(self) -> bool {
        self.buffer@.len() == self.width * self.height
    }

    /// The flat index of pixel `(x, y)`.
    pub open spec fn idx(self, x: int, y: int) -> int {
        y * self.width + x
    }

    /// Allocates a `width × height` grid with every pixel zero (black).
    pub fn new(width: usize, height: usize) -> (fb: Framebuffer)
        requires
            0 < width,
            0 < height,
            width * height <= usize::MAX,
        ensures
            fb.wf(),
            fb.width == width,
            fb.height == height,
            forall|i: int| 0 <= i < fb.buffer@.len() ==> fb.buffer@[i] == 0u32,
    {
        let n: usize = width * height;
        let mut buffer: Vec<u32> = Vec::new();
        let mut i: usize = 0;
        while i < n
            invariant
                buffer@.len() == i,
                i <= n,
                forall|j: int| 0 <= j < i ==> buffer@[j] == 0u32,
            decreases n - i,
        {
            buffer.push(0);
            i = i + 1;
        }
        Framebuffer { width, height, buffer }
    }

    /// Sets every pixel to `color`. Always succeeds; the grid size is
    /// unchanged.
    pub fn clear(&mut self, color: Color)
        requires
            old(self).wf(),
        ensures
            final(self).wf(),
            final(self).width == old(self).width,
            final(self).height == old(self).height,
            final(self).buffer@.len() == old(self).buffer@.len(),
            forall|i: int| 0 <= i < final(self).buffer@.len()
                ==> final(self).buffer@[i] == color.packed(),
    {
        let c = color.to_u32();
        let n: usize = self.buffer.len();
        let mut i: usize = 0;
        while i < n
            invariant
                self.buffer@.len() == n,
                i <= n,
                self.width == old(self).width,
                self.height == old(self).height,
                forall|j: int| 0 <= j < i ==> self.buffer@[j] == color.packed(),
                c == color.packed(),
            decreases n - i,
        {
            self.buffer.set(i, c);
            i = i + 1;
        }
    }

    /// Writes `color` at `(x, y)` only when the coordinates lie inside the
    /// grid; out-of-range coordinates leave the buffer untouched, silently.
    pub fn draw_pixel(&mut self, x: i32, y: i32, color: Color)
        requires
            old(self).wf(),
        ensures
            final(self).wf(),
            final(self).width == old(self).width,
            final(self).height == old(self).height,
            pix_in_bounds(x as int, y as int, old(self).width as int, old(self).height as int)
                ==> final(self).buffer@
                    == old(self).buffer@.update(old(self).idx(x as int, y as int), color.packed()),
            !pix_in_bounds(x as int, y as int, old(self).width as int, old(self).height as int)
                ==> *final(self) == *old(self),
    {
        if x >= 0 && y >= 0 && (x as usize) < self.width && (y as usize) < self.height {
            let len: usize = self.buffer.len();
            proof {
                assert((y as int) * (self.width as int) + (x as int)
                    < (self.width as int) * (self.height as int)) by (nonlinear_arith)
                    requires
                        0 <= x as int,
                        (x as int) < self.width as int,
                        0 <= y as int,
                        (y as int) < self.height as int;
            }
            let idx: usize = (y as usize) * self.width + (x as usize);
            let c = color.to_u32();
            self.buffer.set(idx, c);
        }
    }
}

/// The buffer left by [`Framebuffer::clear`] depends only on the grid size
/// and the color, never on the pixels it overwrote; so clearing twice with
/// the same color yields exactly the buffer of a single clear.
pub proof fn lemma_clear_idempotent(b1: Seq<u32>, b2: Seq<u32>, len: nat, c: u32)
    requires
        b1.len() == len,
        b2.len() == len,
        forall|i: int| 0 <= i < len ==> b1[i] == c,
        forall|i: int| 0 <= i < len ==> b2[i] == c,
    ensures
        b1 == b2,
{
    assert(b1 =~= b2);
}

} // verus!
