//! A fixed-size boolean pixel grid.  `true` denotes foreground ("black"
//! ink), `false` background ("white").  The detectors only ever read it.

use vstd::prelude::*;
use vstd::pervasive::VecAdditionalExecFns;

verus! {

/// Largest accepted width or height of an image, so that every coordinate
/// product in the crate stays well inside the machine integer ranges.
pub const MAX_DIM: i32 = 32768;

/// A binary image: a `width` x `height` grid of boolean pixels, stored in
/// row-major order.
pub struct BitMatrix {
    width: i32,
    height: i32,
    bits: Vec<bool>,
}

impl BitMatrix {
    pub closed spec fn spec_width(&self) -> int {
        self.width as int
    }

    pub closed spec fn spec_height(&self) -> int {
        self.height as int
    }

    /// Structural well-formedness: bounded dimensions, one stored bit per
    /// pixel.
    pub closed spec fn wf(&self) -> bool {
        &&& 0 <= self.width <= MAX_DIM
        &&& 0 <= self.height <= MAX_DIM
        &&& self.bits@.len() == self.spec_width() * self.spec_height()
    }

    pub open spec fn in_bounds(&self, x: int, y: int) -> bool {
        0 <= x < self.spec_width() && 0 <= y < self.spec_height()
    }

    pub closed spec fn bit_at(&self, x: int, y: int) -> bool {
        self.bits@[y * self.spec_width() + x]
    }

    /// Whether the pixel at `(x, y)` is foreground.  Positions outside the
    /// image count as background, so the scanning logic can probe freely.
    pub open spec fn fg(&self, x: int, y: int) -> bool {
        self.in_bounds(x, y) && self.bit_at(x, y)
    }

    /// The dimension bounds that well-formedness guarantees.
    pub proof fn lemma_wf_dims(&self)
        requires
            self.wf(),
        ensures
            0 <= self.spec_width() <= MAX_DIM,
            0 <= self.spec_height() <= MAX_DIM,
    {
    }

    /// A fresh all-background image.
    pub fn new(width: i32, height: i32) -> (r: BitMatrix)
        requires
            0 <= width <= MAX_DIM,
            0 <= height <= MAX_DIM,
        ensures
            r.wf(),
            r.spec_width() == width,
            r.spec_height() == height,
            forall|x: int, y: int| !r.fg(x, y),
    {
        proof {
            assert((width as int) * (height as int) <= MAX_DIM * MAX_DIM) by (nonlinear_arith)
                requires
                    0 <= width <= MAX_DIM,
                    0 <= height <= MAX_DIM,
            ;
        }
        let n: usize = (width as usize) * (height as usize);
        let mut bits: Vec<bool> = Vec::new();
        let mut i: usize = 0;
        while i < n
            invariant
                i <= n,
                bits@.len() == i,
                forall|k: int| 0 <= k < i ==> !bits@[k],
            decreases n - i,
        {
            bits.push(false);
            i = i + 1;
        }
        let r = BitMatrix { width, height, bits };
        proof {
            assert forall|x: int, y: int| !r.fg(x, y) by {
                if r.in_bounds(x, y) {
                    assert(0 <= y * r.spec_width() + x < r.bits@.len()) by (nonlinear_arith)
                        requires
                            0 <= x < r.spec_width(),
                            0 <= y < r.spec_height(),
                            r.bits@.len() == r.spec_width() * r.spec_height(),
                    ;
                }
            }
        }
        r
    }

    pub fn getWidth(&self) -> (r: i32)
        requires
            self.wf(),
        ensures
            r == self.spec_width(),
            0 <= r <= MAX_DIM,
    {
        self.width
    }

    pub fn getHeight(&self) -> (r: i32)
        requires
            self.wf(),
        ensures
            r == self.spec_height(),
            0 <= r <= MAX_DIM,
    {
        self.height
    }

    /// Reads a pixel that is known to lie inside the image.
    pub fn get(&self, x: i32, y: i32) -> (r: bool)
        requires
            self.wf(),
            self.in_bounds(x as int, y as int),
        ensures
            r == self.fg(x as int, y as int),
    {
        proof {
            assert(0 <= (y as int) * self.spec_width() && (y as int) * self.spec_width() + x
                < self.spec_width() * self.spec_height() && self.spec_width() * self.spec_height()
                <= 0x4000_0000) by (nonlinear_arith)
                requires
                    0 <= x < self.spec_width(),
                    0 <= y < self.spec_height(),
                    self.spec_width() <= 32768,
                    self.spec_height() <= 32768,
            ;
        }
        let idx: usize = (y as usize) * (self.width as usize) + (x as usize);
        self.bits[idx]
    }

    /// Reads a pixel anywhere: positions outside the image report
    /// background.
    pub fn probe(&self, x: i32, y: i32) -> (r: bool)
        requires
            self.wf(),
        ensures
            r == self.fg(x as int, y as int),
    {
        if 0 <= x && x < self.width && 0 <= y && y < self.height {
            self.get(x, y)
        } else {
            false
        }
    }

    /// Writes one pixel.
    pub fn set(&mut self, x: i32, y: i32, value: bool)
        requires
            old(self).wf(),
            old(self).in_bounds(x as int, y as int),
        ensures
            final(self).wf(),
            final(self).spec_width() == old(self).spec_width(),
            final(self).spec_height() == old(self).spec_height(),
            forall|a: int, b: int|
                final(self).fg(a, b) == if a == x && b == y {
                    value
                } else {
                    old(self).fg(a, b)
                },
    {
        proof {
            assert(0 <= (y as int) * self.spec_width() && (y as int) * self.spec_width() + x
                < self.spec_width() * self.spec_height() && self.spec_width() * self.spec_height()
                <= 0x4000_0000) by (nonlinear_arith)
                requires
                    0 <= x < self.spec_width(),
                    0 <= y < self.spec_height(),
                    self.spec_width() <= 32768,
                    self.spec_height() <= 32768,
            ;
        }
        let idx: usize = (y as usize) * (self.width as usize) + (x as usize);
        self.bits.set(idx, value);
        proof {
            let w = self.spec_width();
            assert forall|a: int, b: int|
                final(self).fg(a, b) == if a == x && b == y {
                    value
                } else {
                    old(self).fg(a, b)
                } by {
                if self.in_bounds(a, b) {
                    assert(0 <= b * w + a < self.bits@.len()) by (nonlinear_arith)
                        requires
                            0 <= a < w,
                            0 <= b < self.spec_height(),
                            self.bits@.len() == w * self.spec_height(),
                    ;
                    if !(a == x && b == y) {
                        assert(b * w + a != (y as int) * w + x) by (nonlinear_arith)
                            requires
                                0 <= a < w,
                                0 <= x < w,
                                0 <= b,
                                0 <= y,
                                !(a == x && b == y),
                        ;
                    }
                }
            }
        }
    }
}

} // verus!
