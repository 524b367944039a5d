//! The pixel framebuffer as owned data: a row-major pixel grid with the
//! drawing primitives the console uses.  Copying the grid into the scanout
//! memory the platform handed over is the caller's edge.

use vstd::prelude::*;

verus! {

/// Packs a color the way the scanout expects it: red, green, blue in the
/// low three bytes.
pub fn from_rgb(r: u8, g: u8, b: u8) -> (c: u32)
    ensures
        c == (r as int) * 65536 + (g as int) * 256 + b as int,
{
    let c = ((r as u32) << 16) | ((g as u32) << 8) | (b as u32);
    proof {
        assert(((r as u32) << 16) | ((g as u32) << 8) | (b as u32) == (r as u32) * 65536 + (
        g as u32) * 256 + (b as u32)) by (bit_vector);
    }
    c
}

/// The pixel grid.  The bounds keep every coordinate computation inside
/// the machine's integers; real displays sit far below them.
pub struct FrameBufferWriter {
    pub pixels: Vec<u32>,
    pub width: usize,
    pub height: usize,
}

impl FrameBufferWriter {
    pub open spec fn wf(self) -> bool {
        &&& self.pixels@.len() == self.width * self.height
        &&& self.width <= 32768
        &&& self.height <= 32768
    }

    /// A grid of the given size, all pixels dark.
    pub fn new(width: usize, height: usize) -> (r: FrameBufferWriter)
        requires
            width <= 32768,
            height <= 32768,
        ensures
            r.wf(),
            r.width == width,
            r.height == height,
            forall|k: int| 0 <= k < r.pixels@.len() ==> r.pixels@[k] == 0,
    {
        let mut pixels: Vec<u32> = Vec::new();
        proof {
            assert(width * height <= 32768 * 32768) by (nonlinear_arith)
                requires
                    width <= 32768,
                    height <= 32768,
            ;
        }
        let total = width * height;
        let mut i: usize = 0;
        while i < total
            invariant
                i == pixels@.len(),
                0 <= i <= total,
                forall|k: int| 0 <= k < i ==> pixels@[k] == 0,
            decreases total - i,
        {
            pixels.push(0);
            i = i + 1;
        }
        FrameBufferWriter { pixels, width, height }
    }

    /// Sets one pixel; a coordinate outside the grid draws nothing.
    pub fn set_pixel(&mut self, x: usize, y: usize, color: u32)
        requires
            old(self).wf(),
        ensures
            final(self).wf(),
            final(self).width == old(self).width,
            final(self).height == old(self).height,
            x < old(self).width && y < old(self).height ==> final(self).pixels@ == old(
                self,
            ).pixels@.update(y * old(self).width + x, color),
            !(x < old(self).width && y < old(self).height) ==> final(self).pixels@ == old(
                self,
            ).pixels@,
    {
        if x < self.width && y < self.height {
            let l = self.pixels.len();
            proof {
                assert(y * self.width + x < self.width * self.height) by (nonlinear_arith)
                    requires
                        x < self.width,
                        y < self.height,
                ;
                assert(y * self.width + x < l);
            }
            let idx = y * self.width + x;
            self.pixels[idx] = color;
        }
    }

    /// Fills a rectangle, clipped to the grid.
    pub fn fill_rect(&mut self, x: usize, y: usize, width: usize, height: usize, color: u32)
        requires
            old(self).wf(),
            x + width <= usize::MAX,
            y + height <= usize::MAX,
        ensures
            final(self).wf(),
            final(self).width == old(self).width,
            final(self).height == old(self).height,
            forall|i: int, j: int|
                0 <= j < old(self).height && 0 <= i < old(self).width
                    ==> #[trigger] final(self).pixels@[j * old(self).width + i] == (if x <= i < x
                    + width && y <= j < y + height {
                    color
                } else {
                    old(self).pixels@[j * old(self).width + i]
                }),
    {
        let mut j = y;
        while j < y + height
            invariant
                self.wf(),
                self.width == old(self).width,
                self.height == old(self).height,
                y <= j <= y + height,
                y + height <= usize::MAX,
                x + width <= usize::MAX,
                forall|a: int, b: int|
                    0 <= b < old(self).height && 0 <= a < old(self).width ==> #[trigger] self.pixels@[b
                        * old(self).width + a] == (if x <= a < x + width && y <= b < j {
                        color
                    } else {
                        old(self).pixels@[b * old(self).width + a]
                    }),
            decreases y + height - j,
        {
            let mut i = x;
            while i < x + width
                invariant
                    self.wf(),
                    self.width == old(self).width,
                    self.height == old(self).height,
                    y <= j < y + height,
                    x <= i <= x + width,
                    y + height <= usize::MAX,
                    x + width <= usize::MAX,
                    forall|a: int, b: int|
                        0 <= b < old(self).height && 0 <= a < old(self).width ==> #[trigger] self.pixels@[
                            b * old(self).width + a] == (if (x <= a < x + width && y <= b < j) || (b
                            == j && x <= a < i) {
                            color
                        } else {
                            old(self).pixels@[b * old(self).width + a]
                        }),
                decreases x + width - i,
            {
                let ghost pre = self.pixels@;
                self.set_pixel(i, j, color);
                proof {
                    if i < self.width && j < self.height {
                        let w = self.width as int;
                        let h = self.height as int;
                        assert((j as int) * w + i < pre.len()) by (nonlinear_arith)
                            requires
                                i < w,
                                0 <= (i as int),
                                0 <= (j as int),
                                j < h,
                                pre.len() == w * h,
                        ;
                        assert(self.pixels@ == pre.update(
                            (j as int) * old(self).width + i,
                            color,
                        ));
                        assert(self.pixels@[(j as int) * old(self).width + i] == color);
                        assert forall|a: int, b: int|
                            0 <= b < old(self).height && 0 <= a < old(self).width && !(b == j && a
                                == i) implies #[trigger] self.pixels@[b * old(self).width + a]
                            == pre[b * old(self).width + a] by {
                            assert(0 <= b * w + a < pre.len()) by (nonlinear_arith)
                                requires
                                    0 <= a < w,
                                    0 <= b < h,
                                    pre.len() == w * h,
                            ;
                            lemma_grid_index_injective(a, b, i as int, j as int, w);
                        }
                    }
                }
                i = i + 1;
            }
            j = j + 1;
        }
    }

    /// Fills the whole grid.
    pub fn clear(&mut self, color: u32)
        requires
            old(self).wf(),
        ensures
            final(self).wf(),
            final(self).width == old(self).width,
            final(self).height == old(self).height,
            forall|k: int| 0 <= k < final(self).pixels@.len() ==> final(self).pixels@[k] == color,
    {
        let w = self.width;
        let h = self.height;
        self.fill_rect(0, 0, w, h, color);
        proof {
            assert forall|k: int| 0 <= k < self.pixels@.len() implies self.pixels@[k] == color by {
                let b = k / (self.width as int);
                let a = k % (self.width as int);
                assert(self.width > 0) by (nonlinear_arith)
                    requires
                        self.pixels@.len() == self.width * self.height,
                        k < self.pixels@.len(),
                        0 <= k,
                ;
                assert(k == b * self.width + a && 0 <= a < self.width) by (nonlinear_arith)
                    requires
                        self.width > 0,
                        b == k / (self.width as int),
                        a == k % (self.width as int),
                ;
                assert(0 <= b < self.height) by (nonlinear_arith)
                    requires
                        self.pixels@.len() == self.width * self.height,
                        0 <= k < self.pixels@.len(),
                        b == k / (self.width as int),
                        self.width > 0,
                ;
            }
        }
    }

    /// Width of the grid in pixels.
    pub fn width(&self) -> (r: usize)
        ensures
            r == self.width,
    {
        self.width
    }

    /// Height of the grid in pixels.
    pub fn height(&self) -> (r: usize)
        ensures
            r == self.height,
    {
        self.height
    }
}

/// Distinct grid coordinates land on distinct cells.
proof fn lemma_grid_index_injective(a: int, b: int, i: int, j: int, width: int)
    requires
        0 <= a < width,
        0 <= i < width,
        !(a == i && b == j),
    ensures
        b * width + a != j * width + i,
{
    assert(b * width + a != j * width + i) by (nonlinear_arith)
        requires
            0 <= a < width,
            0 <= i < width,
            !(a == i && b == j),
    ;
}

} // verus!
