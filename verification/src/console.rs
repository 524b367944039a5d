//! The framebuffer console: a cursor over a pixel grid, stamping
//! pre-rasterised glyphs.
//!
//! Rasterising a character is done outside the crate (the font's alpha
//! blend is floating-point work); the console stores the finished glyph
//! pixels and does everything else: cursor movement, line wrapping,
//! clearing when the screen runs out, and the stamping bounds.

use vstd::prelude::*;
use crate::framebuffer::FrameBufferWriter;

verus! {

/// Pixel rows between lines of text.
pub const LINE_SPACING: usize = 2;

/// Pixel columns between characters.
pub const LETTER_SPACING: usize = 0;

/// Pixels kept free along the screen edges.
pub const BORDER_PADDING: usize = 1;

/// Height in pixel rows of every rasterised glyph.
pub const CHAR_RASTER_HEIGHT: usize = 16;

/// Width in pixel columns of every rasterised glyph.
pub const CHAR_RASTER_WIDTH: usize = 7;

/// The background color the screen is cleared to.
pub const DEFAULT_BACKGROUND_COLOR: u32 = 20 * 65536 + 20 * 256 + 20;

/// The glyph store handed over by the rasteriser: one pixel matrix per
/// character code, each with at least one row and small enough to stamp
/// without leaving the machine's integers.
pub open spec fn rendered_wf(chars: Seq<Vec<Vec<u32>>>) -> bool {
    forall|c: int|
        0 <= c < chars.len() ==> (#[trigger] chars[c])@.len() >= 1 && chars[c]@.len() <= 64
            && forall|i: int| 0 <= i < chars[c]@.len() ==> (#[trigger] chars[c]@[i])@.len() <= 64
}

/// Writes text as glyphs into an owned framebuffer.
pub struct Console {
    pub fb: FrameBufferWriter,
    pub rendered_chars: Option<Vec<Vec<Vec<u32>>>>,
    pub x_pos: usize,
    pub y_pos: usize,
    pub text_color_r: u8,
    pub text_color_g: u8,
    pub text_color_b: u8,
}

impl Console {
    pub open spec fn wf(self) -> bool {
        &&& self.fb.wf()
        &&& self.x_pos <= 40000
        &&& self.y_pos <= 40000
        &&& match self.rendered_chars {
            Some(chars) => rendered_wf(chars@),
            None => true,
        }
    }

    /// A console over the given framebuffer, cursor at the padded corner,
    /// white text, no glyphs rasterised yet.
    pub fn new(fb: FrameBufferWriter) -> (r: Console)
        requires
            fb.wf(),
        ensures
            r.wf(),
            r.fb == fb,
            r.rendered_chars is None,
            r.x_pos == BORDER_PADDING,
            r.y_pos == BORDER_PADDING,
            r.text_color_r == 255,
            r.text_color_g == 255,
            r.text_color_b == 255,
    {
        Console {
            fb,
            rendered_chars: None,
            x_pos: BORDER_PADDING,
            y_pos: BORDER_PADDING,
            text_color_r: 255,
            text_color_g: 255,
            text_color_b: 255,
        }
    }

    /// Stores the glyph matrices the rasteriser produced.  This crate does
    /// not rasterise: the font's per-pixel alpha blend is floating-point
    /// work and runs outside, handing its result in here.
    pub fn render_chars(&mut self, chars: Vec<Vec<Vec<u32>>>)
        requires
            old(self).wf(),
            rendered_wf(chars@),
        ensures
            final(self).wf(),
            *final(self) == (Console { rendered_chars: Some(chars), ..*old(self) }),
    {
        self.rendered_chars = Some(chars);
    }

    /// Clears the screen to the background color and returns the cursor to
    /// the padded corner.
    pub fn clear_screen(&mut self)
        requires
            old(self).wf(),
        ensures
            final(self).wf(),
            final(self).x_pos == BORDER_PADDING,
            final(self).y_pos == BORDER_PADDING,
            final(self).fb.width == old(self).fb.width,
            final(self).fb.height == old(self).fb.height,
            forall|k: int|
                0 <= k < final(self).fb.pixels@.len() ==> final(self).fb.pixels@[k]
                    == DEFAULT_BACKGROUND_COLOR,
            final(self).rendered_chars == old(self).rendered_chars,
            final(self).text_color_r == old(self).text_color_r,
            final(self).text_color_g == old(self).text_color_g,
            final(self).text_color_b == old(self).text_color_b,
    {
        self.x_pos = BORDER_PADDING;
        self.y_pos = BORDER_PADDING;
        self.fb.clear(DEFAULT_BACKGROUND_COLOR);
    }

    /// Moves the cursor one text line down and back to the left edge.
    pub fn newline(&mut self)
        requires
            old(self).wf(),
            old(self).y_pos + CHAR_RASTER_HEIGHT + LINE_SPACING <= 40000,
        ensures
            final(self).wf(),
            *final(self) == (Console {
                x_pos: BORDER_PADDING as usize,
                y_pos: (old(self).y_pos + CHAR_RASTER_HEIGHT + LINE_SPACING) as usize,
                ..*old(self)
            }),
    {
        self.y_pos = self.y_pos + CHAR_RASTER_HEIGHT + LINE_SPACING;
        self.carriage_return();
    }

    /// Returns the cursor to the left edge of the current line.
    pub fn carriage_return(&mut self)
        requires
            old(self).wf(),
        ensures
            final(self).wf(),
            *final(self) == (Console { x_pos: BORDER_PADDING as usize, ..*old(self) }),
    {
        self.x_pos = BORDER_PADDING;
    }

    /// Writes one character: newline and carriage return move the cursor;
    /// any other character wraps to a new line when the current one is
    /// full, clears the screen when the lines are used up (no scrolling),
    /// then stamps its glyph at the cursor and advances by the glyph's
    /// width.  A console with no glyph store only moves its cursor.  On a
    /// zero-sized framebuffer nothing happens at all.
    pub fn write_char(&mut self, c: char)
        requires
            old(self).wf(),
            old(self).y_pos + CHAR_RASTER_HEIGHT + LINE_SPACING <= 40000 - CHAR_RASTER_HEIGHT
                - LINE_SPACING,
            old(self).x_pos <= 40000 - 64,
        ensures
            final(self).wf(),
            final(self).fb.width == old(self).fb.width,
            final(self).fb.height == old(self).fb.height,
            final(self).rendered_chars == old(self).rendered_chars,
            old(self).fb.width == 0 || old(self).fb.height == 0 ==> *final(self) == *old(self),
            old(self).fb.width > 0 && old(self).fb.height > 0 ==> {
                if c == '\n' {
                    *final(self) == (Console {
                        x_pos: BORDER_PADDING as usize,
                        y_pos: (old(self).y_pos + CHAR_RASTER_HEIGHT + LINE_SPACING) as usize,
                        ..*old(self)
                    })
                } else if c == '\r' {
                    *final(self) == (Console { x_pos: BORDER_PADDING as usize, ..*old(self) })
                } else {
                    let x1: int = if old(self).x_pos + CHAR_RASTER_WIDTH >= old(self).fb.width {
                        BORDER_PADDING as int
                    } else {
                        old(self).x_pos as int
                    };
                    let y1: int = if old(self).x_pos + CHAR_RASTER_WIDTH >= old(self).fb.width {
                        old(self).y_pos + CHAR_RASTER_HEIGHT + LINE_SPACING
                    } else {
                        old(self).y_pos as int
                    };
                    let cleared = y1 + CHAR_RASTER_HEIGHT + BORDER_PADDING >= old(self).fb.height;
                    let x2: int = if cleared {
                        BORDER_PADDING as int
                    } else {
                        x1
                    };
                    let y2: int = if cleared {
                        BORDER_PADDING as int
                    } else {
                        y1
                    };
                    &&& final(self).y_pos == y2
                    &&& (cleared ==> forall|a: int, b: int|
                        0 <= a < old(self).fb.width && 0 <= b < old(self).fb.height && !(x2 <= a
                            < x2 + 64 && y2 <= b < y2 + 64) ==> #[trigger] final(self).fb.pixels@[b
                            * old(self).fb.width + a] == DEFAULT_BACKGROUND_COLOR)
                    &&& (!cleared ==> forall|a: int, b: int|
                        0 <= a < old(self).fb.width && 0 <= b < old(self).fb.height && !(x2 <= a
                            < x2 + 64 && y2 <= b < y2 + 64) ==> #[trigger] final(self).fb.pixels@[b
                            * old(self).fb.width + a] == old(self).fb.pixels@[b * old(
                            self,
                        ).fb.width + a])
                    &&& match old(self).rendered_chars {
                        None => final(self).x_pos == x2 && (!cleared ==> final(self).fb.pixels@
                            == old(self).fb.pixels@),
                        Some(chars) => {
                            if (c as int) < chars@.len() {
                                &&& final(self).x_pos == x2 + chars@[c as int]@[0]@.len()
                                    + LETTER_SPACING
                                &&& forall|gi: int, gj: int|
                                    0 <= gi < chars@[c as int]@.len() && 0 <= gj < chars@[
                                        c as int
                                    ]@[gi]@.len() && x2 + gj < old(self).fb.width && y2 + gi < old(
                                        self,
                                    ).fb.height ==> #[trigger] final(self).fb.pixels@[(y2 + gi)
                                        * old(self).fb.width + (x2 + gj)] == chars@[c as int]@[gi]@[gj]
                            } else {
                                final(self).x_pos == x2
                            }
                        },
                    }
                }
            },
    {
        if self.fb.width() == 0 || self.fb.height() == 0 {
            return ;
        }
        if c == '\n' {
            self.newline();
            return ;
        }
        if c == '\r' {
            self.carriage_return();
            return ;
        }
        let new_xpos = self.x_pos + CHAR_RASTER_WIDTH;
        if new_xpos >= self.fb.width() {
            self.newline();
        }
        let new_ypos = self.y_pos + CHAR_RASTER_HEIGHT + BORDER_PADDING;
        if new_ypos >= self.fb.height() {
            self.clear_screen();
        }
        let ghost mid = *self;
        proof {
            lemma_grid_in_bounds(
                self.fb.width as int,
                self.fb.height as int,
                self.fb.pixels@.len() as int,
            );
        }
        let c_idx = c as usize;
        proof {
            assert(c_idx as int == c as int);
        }
        let has_glyph = match &self.rendered_chars {
            Some(chars) => c_idx < chars.len(),
            None => false,
        };
        if !has_glyph {
            return ;
        }
        let x0 = self.x_pos;
        let y0 = self.y_pos;
        let ghost pixels_mid = self.fb.pixels@;
        let mut glyph_width: usize = 0;
        let rows = match &self.rendered_chars {
            Some(chars) => chars[c_idx].len(),
            None => 0,
        };
        let mut i: usize = 0;
        while i < rows
            invariant
                self.fb.wf(),
                self.fb.width == mid.fb.width,
                self.fb.height == mid.fb.height,
                self.rendered_chars == mid.rendered_chars,
                self.x_pos == mid.x_pos,
                self.y_pos == mid.y_pos,
                x0 == mid.x_pos,
                y0 == mid.y_pos,
                x0 <= 40000,
                y0 <= 40000,
                mid.wf(),
                c_idx as int == c as int,
                mid.rendered_chars matches Some(chars) && (c as int) < chars@.len() && rows
                    == chars@[c as int]@.len() && (forall|gi: int, gj: int|
                    0 <= gi < i && 0 <= gj < chars@[c as int]@[gi]@.len() && x0 + gj < mid.fb.width
                        && y0 + gi < mid.fb.height ==> #[trigger] self.fb.pixels@[(y0 + gi)
                        * mid.fb.width + (x0 + gj)] == chars@[c as int]@[gi]@[gj]),
                0 <= i <= rows,
                rows <= 64,
                forall|a: int, b: int|
                    0 <= a < mid.fb.width && 0 <= b < mid.fb.height && !(x0 <= a < x0 + 64 && y0
                        <= b < y0 + 64) ==> #[trigger] self.fb.pixels@[b * mid.fb.width + a]
                        == pixels_mid[b * mid.fb.width + a],
            decreases rows - i,
        {
            let cols = match &self.rendered_chars {
                Some(chars) => chars[c_idx][i].len(),
                None => 0,
            };
            let mut j: usize = 0;
            while j < cols
                invariant
                    self.fb.wf(),
                    self.fb.width == mid.fb.width,
                    self.fb.height == mid.fb.height,
                    self.rendered_chars == mid.rendered_chars,
                    self.x_pos == mid.x_pos,
                    self.y_pos == mid.y_pos,
                    x0 == mid.x_pos,
                    y0 == mid.y_pos,
                    x0 <= 40000,
                    y0 <= 40000,
                    mid.wf(),
                    c_idx as int == c as int,
                    mid.rendered_chars matches Some(chars) && (c as int) < chars@.len() && rows
                        == chars@[c as int]@.len() && i < rows && cols == chars@[c as int]@[
                        i as int
                    ]@.len() && (forall|gi: int, gj: int|
                        0 <= gi <= i && (if gi < i {
                            0 <= gj < chars@[c as int]@[gi]@.len()
                        } else {
                            0 <= gj < j
                        }) && x0 + gj < mid.fb.width && y0 + gi < mid.fb.height
                            ==> #[trigger] self.fb.pixels@[(y0 + gi) * mid.fb.width + (x0 + gj)]
                            == chars@[c as int]@[gi]@[gj]),
                    0 <= j <= cols,
                    cols <= 64,
                    rows <= 64,
                    forall|a: int, b: int|
                        0 <= a < mid.fb.width && 0 <= b < mid.fb.height && !(x0 <= a < x0 + 64 && y0
                            <= b < y0 + 64) ==> #[trigger] self.fb.pixels@[b * mid.fb.width + a]
                            == pixels_mid[b * mid.fb.width + a],
                decreases cols - j,
            {
                let pixel = match &self.rendered_chars {
                    Some(chars) => chars[c_idx][i][j],
                    None => 0,
                };
                let ghost pre = self.fb.pixels@;
                self.fb.set_pixel(x0 + j, y0 + i, pixel);
                proof {
                    if x0 + j < mid.fb.width && y0 + i < mid.fb.height {
                        let w = mid.fb.width as int;
                        let h = mid.fb.height as int;
                        let xi = (x0 + j) as int;
                        let yi = (y0 + i) as int;
                        assert(0 <= yi * w + xi < pre.len()) by (nonlinear_arith)
                            requires
                                0 <= xi < w,
                                0 <= yi < h,
                                pre.len() == w * h,
                        ;
                        assert(self.fb.pixels@ == pre.update(yi * w + xi, pixel));
                        assert(self.fb.pixels@[yi * w + xi] == pixel);
                        assert forall|a: int, b: int|
                            0 <= a < w && 0 <= b < h && !(a == xi && b == yi) implies #[trigger] self.fb.pixels@[
                            b * w + a] == pre[b * w + a] by {
                            assert(0 <= b * w + a < pre.len()) by (nonlinear_arith)
                                requires
                                    0 <= a < w,
                                    0 <= b < h,
                                    pre.len() == w * h,
                            ;
                            assert(b * w + a != ((y0 + i) as int) * w + ((x0 + j) as int))
                                by (nonlinear_arith)
                                requires
                                    0 <= a < w,
                                    0 <= (x0 + j) < w,
                                    !(a == x0 + j && b == y0 + i),
                            ;
                        }
                    }
                }
                j = j + 1;
            }
            i = i + 1;
        }
        match &self.rendered_chars {
            Some(chars) => {
                glyph_width = chars[c_idx][0].len();
            },
            None => (),
        }
        self.x_pos = x0 + glyph_width + LETTER_SPACING;
        proof {
            lemma_grid_in_bounds(
                mid.fb.width as int,
                mid.fb.height as int,
                mid.fb.pixels@.len() as int,
            );
        }
    }
}

/// Every in-range grid coordinate indexes inside the pixel vector.
proof fn lemma_grid_in_bounds(w: int, h: int, len: int)
    requires
        len == w * h,
    ensures
        forall|a: int, b: int| 0 <= a < w && 0 <= b < h ==> 0 <= #[trigger] (b * w + a) < len,
{
    assert forall|a: int, b: int| 0 <= a < w && 0 <= b < h implies 0 <= #[trigger] (b * w + a)
        < len by {
        assert(0 <= b * w + a < w * h) by (nonlinear_arith)
            requires
                0 <= a < w,
                0 <= b < h,
        ;
    }
}

} // verus!
