//! The VGA text-mode console: a fixed character grid written at the bottom
//! row, scrolled up a line at a time.
//!
//! The grid here is owned data standing for the text buffer the hardware
//! scans out; copying it to that memory is the caller's edge.

use vstd::prelude::*;
use vstd::string::StringSliceAdditionalSpecFns;

verus! {

/// Rows of the text buffer.
pub const BUFFER_HEIGHT: usize = 25;

/// Columns of the text buffer.
pub const BUFFER_WIDTH: usize = 80;

/// Cells of the whole text buffer.
pub const BUFFER_CELLS: usize = 2000;

/// The sixteen VGA colors.
#[derive(Clone, Copy, PartialEq, Eq, Structural, Debug)]
pub enum Color {
    Black,
    Blue,
    Green,
    Cyan,
    Red,
    Magenta,
    Brown,
    LightGray,
    DarkGray,
    LightBlue,
    LightGreen,
    LightCyan,
    LightRed,
    Pink,
    Yellow,
    White,
}

/// The hardware code of each color.
pub open spec fn color_code(c: Color) -> u8 {
    match c {
        Color::Black => 0,
        Color::Blue => 1,
        Color::Green => 2,
        Color::Cyan => 3,
        Color::Red => 4,
        Color::Magenta => 5,
        Color::Brown => 6,
        Color::LightGray => 7,
        Color::DarkGray => 8,
        Color::LightBlue => 9,
        Color::LightGreen => 10,
        Color::LightCyan => 11,
        Color::LightRed => 12,
        Color::Pink => 13,
        Color::Yellow => 14,
        Color::White => 15,
    }
}

impl Color {
    pub fn as_u8(self) -> (r: u8)
        ensures
            r == color_code(self),
    {
        match self {
            Color::Black => 0,
            Color::Blue => 1,
            Color::Green => 2,
            Color::Cyan => 3,
            Color::Red => 4,
            Color::Magenta => 5,
            Color::Brown => 6,
            Color::LightGray => 7,
            Color::DarkGray => 8,
            Color::LightBlue => 9,
            Color::LightGreen => 10,
            Color::LightCyan => 11,
            Color::LightRed => 12,
            Color::Pink => 13,
            Color::Yellow => 14,
            Color::White => 15,
        }
    }
}

/// Foreground and background packed the way the hardware reads them:
/// background in the high four bits.
#[derive(Clone, Copy, PartialEq, Eq, Structural, Debug)]
pub struct TextColor(pub u8);

impl TextColor {
    pub fn new(foreground_color: Color, background_color: Color) -> (r: TextColor)
        ensures
            r.0 == color_code(background_color) * 16 + color_code(foreground_color),
    {
        let fg = foreground_color.as_u8();
        let bg = background_color.as_u8();
        proof {
            assert((bg << 4) | fg == bg * 16 + fg) by (bit_vector)
                requires
                    fg < 16,
                    bg < 16,
            ;
        }
        TextColor((bg << 4) | fg)
    }
}

/// One cell of the text buffer.
#[derive(Clone, Copy, PartialEq, Eq, Structural, Debug)]
pub struct ScreenCharacter {
    pub ascii_character: u8,
    pub text_color: TextColor,
}

/// The character grid, row-major.
pub struct Buffer {
    pub chars: Vec<ScreenCharacter>,
}

impl Buffer {
    pub open spec fn wf(self) -> bool {
        self.chars@.len() == BUFFER_CELLS
    }

    pub fn write(&mut self, x: usize, y: usize, value: ScreenCharacter)
        requires
            old(self).wf(),
            x < BUFFER_WIDTH,
            y < BUFFER_HEIGHT,
        ensures
            final(self).chars@ == old(self).chars@.update(y * 80 + x, value),
    {
        self.chars[y * BUFFER_WIDTH + x] = value;
    }

    pub fn get(&self, x: usize, y: usize) -> (r: ScreenCharacter)
        requires
            self.wf(),
            x < BUFFER_WIDTH,
            y < BUFFER_HEIGHT,
        ensures
            r == self.chars@[y * 80 + x],
    {
        self.chars[y * BUFFER_WIDTH + x]
    }
}

/// The blank cell a cleared row is filled with.
pub open spec fn blank_cell(color: TextColor) -> ScreenCharacter {
    ScreenCharacter { ascii_character: 32, text_color: color }
}

/// The grid scrolled up one row, with the bottom row blanked.
pub open spec fn scrolled(chars: Seq<ScreenCharacter>, color: TextColor) -> Seq<ScreenCharacter> {
    Seq::new(
        2000,
        |k: int|
            if k < 1920 {
                chars[k + 80]
            } else {
                blank_cell(color)
            },
    )
}

/// One byte arriving at the writer: a newline scrolls; a byte at a full
/// row scrolls first; the byte lands in the bottom row at the cursor, which
/// advances.  Returns the new grid and cursor column.
pub open spec fn vga_write_byte(
    chars: Seq<ScreenCharacter>,
    x: int,
    color: TextColor,
    byte: u8,
) -> (Seq<ScreenCharacter>, int) {
    if byte == 10 {
        (scrolled(chars, color), 0)
    } else {
        let base = if x >= 80 {
            (scrolled(chars, color), 0)
        } else {
            (chars, x)
        };
        (base.0.update(1920 + base.1, ScreenCharacter { ascii_character: byte, text_color: color }),
        base.1 + 1)
    }
}

/// One byte of console text: printable bytes and newlines go through,
/// backspace erases one cell, anything else prints the replacement block.
pub open spec fn vga_write_filtered(
    chars: Seq<ScreenCharacter>,
    x: int,
    color: TextColor,
    byte: u8,
) -> (Seq<ScreenCharacter>, int) {
    if 0x20 <= byte <= 0x7e || byte == 10 {
        vga_write_byte(chars, x, color, byte)
    } else if byte == 8 {
        if x == 0 {
            (chars, 0)
        } else {
            (chars.update(1920 + (x - 1), blank_cell(color)), x - 1)
        }
    } else {
        vga_write_byte(chars, x, color, 0xfe)
    }
}

/// A whole string of console text, byte by byte.
pub open spec fn vga_write_bytes(
    chars: Seq<ScreenCharacter>,
    x: int,
    color: TextColor,
    bytes: Seq<u8>,
) -> (Seq<ScreenCharacter>, int)
    decreases bytes.len(),
{
    if bytes.len() == 0 {
        (chars, x)
    } else {
        let step = vga_write_filtered(chars, x, color, bytes[0]);
        vga_write_bytes(step.0, step.1, color, bytes.skip(1))
    }
}

proof fn lemma_vga_write_bytes_push(
    chars: Seq<ScreenCharacter>,
    x: int,
    color: TextColor,
    bytes: Seq<u8>,
    byte: u8,
)
    ensures
        vga_write_bytes(chars, x, color, bytes.push(byte)) == vga_write_filtered(
            vga_write_bytes(chars, x, color, bytes).0,
            vga_write_bytes(chars, x, color, bytes).1,
            color,
            byte,
        ),
    decreases bytes.len(),
{
    if bytes.len() == 0 {
        assert(bytes.push(byte)[0] == byte);
        assert(bytes.push(byte).skip(1) =~= Seq::<u8>::empty());
        let step = vga_write_filtered(chars, x, color, byte);
        assert(vga_write_bytes(step.0, step.1, color, Seq::<u8>::empty()) == (step.0, step.1));
        assert(vga_write_bytes(chars, x, color, bytes) == (chars, x));
    } else {
        let step = vga_write_filtered(chars, x, color, bytes[0]);
        lemma_vga_write_bytes_push(step.0, step.1, color, bytes.skip(1), byte);
        assert(bytes.push(byte)[0] == bytes[0]);
        assert(bytes.push(byte).skip(1) =~= bytes.skip(1).push(byte));
    }
}

/// Writes characters into the bottom row of the grid, scrolling as rows
/// fill.
pub struct Writer {
    pub x_position: usize,
    pub text_color: TextColor,
    pub buffer: Buffer,
}

impl Writer {
    pub open spec fn wf(self) -> bool {
        &&& self.buffer.wf()
        &&& self.x_position <= BUFFER_WIDTH
    }

    /// A writer over a blank grid in the given colors.
    pub fn new(text_color: TextColor) -> (r: Writer)
        ensures
            r.wf(),
            r.x_position == 0,
            r.text_color == text_color,
            forall|k: int| 0 <= k < 2000 ==> r.buffer.chars@[k] == blank_cell(text_color),
    {
        let mut chars: Vec<ScreenCharacter> = Vec::new();
        let mut i: usize = 0;
        while i < BUFFER_CELLS
            invariant
                i == chars@.len(),
                0 <= i <= 2000,
                forall|k: int| 0 <= k < i ==> chars@[k] == blank_cell(text_color),
            decreases BUFFER_CELLS - i,
        {
            chars.push(ScreenCharacter { ascii_character: 32, text_color });
            i = i + 1;
        }
        Writer { x_position: 0, text_color, buffer: Buffer { chars } }
    }

    /// Scrolls every row up one line, blanks the bottom row and returns the
    /// cursor to the left edge.
    fn new_line(&mut self)
        requires
            old(self).wf(),
        ensures
            final(self).wf(),
            final(self).text_color == old(self).text_color,
            final(self).buffer.chars@ == scrolled(old(self).buffer.chars@, old(self).text_color),
            final(self).x_position == 0,
    {
        let ghost chars0 = self.buffer.chars@;
        let mut i: usize = 1;
        while i < BUFFER_HEIGHT
            invariant
                self.wf(),
                self.text_color == old(self).text_color,
                1 <= i <= 25,
                chars0 == old(self).buffer.chars@,
                forall|k: int| 0 <= k < (i - 1) * 80 ==> self.buffer.chars@[k] == chars0[k + 80],
                forall|k: int| (i - 1) * 80 <= k < 2000 ==> self.buffer.chars@[k] == chars0[k],
            decreases BUFFER_HEIGHT - i,
        {
            let mut j: usize = 0;
            while j < BUFFER_WIDTH
                invariant
                    self.wf(),
                    self.text_color == old(self).text_color,
                    1 <= i < 25,
                    0 <= j <= 80,
                    chars0 == old(self).buffer.chars@,
                    forall|k: int|
                        0 <= k < (i - 1) * 80 + j ==> self.buffer.chars@[k] == chars0[k + 80],
                    forall|k: int|
                        (i - 1) * 80 + j <= k < 2000 ==> self.buffer.chars@[k] == chars0[k],
                decreases BUFFER_WIDTH - j,
            {
                let character = self.buffer.get(j, i);
                proof {
                    assert(i * 80 + j == ((i - 1) * 80 + j) + 80);
                }
                self.buffer.write(j, i - 1, character);
                j = j + 1;
            }
            i = i + 1;
        }
        self.clear_row(BUFFER_HEIGHT - 1);
        self.x_position = 0;
        proof {
            assert(final(self).buffer.chars@ =~= scrolled(chars0, old(self).text_color));
        }
    }

    /// Blanks one row.
    fn clear_row(&mut self, row: usize)
        requires
            old(self).wf(),
            row < BUFFER_HEIGHT,
        ensures
            final(self).wf(),
            final(self).text_color == old(self).text_color,
            final(self).x_position == old(self).x_position,
            forall|k: int|
                row * 80 <= k < row * 80 + 80 ==> final(self).buffer.chars@[k] == blank_cell(
                    old(self).text_color,
                ),
            forall|k: int|
                0 <= k < 2000 && !(row * 80 <= k < row * 80 + 80) ==> final(self).buffer.chars@[k]
                    == old(self).buffer.chars@[k],
    {
        let blank = ScreenCharacter { ascii_character: 32, text_color: self.text_color };
        let mut i: usize = 0;
        while i < BUFFER_WIDTH
            invariant
                self.wf(),
                self.text_color == old(self).text_color,
                self.x_position == old(self).x_position,
                row < 25,
                0 <= i <= 80,
                blank == blank_cell(old(self).text_color),
                forall|k: int|
                    row * 80 <= k < row * 80 + i ==> self.buffer.chars@[k] == blank_cell(
                        old(self).text_color,
                    ),
                forall|k: int|
                    0 <= k < 2000 && !(row * 80 <= k < row * 80 + i) ==> self.buffer.chars@[k]
                        == old(self).buffer.chars@[k],
            decreases BUFFER_WIDTH - i,
        {
            self.buffer.write(i, row, blank);
            i = i + 1;
        }
    }

    /// One byte: exactly [`vga_write_byte`] of the old state.
    pub fn write_byte(&mut self, byte: u8)
        requires
            old(self).wf(),
        ensures
            final(self).wf(),
            final(self).text_color == old(self).text_color,
            (final(self).buffer.chars@, final(self).x_position as int) == vga_write_byte(
                old(self).buffer.chars@,
                old(self).x_position as int,
                old(self).text_color,
                byte,
            ),
    {
        if byte == 10 {
            self.new_line();
            return ;
        }
        if self.x_position >= BUFFER_WIDTH {
            self.new_line();
        }
        let x = self.x_position;
        self.buffer.write(
            x,
            BUFFER_HEIGHT - 1,
            ScreenCharacter { ascii_character: byte, text_color: self.text_color },
        );
        self.x_position = x + 1;
    }

    /// Backspace: steps the cursor back over one cell and blanks it; at the
    /// left edge it does nothing.
    pub fn backspace(&mut self)
        requires
            old(self).wf(),
        ensures
            final(self).wf(),
            final(self).text_color == old(self).text_color,
            old(self).x_position == 0 ==> final(self).buffer.chars@ == old(self).buffer.chars@
                && final(self).x_position == 0,
            old(self).x_position > 0 ==> final(self).buffer.chars@ == old(self).buffer.chars@.update(
                1920 + (old(self).x_position - 1),
                blank_cell(old(self).text_color),
            ) && final(self).x_position == old(self).x_position - 1,
    {
        if self.x_position == 0 {
            return ;
        }
        self.x_position = self.x_position - 1;
        self.write_byte(32);
        self.x_position = self.x_position - 1;
    }

    /// A whole string: exactly [`vga_write_bytes`] of its bytes over the
    /// old state.
    pub fn write_string(&mut self, s: &str)
        requires
            old(self).wf(),
        ensures
            final(self).wf(),
            final(self).text_color == old(self).text_color,
            (final(self).buffer.chars@, final(self).x_position as int) == vga_write_bytes(
                old(self).buffer.chars@,
                old(self).x_position as int,
                old(self).text_color,
                s.spec_bytes(),
            ),
    {
        let bytes = s.as_bytes();
        let n = bytes.len();
        let mut i: usize = 0;
        while i < n
            invariant
                self.wf(),
                self.text_color == old(self).text_color,
                n == bytes@.len(),
                bytes@ == s.spec_bytes(),
                0 <= i <= n,
                (self.buffer.chars@, self.x_position as int) == vga_write_bytes(
                    old(self).buffer.chars@,
                    old(self).x_position as int,
                    old(self).text_color,
                    bytes@.take(i as int),
                ),
            decreases n - i,
        {
            proof {
                lemma_vga_write_bytes_push(
                    old(self).buffer.chars@,
                    old(self).x_position as int,
                    old(self).text_color,
                    bytes@.take(i as int),
                    bytes@[i as int],
                );
                assert(bytes@.take(i + 1) =~= bytes@.take(i as int).push(bytes@[i as int]));
            }
            let byte = bytes[i];
            if byte == 8 {
                self.backspace();
            } else if (0x20 <= byte && byte <= 0x7e) || byte == 10 {
                self.write_byte(byte);
            } else {
                self.write_byte(0xfe);
            }
            i = i + 1;
        }
        proof {
            assert(bytes@.take(n as int) =~= bytes@);
        }
    }
}

} // verus!
