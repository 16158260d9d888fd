//! Text output on the VGA screen. The library keeps the screen's 25 rows of
//! 80 characters as values; the caller copies them to the VGA memory.
use vstd::prelude::*;

verus! {

use vstd::string::StringSliceAdditionalSpecFns;

pub const BRIGHT_BIT: u8 = 1 << 3;

pub const BLINK_BIT: u8 = 1 << 7;

pub const VGA_BUFFER_ROWS: usize = 25;

pub const VGA_BUFFER_COLUMNS: usize = 80;

/// Number of characters on the screen.
pub const VGA_BUFFER_CELLS: usize = 2000;

/// The sixteen VGA text colors. Depending on the setup, the bright bit of the
/// background color may be used as the blink bit.
#[derive(Clone, Copy, PartialEq, Eq, Debug)]
pub enum Color {
    Black,
    Blue,
    Green,
    Cyan,
    Red,
    Magenta,
    Brown,
    LightGray,
    DarkGray,
    LightBlue,
    LightGreen,
    LightCyan,
    LightRed,
    Pink,
    Yellow,
    White,
}

impl Color {
    /// The color's 4-bit code: the eight base colors are 0 to 7, and each
    /// bright color is its base color with the bright bit 3 set.
    pub open spec fn spec_value(&self) -> u8 {
        match self {
            Color::Black => 0,
            Color::Blue => 1,
            Color::Green => 2,
            Color::Cyan => 3,
            Color::Red => 4,
            Color::Magenta => 5,
            Color::Brown => 6,
            Color::LightGray => 7,
            Color::DarkGray => 8,
            Color::LightBlue => 9,
            Color::LightGreen => 10,
            Color::LightCyan => 11,
            Color::LightRed => 12,
            Color::Pink => 13,
            Color::Yellow => 14,
            Color::White => 15,
        }
    }

    /// The color's 4-bit code.
    #[verifier::when_used_as_spec(spec_value)]
    pub fn value(&self) -> (r: u8)
        ensures
            r == self.spec_value(),
    {
        assert(forall|x: u8| x < 8 ==> (x | 8u8) == x + 8) by (bit_vector);
        assert(BRIGHT_BIT == 8) by (bit_vector);
        match self {
            Color::Black => 0,
            Color::Blue => 1,
            Color::Green => 2,
            Color::Cyan => 3,
            Color::Red => 4,
            Color::Magenta => 5,
            Color::Brown => 6,
            Color::LightGray => 7,
            Color::DarkGray => 0 | BRIGHT_BIT,
            Color::LightBlue => 1 | BRIGHT_BIT,
            Color::LightGreen => 2 | BRIGHT_BIT,
            Color::LightCyan => 3 | BRIGHT_BIT,
            Color::LightRed => 4 | BRIGHT_BIT,
            Color::Pink => 5 | BRIGHT_BIT,
            Color::Yellow => 6 | BRIGHT_BIT,
            Color::White => 7 | BRIGHT_BIT,
        }
    }
}

/// What a color is made of on the VGA palette: its red, green and blue
/// parts and whether it is the bright form. Brown is dark yellow, pink is
/// light magenta, dark gray is bright black and white is bright light gray.
pub open spec fn color_components(c: Color) -> (bool, bool, bool, bool) {
    match c {
        Color::Black => (false, false, false, false),
        Color::Blue => (false, false, true, false),
        Color::Green => (false, true, false, false),
        Color::Cyan => (false, true, true, false),
        Color::Red => (true, false, false, false),
        Color::Magenta => (true, false, true, false),
        Color::Brown => (true, true, false, false),
        Color::LightGray => (true, true, true, false),
        Color::DarkGray => (false, false, false, true),
        Color::LightBlue => (false, false, true, true),
        Color::LightGreen => (false, true, false, true),
        Color::LightCyan => (false, true, true, true),
        Color::LightRed => (true, false, false, true),
        Color::Pink => (true, false, true, true),
        Color::Yellow => (true, true, false, true),
        Color::White => (true, true, true, true),
    }
}

/// The bit of a color code that stands for `on`.
pub open spec fn palette_bit(on: bool, weight: int) -> int {
    if on {
        weight
    } else {
        0
    }
}

/// A color's code is its VGA palette entry: blue is bit 0, green bit 1, red
/// bit 2 and the bright form bit 3.
pub proof fn lemma_color_code_is_palette_entry(c: Color)
    ensures
        c.spec_value() == palette_bit(color_components(c).2, 1) + palette_bit(
            color_components(c).1,
            2,
        ) + palette_bit(color_components(c).0, 4) + palette_bit(color_components(c).3, 8),
        c.spec_value() < 16,
{
}

/// Different colors have different codes.
pub proof fn lemma_color_codes_distinct(c1: Color, c2: Color)
    ensures
        c1.spec_value() == c2.spec_value() <==> c1 == c2,
{
}

/// A foreground color in bits 0..4 and a background color in bits 4..8.
#[derive(Clone, Copy, PartialEq, Eq, Debug)]
pub struct ColorCode(pub u8);

impl ColorCode {
    /// The code for `foreground` on `background`.
    pub fn new(foreground: Color, background: Color) -> (r: Self)
        ensures
            r.0 == foreground.spec_value() + background.spec_value() * 16,
    {
        let fg = foreground.value();
        let bg = background.value();
        let r = fg | bg << 4u8;
        assert(r == fg + bg * 16) by (bit_vector)
            requires
                r == fg | bg << 4u8,
                fg < 16,
                bg < 16,
        ;
        ColorCode(r)
    }

    /// The same code with the blink bit 7 set.
    pub fn blink(self) -> (r: Self)
        ensures
            r.0 == self.0 | BLINK_BIT,
    {
        ColorCode(self.0 | BLINK_BIT)
    }
}

/// A character on the screen and its colors.
#[derive(Clone, Copy, PartialEq, Eq, Debug)]
pub struct ScreenChar {
    pub ascii_char: u8,
    pub color_code: ColorCode,
}

/// A space, black on black.
pub open spec fn blank_char() -> ScreenChar {
    ScreenChar { ascii_char: 0x20, color_code: ColorCode(0) }
}

impl ScreenChar {
    /// `ascii_char` in the colors `color_code`.
    pub fn new(ascii_char: u8, color_code: ColorCode) -> (r: Self)
        ensures
            r.ascii_char == ascii_char,
            r.color_code == color_code,
    {
        ScreenChar { ascii_char, color_code }
    }

    /// A space, black on black.
    pub fn blank() -> (r: Self)
        ensures
            r == blank_char(),
    {
        Self::new(0x20, ColorCode::new(Color::Black, Color::Black))
    }
}

/// Position of the character at `row` and `col` in the row-major buffer.
pub open spec fn cell_index(row: int, col: int) -> int {
    row * 80 + col
}

/// The characters of the screen, row by row.
pub struct VgaBuffer {
    cells: [ScreenChar; 2000],
}

impl View for VgaBuffer {
    type V = Seq<ScreenChar>;

    /// The characters, row by row.
    closed spec fn view(&self) -> Seq<ScreenChar> {
        self.cells@
    }
}

impl VgaBuffer {
    /// A buffer holds exactly one screen of characters.
    pub proof fn lemma_len(&self)
        ensures
            self@.len() == VGA_BUFFER_CELLS,
    {
    }

    /// The buffer holding `cells`, row by row.
    pub fn from_cells(cells: [ScreenChar; 2000]) -> (r: Self)
        ensures
            r@ == cells@,
    {
        VgaBuffer { cells }
    }

    /// A screen of blanks.
    pub fn blank() -> (r: Self)
        ensures
            r@ == Seq::new(VGA_BUFFER_CELLS as nat, |i: int| blank_char()),
    {
        let r = VgaBuffer { cells: [ScreenChar::blank();2000] };
        assert(r@ =~= Seq::new(VGA_BUFFER_CELLS as nat, |i: int| blank_char()));
        r
    }

    /// The character at `row`, `col`, which must be on the screen.
    pub fn read_char(&self, row: usize, col: usize) -> (r: ScreenChar)
        requires
            row < VGA_BUFFER_ROWS,
            col < VGA_BUFFER_COLUMNS,
        ensures
            r == self@[cell_index(row as int, col as int)],
    {
        self.cells[row * VGA_BUFFER_COLUMNS + col]
    }

    /// Puts `ch` at `row`, `col`, under the same condition as `read_char`.
    pub fn write_char(&mut self, row: usize, col: usize, ch: ScreenChar)
        requires
            row < VGA_BUFFER_ROWS,
            col < VGA_BUFFER_COLUMNS,
        ensures
            final(self)@ == old(self)@.update(cell_index(row as int, col as int), ch),
        no_unwind
    {
        self.cells[row * VGA_BUFFER_COLUMNS + col] = ch;
    }

    /// The characters of row `idx`, which must be on the screen.
    pub fn read_row(&self, idx: usize) -> (r: [ScreenChar; 80])
        requires
            idx < VGA_BUFFER_ROWS,
        ensures
            r@ == self@.subrange(cell_index(idx as int, 0), cell_index(idx as int, 80)),
    {
        let mut row = [ScreenChar::blank();80];
        let base = idx * VGA_BUFFER_COLUMNS;
        for col in 0..VGA_BUFFER_COLUMNS
            invariant
                base == cell_index(idx as int, 0),
                idx < VGA_BUFFER_ROWS,
                forall|c: int| 0 <= c < col ==> #[trigger] row@[c] == self@[base + c],
        {
            row[col] = self.cells[base + col];
        }
        assert(row@ =~= self@.subrange(cell_index(idx as int, 0), cell_index(idx as int, 80)));
        row
    }

    /// Replaces row `idx` by `row`, under the same condition as `read_row`.
    pub fn write_row(&mut self, idx: usize, row: [ScreenChar; 80])
        requires
            idx < VGA_BUFFER_ROWS,
        ensures
            final(self)@ == old(self)@.subrange(0, cell_index(idx as int, 0)) + row@ + old(
                self,
            )@.subrange(cell_index(idx as int, 80), VGA_BUFFER_CELLS as int),
        no_unwind
    {
        let base = idx * VGA_BUFFER_COLUMNS;
        let mut col: usize = 0;
        while col < VGA_BUFFER_COLUMNS
            invariant
                col <= VGA_BUFFER_COLUMNS,
                base == cell_index(idx as int, 0),
                idx < VGA_BUFFER_ROWS,
                forall|i: int|
                    0 <= i < VGA_BUFFER_CELLS ==> #[trigger] self@[i] == if base <= i < base + col {
                        row@[i - base]
                    } else {
                        old(self)@[i]
                    },
            decreases VGA_BUFFER_COLUMNS - col,
        {
            let ghost before = self@;
            self.cells[base + col] = row[col];
            assert(self@ == before.update(base + col, row@[col as int]));
            col = col + 1;
        }
        assert(self@ =~= old(self)@.subrange(0, cell_index(idx as int, 0)) + row@ + old(
            self,
        )@.subrange(cell_index(idx as int, 80), VGA_BUFFER_CELLS as int));
    }
}

/// What the screen shows and where the cursor is.
pub ghost struct ScreenState {
    pub row: int,
    pub col: int,
    pub cells: Seq<ScreenChar>,
    pub color_code: ColorCode,
}

/// The cursor is on the screen (the column may be one past the last, until the
/// next character wraps) and the screen is complete.
pub open spec fn valid_state(s: ScreenState) -> bool {
    &&& 0 <= s.row < VGA_BUFFER_ROWS
    &&& 0 <= s.col <= VGA_BUFFER_COLUMNS
    &&& s.cells.len() == VGA_BUFFER_CELLS
}

/// The rows moved up by one: the first row is dropped and a blank row enters
/// at the bottom.
pub open spec fn scrolled(cells: Seq<ScreenChar>) -> Seq<ScreenChar> {
    cells.subrange(VGA_BUFFER_COLUMNS as int, VGA_BUFFER_CELLS as int) + Seq::new(
        VGA_BUFFER_COLUMNS as nat,
        |i: int| blank_char(),
    )
}

/// A new line: the cursor moves to the start of the next row, and where it is
/// on the last row already, the rows scroll up instead.
pub open spec fn after_new_line(s: ScreenState) -> ScreenState {
    if s.row + 1 < VGA_BUFFER_ROWS {
        ScreenState { row: s.row + 1, col: 0, cells: s.cells, color_code: s.color_code }
    } else {
        ScreenState { row: s.row, col: 0, cells: scrolled(s.cells), color_code: s.color_code }
    }
}

/// A new line on the last row scrolls: each cell of rows 0 to 23 shows what
/// the cell one row below it showed, the last row is blank, and the cursor
/// moves to the start of the last row. On any other row the screen stays as
/// it is and the cursor moves to the start of the next row.
pub proof fn lemma_new_line_scrolls(s: ScreenState)
    requires
        valid_state(s),
    ensures
        after_new_line(s).cells.len() == VGA_BUFFER_CELLS,
        after_new_line(s).col == 0,
        after_new_line(s).color_code == s.color_code,
        s.row == VGA_BUFFER_ROWS - 1 ==> {
            &&& after_new_line(s).row == s.row
            &&& forall|i: int|
                0 <= i < VGA_BUFFER_CELLS - VGA_BUFFER_COLUMNS ==> #[trigger] after_new_line(
                    s,
                ).cells[i] == s.cells[i + VGA_BUFFER_COLUMNS]
            &&& forall|i: int|
                VGA_BUFFER_CELLS - VGA_BUFFER_COLUMNS <= i < VGA_BUFFER_CELLS
                    ==> #[trigger] after_new_line(s).cells[i] == blank_char()
        },
        s.row < VGA_BUFFER_ROWS - 1 ==> {
            &&& after_new_line(s).row == s.row + 1
            &&& after_new_line(s).cells == s.cells
        },
{
}

/// The byte shown for `ch`: printable ASCII as it is, anything else as 0xfe.
pub open spec fn shown_byte(ch: u8) -> u8 {
    if 0x20 <= ch <= 0x7e {
        ch
    } else {
        0xfe
    }
}

/// One byte of output. A cursor past the last column first moves to a new
/// line; then `\n` starts a new line, `\r` returns to the start of the row,
/// and any other byte is shown at the cursor, which moves right.
pub open spec fn after_put_char(s: ScreenState, ch: u8) -> ScreenState {
    let s1 = if s.col == VGA_BUFFER_COLUMNS {
        after_new_line(s)
    } else {
        s
    };
    if ch == 0x0a {
        after_new_line(s1)
    } else if ch == 0x0d {
        ScreenState { row: s1.row, col: 0, cells: s1.cells, color_code: s1.color_code }
    } else {
        ScreenState {
            row: s1.row,
            col: s1.col + 1,
            cells: s1.cells.update(
                cell_index(s1.row, s1.col),
                ScreenChar { ascii_char: shown_byte(ch), color_code: s1.color_code },
            ),
            color_code: s1.color_code,
        }
    }
}

/// The bytes of `bytes` output one after another.
pub open spec fn after_puts(s: ScreenState, bytes: Seq<u8>) -> ScreenState
    decreases bytes.len(),
{
    if bytes.len() == 0 {
        s
    } else {
        after_put_char(after_puts(s, bytes.drop_last()), bytes.last())
    }
}

/// Output of two strings in turn is output of the two joined.
pub proof fn lemma_puts_concat(s: ScreenState, first: Seq<u8>, second: Seq<u8>)
    ensures
        after_puts(s, first + second) == after_puts(after_puts(s, first), second),
    decreases second.len(),
{
    if second.len() == 0 {
        assert(first + second =~= first);
    } else {
        lemma_puts_concat(s, first, second.drop_last());
        assert((first + second).drop_last() =~= first + second.drop_last());
        assert((first + second).last() == second.last());
    }
}

/// Output keeps the cursor on the screen and the screen complete.
pub proof fn lemma_puts_keeps_state_valid(s: ScreenState, bytes: Seq<u8>)
    requires
        valid_state(s),
    ensures
        valid_state(after_puts(s, bytes)),
    decreases bytes.len(),
{
    if bytes.len() > 0 {
        lemma_puts_keeps_state_valid(s, bytes.drop_last());
    }
}

/// The VGA text screen with a cursor and the colors it writes in.
pub struct Screen {
    row: usize,
    col: usize,
    buffer: VgaBuffer,
    color_code: ColorCode,
}

impl View for Screen {
    type V = ScreenState;

    closed spec fn view(&self) -> ScreenState {
        ScreenState {
            row: self.row as int,
            col: self.col as int,
            cells: self.buffer@,
            color_code: self.color_code,
        }
    }
}

impl Screen {
    #[verifier::type_invariant]
    spec fn cursor_on_screen(self) -> bool {
        &&& self.row < VGA_BUFFER_ROWS
        &&& self.col <= VGA_BUFFER_COLUMNS
    }

    /// A screen showing `buffer`, with the cursor at the start of the last row
    /// (so that output always shows on the last line), writing yellow on
    /// black.
    pub fn with_buffer(buffer: VgaBuffer) -> (r: Self)
        ensures
            valid_state(r@),
            r@ == (ScreenState {
                row: VGA_BUFFER_ROWS - 1,
                col: 0,
                cells: buffer@,
                color_code: ColorCode(0x0e),
            }),
    {
        Screen {
            row: VGA_BUFFER_ROWS - 1,
            col: 0,
            buffer,
            color_code: ColorCode::new(Color::Yellow, Color::Black),
        }
    }

    /// A blank screen with the cursor at the start of the last row (so that
    /// output always shows on the last line), writing yellow on black.
    pub fn new() -> (r: Self)
        ensures
            valid_state(r@),
            r@ == (ScreenState {
                row: VGA_BUFFER_ROWS - 1,
                col: 0,
                cells: Seq::new(VGA_BUFFER_CELLS as nat, |i: int| blank_char()),
                color_code: ColorCode(0x0e),
            }),
    {
        Screen {
            row: VGA_BUFFER_ROWS - 1,
            col: 0,
            buffer: VgaBuffer::blank(),
            color_code: ColorCode::new(Color::Yellow, Color::Black),
        }
    }

    /// The characters on the screen.
    pub fn buffer(&self) -> (r: &VgaBuffer)
        ensures
            r@ == self@.cells,
    {
        &self.buffer
    }

    /// Starts a new line below the cursor; on the last row, moves all rows up
    /// and discards the first one.
    pub fn new_line(&mut self)
        ensures
            valid_state(old(self)@),
            final(self)@ == after_new_line(old(self)@),
            valid_state(final(self)@),
            final(self)@.col == 0,
            old(self)@.row < VGA_BUFFER_ROWS - 1 ==> final(self)@.row == old(self)@.row + 1
                && final(self)@.cells == old(self)@.cells,
            old(self)@.row == VGA_BUFFER_ROWS - 1 ==> final(self)@.row == old(self)@.row,
            old(self)@.row == VGA_BUFFER_ROWS - 1 ==> forall|i: int|
                0 <= i < VGA_BUFFER_CELLS - VGA_BUFFER_COLUMNS ==> #[trigger] final(self)@.cells[i]
                    == old(self)@.cells[i + VGA_BUFFER_COLUMNS],
            old(self)@.row == VGA_BUFFER_ROWS - 1 ==> forall|i: int|
                VGA_BUFFER_CELLS - VGA_BUFFER_COLUMNS <= i < VGA_BUFFER_CELLS
                    ==> #[trigger] final(self)@.cells[i] == blank_char(),
    {
        proof {
            use_type_invariant(&*self);
        }
        if self.row + 1 < VGA_BUFFER_ROWS {
            self.row = self.row + 1;
            self.col = 0;
            return ;
        }
        // Move all rows up.
        for r in 0..(VGA_BUFFER_ROWS - 1)
            invariant
                self.row == old(self).row,
                self.col == old(self).col,
                self.row < VGA_BUFFER_ROWS,
                self.col <= VGA_BUFFER_COLUMNS,
                self.color_code == old(self).color_code,
                self@.cells.len() == VGA_BUFFER_CELLS,
                old(self)@.cells.len() == VGA_BUFFER_CELLS,
                forall|i: int|
                    0 <= i < VGA_BUFFER_CELLS ==> #[trigger] self@.cells[i] == if i < cell_index(
                        r as int,
                        0,
                    ) {
                        old(self)@.cells[i + VGA_BUFFER_COLUMNS]
                    } else {
                        old(self)@.cells[i]
                    },
        {
            let lower_row = self.buffer.read_row(r + 1);
            self.buffer.write_row(r, lower_row);
        }
        // Clear the last row.
        self.buffer.write_row(VGA_BUFFER_ROWS - 1, [ScreenChar::blank();80]);
        // The cursor row stays.
        self.col = 0;
        assert(self@.cells =~= scrolled(old(self)@.cells));
    }

    /// Shows one byte and moves the cursor (see `after_put_char`).
    pub fn put_char(&mut self, ch: u8)
        ensures
            valid_state(old(self)@),
            final(self)@ == after_put_char(old(self)@, ch),
            valid_state(final(self)@),
    {
        proof {
            use_type_invariant(&*self);
        }
        if self.col == VGA_BUFFER_COLUMNS {
            self.new_line();
        }
        match ch {
            0x0a => self.new_line(),
            0x0d => self.col = 0,
            _ => {
                let mut byte = ch;
                // Unprintable char
                if !(0x20u8..=0x7eu8).contains(&byte) {
                    byte = 0xfe;
                }
                let ch = ScreenChar::new(byte, self.color_code);
                self.buffer.write_char(self.row, self.col, ch);
                self.col = self.col + 1;
            },
        }
    }

    /// Shows each byte of `s` in turn (see `put_char`).
    pub fn puts(&mut self, s: &str)
        ensures
            valid_state(old(self)@),
            final(self)@ == after_puts(old(self)@, s.spec_bytes()),
            valid_state(final(self)@),
    {
        proof {
            use_type_invariant(&*self);
        }
        let bytes = s.as_bytes();
        for i in 0..bytes.len()
            invariant
                bytes@ == s.spec_bytes(),
                valid_state(self@),
                self@ == after_puts(old(self)@, bytes@.take(i as int)),
        {
            self.put_char(bytes[i]);
            assert(bytes@.take(i + 1).drop_last() =~= bytes@.take(i as int));
        }
        assert(bytes@.take(bytes.len() as int) =~= bytes@);
    }
}

} // verus!
