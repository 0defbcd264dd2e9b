//! The text console: a grid of 80 by 25 cells, each a glyph byte followed by
//! a colour attribute byte, with a cursor and three ways to align a row.
//!
//! The driver owns the grid. Whoever drives real hardware copies `buffer` to
//! the video memory at `BUFFER_ADDRESS` after a change.
use vstd::prelude::*;
use vstd::string::StringSliceAdditionalSpecFns;
use vstd::slice::slice_subrange;
use crate::names::{LINE_FEED, SPACE, lemma_trim_nul, text_len, trim_nul};

verus! {

/// Where the video memory of the text mode lies.
pub const BUFFER_ADDRESS: u32 = 0xb8000;

/// Cells in a row.
pub const WINDOW_WIDTH: u32 = 80;

/// Rows on the screen.
pub const WINDOW_HEIGHT: u32 = 25;

/// The colour of a blank cell.
pub const DEFAULT_COLOR: u8 = 0x0;

/// Cells on the screen.
pub const WINDOW_CELLS: usize = 2000;

/// Bytes in the grid: two for each cell.
pub const BUFFER_BYTES: usize = 4000;

/// One cell as it is written: a glyph and its two colours.
pub struct AsciiSymbol {
    pub char_byte: u8,
    pub foreground_color_byte: u8,
    pub background_color_byte: u8,
}

/// How a row of text is laid out between the left and the right edge.
#[derive(Clone, Copy, Debug, PartialEq, Eq)]
pub enum Alignment {
    Left,
    Right,
    Center,
}

/// The colours the console is used with.
#[derive(Clone, Copy, Debug, PartialEq, Eq)]
pub enum Color {
    Black,
    Purple,
    White,
    Pink,
}

impl Color {
    /// The number of the colour in the text mode's palette.
    pub open spec fn spec_code(self) -> u8 {
        match self {
            Color::Black => 0x0u8,
            Color::Purple => 0x5u8,
            Color::White => 0xfu8,
            Color::Pink => 0xdu8,
        }
    }

    /// The number of the colour in the text mode's palette.
    pub fn code(self) -> (code: u8)
        ensures
            code == self.spec_code(),
    {
        match self {
            Color::Black => 0x0,
            Color::Purple => 0x5,
            Color::White => 0xf,
            Color::Pink => 0xd,
        }
    }
}

/// The column at which a fresh row starts under the given alignment.
pub open spec fn start_column(align: Alignment) -> int {
    match align {
        Alignment::Left => 0,
        Alignment::Right => 79,
        Alignment::Center => 0,
    }
}

/// The attribute byte of a cell: the background in the high half, the
/// foreground in the low half.
pub open spec fn attribute(foreground: u8, background: u8) -> u8 {
    (background << 4) | foreground
}

/// The cells of a blank screen: a space with the default colour in every cell.
pub open spec fn blank_cells() -> Seq<u8> {
    Seq::new(
        4000,
        |k: int|
            if k % 2 == 0 {
                0x20u8
            } else {
                0u8
            },
    )
}

/// What the console shows and where its cursor stands.
pub struct Screen {
    /// The grid, row by row: cell `k` is the glyph at `2 * k` and its attribute at `2 * k + 1`.
    pub cells: Seq<u8>,
    /// The row of the cursor.
    pub row: int,
    /// The column of the cursor; in a full row it stands one past the last cell.
    pub column: int,
    pub foreground: u8,
    pub background: u8,
    pub alignment: Alignment,
}

impl Screen {
    /// The grid has its size and the cursor is on the screen.
    pub open spec fn wf(self) -> bool {
        &&& self.cells.len() == 4000
        &&& 0 <= self.row < 25
        &&& 0 <= self.column <= 80
    }

    /// A blank screen with the cursor at the start of the first row.
    pub open spec fn blank(foreground: u8, background: u8, alignment: Alignment) -> Screen {
        Screen {
            cells: blank_cells(),
            row: 0,
            column: start_column(alignment),
            foreground,
            background,
            alignment,
        }
    }

    /// The glyphs on the screen, row by row, without the attributes.
    pub open spec fn glyphs(self) -> Seq<u8> {
        Seq::new(2000, |k: int| self.cells[2 * k])
    }

    /// The screen with the cell at `offset` overwritten.
    pub open spec fn write(self, offset: int, glyph: u8, attr: u8) -> Screen {
        Screen { cells: self.cells.update(2 * offset, glyph).update(2 * offset + 1, attr), ..self }
    }

    /// The screen moved up by one row; the last row is blank.
    pub open spec fn scroll(self) -> Screen {
        Screen {
            cells: Seq::new(
                4000,
                |k: int|
                    if k < 3840 {
                        self.cells[k + 160]
                    } else if k % 2 == 0 {
                        0x20u8
                    } else {
                        0u8
                    },
            ),
            ..self
        }
    }

    /// The cursor's row moved left by one cell; the last cell of the row stays.
    pub open spec fn shift_left(self) -> Screen {
        Screen {
            cells: Seq::new(
                4000,
                |k: int|
                    if self.row * 160 <= k < self.row * 160 + 158 {
                        self.cells[k + 2]
                    } else {
                        self.cells[k]
                    },
            ),
            ..self
        }
    }

    /// The cursor taken to the start of the next row; on the last row the
    /// screen scrolls instead.
    pub open spec fn newline(self) -> Screen {
        if self.row < 24 {
            Screen { row: self.row + 1, column: start_column(self.alignment), ..self }
        } else {
            Screen { column: start_column(self.alignment), ..self.scroll() }
        }
    }

    /// The screen after one byte was printed.
    ///
    /// A line feed starts a new row. Any other byte is a glyph; where the
    /// row is full, a new row is started first. A left-aligned glyph goes to
    /// the cursor, which moves on. A right-aligned glyph goes to the cursor
    /// after the row moved left. A centred glyph goes to the right of the
    /// middle, and the row moves left before every second glyph.
    pub open spec fn put(self, b: u8) -> Screen {
        if b == 0x0au8 {
            self.newline()
        } else {
            let s = if self.column >= 80 {
                self.newline()
            } else {
                self
            };
            let attr = attribute(s.foreground, s.background);
            match s.alignment {
                Alignment::Left => Screen {
                    column: s.column + 1,
                    ..s.write(s.row * 80 + s.column, b, attr)
                },
                Alignment::Right => s.shift_left().write(s.row * 80 + s.column, b, attr),
                Alignment::Center => {
                    let t = if s.column % 2 == 1 {
                        s.shift_left()
                    } else {
                        s
                    };
                    Screen {
                        column: s.column + 1,
                        ..t.write(s.row * 80 + 40 + s.column / 2, b, attr)
                    }
                },
            }
        }
    }

    /// The screen after the bytes were printed one after the other.
    pub open spec fn print(self, bytes: Seq<u8>) -> Screen
        decreases bytes.len(),
    {
        if bytes.len() == 0 {
            self
        } else {
            self.print(bytes.drop_last()).put(bytes.last())
        }
    }

    /// A blank screen with the colours and the alignment kept.
    pub open spec fn clear(self) -> Screen {
        Screen::blank(self.foreground, self.background, self.alignment)
    }

    /// The screen after the last glyph of a left-aligned row was taken back:
    /// the cursor steps left and the cell under it becomes a space. Nothing
    /// changes where the cursor stands within the first `prefix` columns, or
    /// where the row is not left-aligned.
    pub open spec fn erase_last(self, prefix: int) -> Screen {
        if self.alignment == Alignment::Left && self.column > prefix && self.column > 0 {
            Screen {
                column: self.column - 1,
                ..self.write(
                    self.row * 80 + self.column - 1,
                    0x20u8,
                    attribute(self.foreground, self.background),
                )
            }
        } else {
            self
        }
    }
}

/// Printing keeps the screen well-formed.
pub proof fn lemma_put_wf(s: Screen, b: u8)
    requires
        s.wf(),
    ensures
        s.put(b).wf(),
{
}

/// Printing keeps the screen well-formed, the colours and the alignment.
pub proof fn lemma_print_wf(s: Screen, bytes: Seq<u8>)
    requires
        s.wf(),
    ensures
        s.print(bytes).wf(),
        s.print(bytes).alignment == s.alignment,
        s.print(bytes).foreground == s.foreground,
        s.print(bytes).background == s.background,
    decreases bytes.len(),
{
    if bytes.len() > 0 {
        lemma_print_wf(s, bytes.drop_last());
        lemma_put_wf(s.print(bytes.drop_last()), bytes.last());
    }
}

/// Printing two texts one after the other is printing them joined.
pub proof fn lemma_print_concat(s: Screen, a: Seq<u8>, b: Seq<u8>)
    ensures
        s.print(a + b) == s.print(a).print(b),
    decreases b.len(),
{
    if b.len() == 0 {
        assert(a + b =~= a);
    } else {
        lemma_print_concat(s, a, b.drop_last());
        assert((a + b).drop_last() =~= a + b.drop_last());
        assert((a + b).last() == b.last());
    }
}

/// Printing one byte is printing the text made of it.
pub proof fn lemma_print_one(s: Screen, b: u8)
    ensures
        s.print(seq![b]) == s.put(b),
{
    assert(seq![b].drop_last() =~= Seq::<u8>::empty());
    reveal_with_fuel(Screen::print, 2);
}

/// The column at which a fresh row starts under the given alignment.
pub fn calculate_alignment(align: &Alignment) -> (column: u32)
    ensures
        column == start_column(*align),
{
    match align {
        Alignment::Left => 0,
        Alignment::Right => WINDOW_WIDTH - 1,
        Alignment::Center => 0,
    }
}

/// The console driver.
pub struct VGADriver {
    /// The grid: for each cell its glyph, then its attribute.
    buffer: [u8; BUFFER_BYTES],
    foreground_color: u8,
    background_color: u8,
    alignment: Alignment,
    current_column: u32,
    current_row: u32,
}

impl View for VGADriver {
    type V = Screen;

    closed spec fn view(&self) -> Screen {
        Screen {
            cells: self.buffer@,
            row: self.current_row as int,
            column: self.current_column as int,
            foreground: self.foreground_color,
            background: self.background_color,
            alignment: self.alignment,
        }
    }
}

impl VGADriver {
    /// The cursor is on the screen.
    pub open spec fn wf(&self) -> bool {
        self@.wf()
    }

    /// The grid: for each cell its glyph, then its attribute.
    pub fn buffer(&self) -> (buffer: &[u8; BUFFER_BYTES])
        ensures
            buffer@ == self@.cells,
    {
        &self.buffer
    }

    /// The colour of the glyphs that are printed.
    pub fn foreground_color(&self) -> (color: u8)
        ensures
            color == self@.foreground,
    {
        self.foreground_color
    }

    /// The colour behind the glyphs that are printed.
    pub fn background_color(&self) -> (color: u8)
        ensures
            color == self@.background,
    {
        self.background_color
    }

    /// How the rows are aligned.
    pub fn alignment(&self) -> (alignment: Alignment)
        ensures
            alignment == self@.alignment,
    {
        self.alignment
    }

    /// A driver with a blank screen and the cursor at the start of the first row.
    pub fn new(fr_color: Color, bg_color: Color, align: Alignment) -> (driver: VGADriver)
        ensures
            driver.wf(),
            driver@ == Screen::blank(fr_color.spec_code(), bg_color.spec_code(), align),
    {
        let mut driver = VGADriver {
            buffer: [0u8; BUFFER_BYTES],
            foreground_color: fr_color.code(),
            background_color: bg_color.code(),
            current_column: calculate_alignment(&align),
            alignment: align,
            current_row: 0,
        };
        driver.clear();
        driver
    }

    /// The row of the cursor.
    pub fn current_row(&self) -> (row: u32)
        ensures
            row == self@.row,
    {
        self.current_row
    }

    /// The column of the cursor.
    pub fn current_column(&self) -> (column: u32)
        ensures
            column == self@.column,
    {
        self.current_column
    }

    /// Writes `symbol` into the cell at `offset`.
    pub fn write_char(&mut self, offset: u32, symbol: AsciiSymbol)
        requires
            offset < WINDOW_CELLS,
        ensures
            final(self)@ == old(self)@.write(
                offset as int,
                symbol.char_byte,
                attribute(symbol.foreground_color_byte, symbol.background_color_byte),
            ),
    {
        let at: usize = offset as usize * 2;
        self.buffer[at] = symbol.char_byte;
        self.buffer[at + 1] = (symbol.background_color_byte << 4) | symbol.foreground_color_byte;
    }

    /// Writes the glyph `char` into the cell at `offset`, in the driver's colours.
    pub fn write_byte_char(&mut self, offset: u32, char: u8)
        requires
            offset < WINDOW_CELLS,
        ensures
            final(self)@ == old(self)@.write(
                offset as int,
                char,
                attribute(old(self)@.foreground, old(self)@.background),
            ),
    {
        let at: usize = offset as usize * 2;
        self.buffer[at] = char;
        self.buffer[at + 1] = (self.background_color << 4) | self.foreground_color;
    }

    /// Reads the cell at `offset`. The foreground byte of the result is the
    /// whole attribute, the background byte its low half moved up, so that
    /// writing the symbol back restores the cell.
    pub fn read_char(&self, offset: u32) -> (symbol: AsciiSymbol)
        requires
            offset < WINDOW_CELLS,
        ensures
            symbol.char_byte == self@.cells[2 * offset],
            symbol.foreground_color_byte == self@.cells[2 * offset + 1],
            symbol.background_color_byte == self@.cells[2 * offset + 1] << 4,
            attribute(symbol.foreground_color_byte, symbol.background_color_byte)
                == self@.cells[2 * offset + 1],
    {
        let at: usize = offset as usize * 2;
        let attr: u8 = self.buffer[at + 1];
        assert((((attr << 4) as u8) << 4) as u8 | attr == attr) by (bit_vector);
        AsciiSymbol {
            char_byte: self.buffer[at],
            foreground_color_byte: attr,
            background_color_byte: attr << 4,
        }
    }

    /// Moves every row up by one and blanks the last row.
    pub fn move_row(&mut self)
        ensures
            final(self)@ == old(self)@.scroll(),
    {
        let mut k: u32 = WINDOW_WIDTH;
        while k < WINDOW_HEIGHT * WINDOW_WIDTH
            invariant
                80 <= k <= 2000,
                self@.row == old(self)@.row,
                self@.column == old(self)@.column,
                self@.foreground == old(self)@.foreground,
                self@.background == old(self)@.background,
                self@.alignment == old(self)@.alignment,
                self@.cells.len() == 4000,
                forall|j: int|
                    0 <= j < 2 * (k - 80) ==> self@.cells[j] == old(self)@.cells[j + 160],
                forall|j: int| 2 * (k - 80) <= j < 4000 ==> self@.cells[j] == old(self)@.cells[j],
            decreases 2000 - k,
        {
            let symbol = self.read_char(k);
            self.write_char(k - WINDOW_WIDTH, symbol);
            k += 1;
        }
        let mut i: u32 = 0;
        while i < WINDOW_WIDTH
            invariant
                i <= 80,
                self@.row == old(self)@.row,
                self@.column == old(self)@.column,
                self@.foreground == old(self)@.foreground,
                self@.background == old(self)@.background,
                self@.alignment == old(self)@.alignment,
                self@.cells.len() == 4000,
                forall|j: int| 0 <= j < 3840 ==> self@.cells[j] == old(self)@.cells[j + 160],
                forall|j: int|
                    3840 <= j < 3840 + 2 * i ==> self@.cells[j] == (if j % 2 == 0 {
                        0x20u8
                    } else {
                        0u8
                    }),
            decreases 80 - i,
        {
            assert(attribute(0u8, 0u8) == 0u8) by (bit_vector);
            self.write_char(
                (WINDOW_HEIGHT - 1) * WINDOW_WIDTH + i,
                AsciiSymbol {
                    char_byte: SPACE,
                    foreground_color_byte: DEFAULT_COLOR,
                    background_color_byte: DEFAULT_COLOR,
                },
            );
            i += 1;
        }
        assert(self@.cells =~= old(self)@.scroll().cells);
    }

    /// Moves the cells of the cursor's row left by one; the last cell stays.
    pub fn move_char_to_left(&mut self)
        requires
            old(self).wf(),
        ensures
            final(self)@ == old(self)@.shift_left(),
    {
        let base: u32 = self.current_row * WINDOW_WIDTH;
        let mut i: u32 = 1;
        while i < WINDOW_WIDTH
            invariant
                1 <= i <= 80,
                base == old(self)@.row * 80,
                0 <= old(self)@.row < 25,
                self@.row == old(self)@.row,
                self@.column == old(self)@.column,
                self@.foreground == old(self)@.foreground,
                self@.background == old(self)@.background,
                self@.alignment == old(self)@.alignment,
                self@.cells.len() == 4000,
                forall|j: int|
                    2 * base <= j < 2 * base + 2 * (i - 1) ==> self@.cells[j] == old(self)@.cells[j
                        + 2],
                forall|j: int|
                    0 <= j < 4000 && !(2 * base <= j < 2 * base + 2 * (i - 1)) ==> self@.cells[j]
                        == old(self)@.cells[j],
            decreases 80 - i,
        {
            let symbol = self.read_char(base + i);
            self.write_char(base + i - 1, symbol);
            i += 1;
        }
        assert(self@.cells =~= old(self)@.shift_left().cells);
    }

    /// Takes the cursor to the start of the next row; on the last row the
    /// screen scrolls instead.
    pub fn new_line(&mut self)
        requires
            old(self).wf(),
        ensures
            final(self).wf(),
            final(self)@ == old(self)@.newline(),
    {
        if self.current_row < WINDOW_HEIGHT - 1 {
            self.current_row += 1;
        } else {
            self.move_row();
        }
        self.current_column = calculate_alignment(&self.alignment);
    }

    /// Prints one byte: a line feed starts a new row, any other byte is
    /// shown as a glyph where the alignment puts it.
    pub fn print_byte(&mut self, symbol: u8)
        requires
            old(self).wf(),
        ensures
            final(self).wf(),
            final(self)@ == old(self)@.put(symbol),
    {
        if symbol == LINE_FEED {
            self.new_line();
            return ;
        }
        if self.current_column >= WINDOW_WIDTH {
            self.new_line();
        }
        let symbol_to_print = AsciiSymbol {
            char_byte: symbol,
            foreground_color_byte: self.foreground_color,
            background_color_byte: self.background_color,
        };
        match self.alignment {
            Alignment::Left => {
                self.write_char(
                    self.current_row * WINDOW_WIDTH + self.current_column,
                    symbol_to_print,
                );
                self.current_column += 1;
            },
            Alignment::Right => {
                self.move_char_to_left();
                self.write_char(
                    self.current_row * WINDOW_WIDTH + self.current_column,
                    symbol_to_print,
                );
            },
            Alignment::Center => {
                if self.current_column % 2 == 1 {
                    self.move_char_to_left();
                }
                self.write_char(
                    self.current_row * WINDOW_WIDTH + WINDOW_WIDTH / 2 + self.current_column / 2,
                    symbol_to_print,
                );
                self.current_column += 1;
            },
        }
    }

    /// Prints the bytes one after the other.
    pub fn print_bytes(&mut self, bytes: &[u8])
        requires
            old(self).wf(),
        ensures
            final(self).wf(),
            final(self)@ == old(self)@.print(bytes@),
    {
        let mut i: usize = 0;
        while i < bytes.len()
            invariant
                i <= bytes@.len(),
                self.wf(),
                self@ == old(self)@.print(bytes@.subrange(0, i as int)),
            decreases bytes@.len() - i,
        {
            proof {
                let next = bytes@.subrange(0, i as int + 1);
                assert(next.drop_last() =~= bytes@.subrange(0, i as int));
            }
            self.print_byte(bytes[i]);
            i += 1;
        }
        assert(bytes@.subrange(0, i as int) =~= bytes@);
    }

    /// Prints the text of a NUL-padded buffer.
    pub fn print_text(&mut self, buffer: &[u8])
        requires
            old(self).wf(),
        ensures
            final(self).wf(),
            final(self)@ == old(self)@.print(trim_nul(buffer@)),
    {
        let n = text_len(buffer);
        proof {
            lemma_trim_nul(buffer@);
        }
        self.print_bytes(slice_subrange(buffer, 0, n));
    }

    /// Prints the bytes of the string one after the other.
    pub fn print(&mut self, s: &str)
        requires
            old(self).wf(),
        ensures
            final(self).wf(),
            final(self)@ == old(self)@.print(s.spec_bytes()),
    {
        self.print_bytes(s.as_bytes());
    }

    /// Blanks the screen and takes the cursor to the start of the first row.
    pub fn clear(&mut self)
        ensures
            final(self).wf(),
            final(self)@ == old(self)@.clear(),
    {
        let mut i: usize = 0;
        while i < WINDOW_CELLS
            invariant
                i <= 2000,
                self@.foreground == old(self)@.foreground,
                self@.background == old(self)@.background,
                self@.alignment == old(self)@.alignment,
                self@.cells.len() == 4000,
                forall|j: int| 0 <= j < 2 * i ==> self@.cells[j] == blank_cells()[j],
            decreases 2000 - i,
        {
            self.buffer[2 * i] = SPACE;
            self.buffer[2 * i + 1] = DEFAULT_COLOR;
            i += 1;
        }
        self.current_row = 0;
        self.current_column = calculate_alignment(&self.alignment);
        assert(self@.cells =~= blank_cells());
    }

    /// Takes back the last glyph of a left-aligned row, unless the cursor
    /// stands within the first `prefix` columns.
    pub fn delete_last_symbol(&mut self, prefix: u32)
        requires
            old(self).wf(),
        ensures
            final(self).wf(),
            final(self)@ == old(self)@.erase_last(prefix as int),
    {
        match self.alignment {
            Alignment::Left => {
                if self.current_column > prefix {
                    self.current_column -= 1;
                    self.write_byte_char(
                        self.current_row * WINDOW_WIDTH + self.current_column,
                        SPACE,
                    );
                }
            },
            _ => {},
        }
    }

    /// The glyphs on the screen, row by row.
    pub fn get_buffer(&self) -> (glyphs: [u8; WINDOW_CELLS])
        ensures
            glyphs@ == self@.glyphs(),
    {
        let mut glyphs = [SPACE; WINDOW_CELLS];
        let mut i: usize = 0;
        while i < WINDOW_CELLS
            invariant
                i <= 2000,
                forall|j: int| 0 <= j < i ==> glyphs@[j] == self@.cells[2 * j],
            decreases 2000 - i,
        {
            glyphs[i] = self.buffer[2 * i];
            i += 1;
        }
        assert(glyphs@ =~= self@.glyphs());
        glyphs
    }
}

} // verus!
