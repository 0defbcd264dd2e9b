use unios::vga_buf::{calculate_alignment, Alignment, AsciiSymbol, Color, VGADriver};

fn row_text(driver: &VGADriver, row: usize) -> String {
    let glyphs = driver.get_buffer();
    glyphs[row * 80..row * 80 + 80].iter().map(|b| *b as char).collect()
}

fn glyph(driver: &VGADriver, row: usize, column: usize) -> u8 {
    driver.buffer()[2 * (row * 80 + column)]
}

fn attribute(driver: &VGADriver, row: usize, column: usize) -> u8 {
    driver.buffer()[2 * (row * 80 + column) + 1]
}

#[test]
fn alignment_gives_the_start_column() {
    assert_eq!(calculate_alignment(&Alignment::Left), 0);
    assert_eq!(calculate_alignment(&Alignment::Right), 79);
    assert_eq!(calculate_alignment(&Alignment::Center), 0);
}

#[test]
fn colors_have_their_palette_numbers() {
    assert_eq!(Color::Black.code(), 0x0);
    assert_eq!(Color::Purple.code(), 0x5);
    assert_eq!(Color::White.code(), 0xf);
    assert_eq!(Color::Pink.code(), 0xd);
}

#[test]
fn new_driver_is_blank() {
    let driver = VGADriver::new(Color::Pink, Color::Black, Alignment::Left);
    assert_eq!(driver.current_row(), 0);
    assert_eq!(driver.current_column(), 0);
    assert_eq!(driver.alignment(), Alignment::Left);
    for cell in 0..2000 {
        assert_eq!(driver.buffer()[2 * cell], b' ');
        assert_eq!(driver.buffer()[2 * cell + 1], 0);
    }
}

#[test]
fn new_right_aligned_driver_starts_at_the_last_column() {
    let driver = VGADriver::new(Color::White, Color::Black, Alignment::Right);
    assert_eq!(driver.current_row(), 0);
    assert_eq!(driver.current_column(), 79);
}

#[test]
fn write_char_packs_the_colours() {
    let mut driver = VGADriver::new(Color::White, Color::Black, Alignment::Left);
    driver.write_char(
        5,
        AsciiSymbol { char_byte: b'x', foreground_color_byte: 0x5, background_color_byte: 0xd },
    );
    assert_eq!(driver.buffer()[10], b'x');
    assert_eq!(driver.buffer()[11], 0xd5);
    assert_eq!(driver.buffer()[8], b' ');
    assert_eq!(driver.buffer()[12], b' ');
}

#[test]
fn write_byte_char_uses_the_drivers_colours() {
    let mut driver = VGADriver::new(Color::Pink, Color::Purple, Alignment::Left);
    driver.write_byte_char(1999, b'z');
    assert_eq!(driver.buffer()[3998], b'z');
    assert_eq!(driver.buffer()[3999], 0x5d);
}

#[test]
fn read_char_gives_back_what_write_char_restores() {
    let mut driver = VGADriver::new(Color::White, Color::Black, Alignment::Left);
    driver.write_char(
        7,
        AsciiSymbol { char_byte: b'q', foreground_color_byte: 0xf, background_color_byte: 0x5 },
    );
    let symbol = driver.read_char(7);
    assert_eq!(symbol.char_byte, b'q');
    assert_eq!(symbol.foreground_color_byte, 0x5f);
    assert_eq!(symbol.background_color_byte, 0xf0);
    driver.write_char(8, symbol);
    assert_eq!(driver.buffer()[16], b'q');
    assert_eq!(driver.buffer()[17], 0x5f);
}

#[test]
fn print_left_writes_at_the_cursor() {
    let mut driver = VGADriver::new(Color::White, Color::Black, Alignment::Left);
    driver.print("hi");
    assert_eq!(glyph(&driver, 0, 0), b'h');
    assert_eq!(glyph(&driver, 0, 1), b'i');
    assert_eq!(attribute(&driver, 0, 0), 0x0f);
    assert_eq!(glyph(&driver, 0, 2), b' ');
    assert_eq!(driver.current_row(), 0);
    assert_eq!(driver.current_column(), 2);
}

#[test]
fn line_feed_starts_a_new_row() {
    let mut driver = VGADriver::new(Color::White, Color::Black, Alignment::Left);
    driver.print("ab\ncd");
    assert_eq!(&row_text(&driver, 0)[..2], "ab");
    assert_eq!(&row_text(&driver, 1)[..2], "cd");
    assert_eq!(driver.current_row(), 1);
    assert_eq!(driver.current_column(), 2);
}

#[test]
fn a_full_row_wraps_with_the_next_glyph() {
    let mut driver = VGADriver::new(Color::White, Color::Black, Alignment::Left);
    let line = [b'x'; 80];
    driver.print_bytes(&line);
    assert_eq!(driver.current_row(), 0);
    assert_eq!(driver.current_column(), 80);
    driver.print_byte(b'y');
    assert_eq!(driver.current_row(), 1);
    assert_eq!(driver.current_column(), 1);
    assert_eq!(glyph(&driver, 0, 79), b'x');
    assert_eq!(glyph(&driver, 1, 0), b'y');
}

#[test]
fn the_last_row_scrolls() {
    let mut driver = VGADriver::new(Color::White, Color::Black, Alignment::Left);
    driver.print("first");
    for _ in 0..24 {
        driver.print_byte(b'\n');
    }
    assert_eq!(driver.current_row(), 24);
    assert_eq!(&row_text(&driver, 0)[..5], "first");
    driver.print("last\n");
    assert_eq!(driver.current_row(), 24);
    assert_eq!(driver.current_column(), 0);
    assert_eq!(&row_text(&driver, 0)[..5], "     ");
    assert_eq!(&row_text(&driver, 23)[..4], "last");
    assert_eq!(row_text(&driver, 24), " ".repeat(80));
    assert_eq!(attribute(&driver, 24, 0), 0);
}

#[test]
fn move_row_moves_every_row_up() {
    let mut driver = VGADriver::new(Color::White, Color::Black, Alignment::Left);
    driver.write_byte_char(80, b'a');
    driver.write_byte_char(24 * 80 + 79, b'b');
    driver.write_byte_char(0, b'c');
    driver.move_row();
    assert_eq!(glyph(&driver, 0, 0), b'a');
    assert_eq!(attribute(&driver, 0, 0), 0x0f);
    assert_eq!(glyph(&driver, 23, 79), b'b');
    assert_eq!(glyph(&driver, 24, 79), b' ');
    assert_eq!(attribute(&driver, 24, 79), 0);
    assert_eq!(glyph(&driver, 1, 0), b' ');
}

#[test]
fn move_char_to_left_shifts_the_cursors_row() {
    let mut driver = VGADriver::new(Color::White, Color::Black, Alignment::Left);
    driver.print("\nabc");
    driver.write_byte_char(0, b'k');
    driver.write_byte_char(80 + 79, b'e');
    driver.move_char_to_left();
    assert_eq!(&row_text(&driver, 1)[..3], "bc ");
    assert_eq!(glyph(&driver, 1, 78), b'e');
    assert_eq!(glyph(&driver, 1, 79), b'e');
    assert_eq!(glyph(&driver, 0, 0), b'k');
    assert_eq!(glyph(&driver, 2, 0), b' ');
}

#[test]
fn print_right_pushes_the_row_left() {
    let mut driver = VGADriver::new(Color::White, Color::Black, Alignment::Right);
    driver.print("ab");
    assert_eq!(glyph(&driver, 0, 78), b'a');
    assert_eq!(glyph(&driver, 0, 79), b'b');
    assert_eq!(driver.current_column(), 79);
    driver.print("\nc");
    assert_eq!(driver.current_row(), 1);
    assert_eq!(glyph(&driver, 1, 79), b'c');
}

#[test]
fn print_center_grows_from_the_middle() {
    let mut driver = VGADriver::new(Color::White, Color::Black, Alignment::Center);
    driver.print("abc");
    assert_eq!(glyph(&driver, 0, 39), b'a');
    assert_eq!(glyph(&driver, 0, 40), b'b');
    assert_eq!(glyph(&driver, 0, 41), b'c');
    assert_eq!(glyph(&driver, 0, 38), b' ');
    assert_eq!(glyph(&driver, 0, 42), b' ');
    assert_eq!(driver.current_column(), 3);
}

#[test]
fn clear_blanks_the_screen() {
    let mut driver = VGADriver::new(Color::White, Color::Black, Alignment::Left);
    driver.print("some text\nmore");
    driver.clear();
    assert_eq!(driver.current_row(), 0);
    assert_eq!(driver.current_column(), 0);
    for row in 0..25 {
        assert_eq!(row_text(&driver, row), " ".repeat(80));
    }
    assert_eq!(attribute(&driver, 0, 0), 0);
}

#[test]
fn delete_last_symbol_erases_one_glyph() {
    let mut driver = VGADriver::new(Color::White, Color::Black, Alignment::Left);
    driver.print("abc");
    driver.delete_last_symbol(0);
    assert_eq!(&row_text(&driver, 0)[..3], "ab ");
    assert_eq!(driver.current_column(), 2);
}

#[test]
fn delete_last_symbol_keeps_the_prefix() {
    let mut driver = VGADriver::new(Color::White, Color::Black, Alignment::Left);
    driver.print(" $ x");
    driver.delete_last_symbol(3);
    assert_eq!(driver.current_column(), 3);
    driver.delete_last_symbol(3);
    assert_eq!(driver.current_column(), 3);
    assert_eq!(&row_text(&driver, 0)[..4], " $  ");
}

#[test]
fn delete_last_symbol_stops_at_the_start_of_the_row() {
    let mut driver = VGADriver::new(Color::White, Color::Black, Alignment::Left);
    driver.print("a\n");
    driver.delete_last_symbol(0);
    assert_eq!(driver.current_row(), 1);
    assert_eq!(driver.current_column(), 0);
    assert_eq!(glyph(&driver, 0, 0), b'a');
}

#[test]
fn delete_last_symbol_leaves_other_alignments_alone() {
    let mut driver = VGADriver::new(Color::White, Color::Black, Alignment::Right);
    driver.print("ab");
    driver.delete_last_symbol(0);
    assert_eq!(glyph(&driver, 0, 78), b'a');
    assert_eq!(glyph(&driver, 0, 79), b'b');
    assert_eq!(driver.current_column(), 79);
}

#[test]
fn get_buffer_gives_the_glyphs() {
    let mut driver = VGADriver::new(Color::White, Color::Black, Alignment::Left);
    driver.print("hi\nyou");
    let glyphs = driver.get_buffer();
    assert_eq!(&glyphs[0..3], b"hi ");
    assert_eq!(&glyphs[80..84], b"you ");
    assert_eq!(glyphs[1999], b' ');
}

#[test]
fn print_text_stops_at_the_padding() {
    let mut driver = VGADriver::new(Color::White, Color::Black, Alignment::Left);
    driver.print_text(b"ab\0\0\0");
    assert_eq!(driver.current_column(), 2);
    driver.print_text(b"c\0d\0");
    assert_eq!(driver.current_column(), 5);
    assert_eq!(glyph(&driver, 0, 2), b'c');
    assert_eq!(glyph(&driver, 0, 3), 0);
    assert_eq!(glyph(&driver, 0, 4), b'd');
}
