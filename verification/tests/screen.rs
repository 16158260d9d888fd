use fyos::screen::{
    Color, ColorCode, Screen, ScreenChar, VgaBuffer, VGA_BUFFER_CELLS, VGA_BUFFER_COLUMNS,
    VGA_BUFFER_ROWS,
};

fn row_text(screen: &Screen, row: usize) -> String {
    (0..VGA_BUFFER_COLUMNS)
        .map(|col| screen.buffer().read_char(row, col).ascii_char as char)
        .collect::<String>()
}

#[test]
fn test_printx_no_panic() {
    let mut screen = Screen::new();
    screen.puts("\n");
    screen.puts("1\n");

    screen.puts("1");
    screen.puts("1\r");
    screen.puts("1\r\n");
    screen.puts("1\n1");

    for _ in 0..100 {
        screen.puts("1\n");
    }
    for _ in 0..25 {
        screen.puts("1\n");
    }
    for _ in 0..1024 {
        screen.puts("1");
    }
}

#[test]
fn test_println_output() {
    let mut screen = Screen::new();
    // Force a new line.
    screen.puts("\n");
    let s = "Some test string that fits on a single line";
    screen.puts(s);
    screen.puts("\n");
    for (col, ch) in s.chars().enumerate() {
        let screen_char = screen.buffer().read_char(VGA_BUFFER_ROWS - 2, col);
        assert_eq!(char::from(screen_char.ascii_char), ch);
    }
}

#[test]
fn test_println() {
    let mut screen = Screen::new();
    screen.puts("test_println ok\n");
    assert!(row_text(&screen, VGA_BUFFER_ROWS - 2).starts_with("test_println ok "));
}

#[test]
fn new_screen_is_blank_and_yellow() {
    let screen = Screen::new();
    for row in 0..VGA_BUFFER_ROWS {
        assert_eq!(row_text(&screen, row), " ".repeat(80));
    }
    let mut screen = Screen::new();
    screen.put_char(b'x');
    let c = screen.buffer().read_char(VGA_BUFFER_ROWS - 1, 0);
    assert_eq!(c, ScreenChar::new(b'x', ColorCode(0x0e)));
}

#[test]
fn unprintable_bytes_show_as_block() {
    let mut screen = Screen::new();
    screen.put_char(0x07);
    screen.put_char(0x7f);
    screen.put_char(b'~');
    screen.put_char(b' ');
    let row = VGA_BUFFER_ROWS - 1;
    assert_eq!(screen.buffer().read_char(row, 0).ascii_char, 0xfe);
    assert_eq!(screen.buffer().read_char(row, 1).ascii_char, 0xfe);
    assert_eq!(screen.buffer().read_char(row, 2).ascii_char, b'~');
    assert_eq!(screen.buffer().read_char(row, 3).ascii_char, b' ');
}

#[test]
fn carriage_return_overwrites_the_row() {
    let mut screen = Screen::new();
    screen.puts("abc\rX");
    assert!(row_text(&screen, VGA_BUFFER_ROWS - 1).starts_with("Xbc "));
}

#[test]
fn a_full_row_wraps_before_the_next_char() {
    let mut screen = Screen::new();
    let line = "a".repeat(80);
    screen.puts(&line);
    // The cursor waits past the end of the last row; nothing scrolled yet.
    assert_eq!(row_text(&screen, VGA_BUFFER_ROWS - 1), line);
    screen.puts("b");
    assert_eq!(row_text(&screen, VGA_BUFFER_ROWS - 2), line);
    assert!(row_text(&screen, VGA_BUFFER_ROWS - 1).starts_with("b "));
}

#[test]
fn new_line_on_last_row_scrolls() {
    let mut screen = Screen::new();
    screen.puts("first");
    screen.new_line();
    screen.puts("second");
    assert!(row_text(&screen, VGA_BUFFER_ROWS - 2).starts_with("first "));
    assert!(row_text(&screen, VGA_BUFFER_ROWS - 1).starts_with("second "));
    for _ in 0..VGA_BUFFER_ROWS {
        screen.new_line();
    }
    for row in 0..VGA_BUFFER_ROWS {
        assert_eq!(row_text(&screen, row), " ".repeat(80));
    }
}

#[test]
fn color_codes() {
    assert_eq!(ColorCode::new(Color::Yellow, Color::Black).0, 0x0e);
    assert_eq!(ColorCode::new(Color::White, Color::Blue).0, 0x1f);
    assert_eq!(ColorCode::new(Color::LightGray, Color::Red).blink().0, 0xc7);
    assert_eq!(Color::DarkGray.value(), 8);
    assert_eq!(Color::Pink.value(), 13);
    assert_eq!(ScreenChar::blank().ascii_char, b' ');
}

#[test]
fn a_screen_keeps_what_its_buffer_shows() {
    let mut cells = [ScreenChar::blank(); VGA_BUFFER_CELLS];
    cells[VGA_BUFFER_COLUMNS * (VGA_BUFFER_ROWS - 1)] = ScreenChar::new(b'Z', ColorCode(0x07));
    let mut screen = Screen::with_buffer(VgaBuffer::from_cells(cells));
    assert!(row_text(&screen, VGA_BUFFER_ROWS - 1).starts_with("Z "));
    screen.puts("\nnew");
    assert!(row_text(&screen, VGA_BUFFER_ROWS - 2).starts_with("Z "));
    assert!(row_text(&screen, VGA_BUFFER_ROWS - 1).starts_with("new "));
}
