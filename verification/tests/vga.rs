use rustos::vga_buffer::{Color, ColorCode, Writer, BUFFER_HEIGHT, BUFFER_WIDTH};

#[test]
fn color_code_packs_background_high_foreground_low() {
    assert_eq!(ColorCode::new(Color::Yellow, Color::Black).0, 14);
    assert_eq!(ColorCode::new(Color::White, Color::Blue).0, 16 + 15);
    assert_eq!(ColorCode::new(Color::Black, Color::White).0, 15 * 16);
    assert_eq!(Writer::default_color_code(), ColorCode(15));
}

#[test]
fn color_from_str_recognizes_all_names_case_insensitively() {
    assert_eq!(Color::from_str("black"), Some(Color::Black));
    assert_eq!(Color::from_str("BLACK"), Some(Color::Black));
    assert_eq!(Color::from_str("Blue"), Some(Color::Blue));
    assert_eq!(Color::from_str("green"), Some(Color::Green));
    assert_eq!(Color::from_str("cyan"), Some(Color::Cyan));
    assert_eq!(Color::from_str("rEd"), Some(Color::Red));
    assert_eq!(Color::from_str("Magenta"), Some(Color::Magenta));
    assert_eq!(Color::from_str("brown"), Some(Color::Brown));
    assert_eq!(Color::from_str("LightGray"), Some(Color::LightGray));
    assert_eq!(Color::from_str("darkgray"), Some(Color::DarkGray));
    assert_eq!(Color::from_str("lightblue"), Some(Color::LightBlue));
    assert_eq!(Color::from_str("LIGHTGREEN"), Some(Color::LightGreen));
    assert_eq!(Color::from_str("lightcyan"), Some(Color::LightCyan));
    assert_eq!(Color::from_str("lightred"), Some(Color::LightRed));
    assert_eq!(Color::from_str("pink"), Some(Color::Pink));
    assert_eq!(Color::from_str("yellow"), Some(Color::Yellow));
    assert_eq!(Color::from_str("white"), Some(Color::White));
}

#[test]
fn color_from_str_rejects_unknown_names() {
    assert_eq!(Color::from_str(""), None);
    assert_eq!(Color::from_str("chartreuse"), None);
    assert_eq!(Color::from_str("blac"), None);
    assert_eq!(Color::from_str("blackk"), None);
    assert_eq!(Color::from_str("light gray"), None);
}

#[test]
fn write_string_lands_on_bottom_row_and_advances_cursor() {
    let mut w = Writer::new();
    w.write_string("hi");
    assert_eq!(w.cursor_column(), 2);
    assert_eq!(w.char_at(BUFFER_HEIGHT - 1, 0).ascii_character, b'h');
    assert_eq!(w.char_at(BUFFER_HEIGHT - 1, 1).ascii_character, b'i');
    w.write_string("!");
    assert_eq!(w.cursor_column(), 3);
    assert_eq!(w.char_at(BUFFER_HEIGHT - 1, 2).ascii_character, b'!');
}

#[test]
fn wrap_happens_exactly_when_the_row_is_full() {
    let mut w = Writer::new();
    for _ in 0..BUFFER_WIDTH {
        w.write_byte(b'a');
    }
    // the row is exactly full: no wrap has happened yet
    assert_eq!(w.cursor_column(), BUFFER_WIDTH);
    assert_eq!(w.char_at(BUFFER_HEIGHT - 2, 0).ascii_character, b' ');
    // the next byte scrolls first, then lands at column 0
    w.write_byte(b'b');
    assert_eq!(w.cursor_column(), 1);
    assert_eq!(w.char_at(BUFFER_HEIGHT - 1, 0).ascii_character, b'b');
    assert_eq!(w.char_at(BUFFER_HEIGHT - 2, 0).ascii_character, b'a');
    assert_eq!(w.char_at(BUFFER_HEIGHT - 2, BUFFER_WIDTH - 1).ascii_character, b'a');
}

#[test]
fn newline_shifts_rows_up_and_clears_the_bottom_row() {
    let mut w = Writer::new();
    w.write_string("one\n");
    w.write_string("two");
    // snapshot every row before the newline
    let mut before: Vec<Vec<u8>> = Vec::new();
    for r in 0..BUFFER_HEIGHT {
        let mut row = Vec::new();
        for c in 0..BUFFER_WIDTH {
            row.push(w.char_at(r, c).ascii_character);
        }
        before.push(row);
    }
    w.write_byte(b'\n');
    assert_eq!(w.cursor_column(), 0);
    // every row but the last now holds what the row below held
    for r in 0..BUFFER_HEIGHT - 1 {
        for c in 0..BUFFER_WIDTH {
            assert_eq!(w.char_at(r, c).ascii_character, before[r + 1][c]);
        }
    }
    // and the bottom row is blank
    for c in 0..BUFFER_WIDTH {
        assert_eq!(w.char_at(BUFFER_HEIGHT - 1, c).ascii_character, b' ');
    }
    // the shifted text is where it should be
    assert_eq!(w.char_at(BUFFER_HEIGHT - 2, 0).ascii_character, b't');
    assert_eq!(w.char_at(BUFFER_HEIGHT - 3, 0).ascii_character, b'o');
}

#[test]
fn unprintable_bytes_are_replaced_by_the_fixed_glyph() {
    let mut w = Writer::new();
    w.write_string("a\tb\u{7f}");
    assert_eq!(w.char_at(BUFFER_HEIGHT - 1, 0).ascii_character, b'a');
    assert_eq!(w.char_at(BUFFER_HEIGHT - 1, 1).ascii_character, 0xfe);
    assert_eq!(w.char_at(BUFFER_HEIGHT - 1, 2).ascii_character, b'b');
    assert_eq!(w.char_at(BUFFER_HEIGHT - 1, 3).ascii_character, 0xfe);
}

#[test]
fn set_color_applies_to_following_writes_only() {
    let mut w = Writer::new();
    w.write_byte(b'x');
    w.set_color(Color::Yellow, Color::Blue);
    w.write_byte(b'y');
    assert_eq!(w.char_at(BUFFER_HEIGHT - 1, 0).color_code, ColorCode(15));
    assert_eq!(w.char_at(BUFFER_HEIGHT - 1, 1).color_code, ColorCode(16 + 14));
    assert_eq!(w.current_color_code(), ColorCode(16 + 14));
}

#[test]
fn backspace_on_writer_blanks_the_cell_left_of_the_cursor() {
    let mut w = Writer::new();
    w.write_string("ab");
    assert_eq!(w.cursor_column(), 2);
    w.handle_backspace();
    assert_eq!(w.cursor_column(), 1);
    assert_eq!(w.char_at(BUFFER_HEIGHT - 1, 1).ascii_character, b' ');
    assert_eq!(w.char_at(BUFFER_HEIGHT - 1, 0).ascii_character, b'a');
}

#[test]
fn backspace_at_row_start_stays_at_column_zero() {
    let mut w = Writer::new();
    assert_eq!(w.cursor_column(), 0);
    w.handle_backspace();
    assert_eq!(w.cursor_column(), 0);
}

#[test]
fn written_line_appears_on_screen() {
    let s = "Some test string that fits on a single line";
    let mut w = Writer::new();
    w.write_string("\n");
    w.write_string(s);
    w.write_string("\n");
    for (i, byte) in s.bytes().enumerate() {
        assert_eq!(w.char_at(BUFFER_HEIGHT - 2, i).ascii_character, byte);
    }
}

#[test]
fn many_lines_scroll_without_panicking() {
    let mut w = Writer::new();
    for _ in 0..200 {
        w.write_string("test output\n");
    }
    assert_eq!(w.cursor_column(), 0);
    assert_eq!(w.char_at(BUFFER_HEIGHT - 2, 0).ascii_character, b't');
}
