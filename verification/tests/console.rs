use rustos::console::{poll_line, LineBuffer};
use rustos::keyboard::InputQueue;
use rustos::vga_buffer::{Writer, BUFFER_HEIGHT};

#[test]
fn hi_newline_completes_the_line() {
    let mut q = InputQueue::new();
    let mut line = LineBuffer::new();
    let mut w = Writer::new();
    q.push(b'h');
    q.push(b'i');
    q.push(b'\n');
    let got = poll_line(&mut q, &mut line, &mut w);
    assert_eq!(got, Some(vec![b'h', b'i', b'\n']));
    assert_eq!(line.len(), 0);
    assert!(q.is_empty());
    // both bytes were echoed, then the newline scrolled them up a row
    assert_eq!(w.char_at(BUFFER_HEIGHT - 2, 0).ascii_character, b'h');
    assert_eq!(w.char_at(BUFFER_HEIGHT - 2, 1).ascii_character, b'i');
    assert_eq!(w.cursor_column(), 0);
}

#[test]
fn lone_newline_on_empty_buffer_keeps_waiting() {
    let mut q = InputQueue::new();
    let mut line = LineBuffer::new();
    let mut w = Writer::new();
    q.push(b'\n');
    let got = poll_line(&mut q, &mut line, &mut w);
    assert_eq!(got, None);
    assert_eq!(line.len(), 0);
    assert!(q.is_empty());
    // the ignored newline did not touch the screen
    assert_eq!(w.cursor_column(), 0);
    assert_eq!(w.char_at(BUFFER_HEIGHT - 1, 0).ascii_character, b' ');
}

#[test]
fn backspace_then_newline_on_emptied_buffer_keeps_waiting() {
    let mut q = InputQueue::new();
    let mut line = LineBuffer::new();
    let mut w = Writer::new();
    q.push(b'h');
    q.push(8);
    q.push(b'\n');
    let got = poll_line(&mut q, &mut line, &mut w);
    assert_eq!(got, None);
    assert_eq!(line.len(), 0);
    assert!(q.is_empty());
}

#[test]
fn empty_queue_polls_to_none_without_blocking() {
    let mut q = InputQueue::new();
    let mut line = LineBuffer::new();
    let mut w = Writer::new();
    assert_eq!(poll_line(&mut q, &mut line, &mut w), None);
}

#[test]
fn line_survives_across_polls_until_completed() {
    let mut q = InputQueue::new();
    let mut line = LineBuffer::new();
    let mut w = Writer::new();
    q.push(b'o');
    q.push(b'k');
    assert_eq!(poll_line(&mut q, &mut line, &mut w), None);
    assert_eq!(line.len(), 2);
    q.push(b'\n');
    assert_eq!(poll_line(&mut q, &mut line, &mut w), Some(vec![b'o', b'k', b'\n']));
}

#[test]
fn backspace_removes_one_byte_and_blanks_one_cell() {
    let mut line = LineBuffer::new();
    let mut w = Writer::new();
    assert_eq!(line.handle_byte(b'h', &mut w), None);
    assert_eq!(line.handle_byte(b'i', &mut w), None);
    assert_eq!(line.len(), 2);
    assert_eq!(w.cursor_column(), 2);
    assert_eq!(line.handle_byte(8, &mut w), None);
    assert_eq!(line.len(), 1);
    assert_eq!(w.cursor_column(), 1);
    assert_eq!(w.char_at(BUFFER_HEIGHT - 1, 1).ascii_character, b' ');
    assert_eq!(w.char_at(BUFFER_HEIGHT - 1, 0).ascii_character, b'h');
}

#[test]
fn backspace_on_empty_buffer_is_a_noop_on_buffer_and_screen() {
    let mut line = LineBuffer::new();
    let mut w = Writer::new();
    assert_eq!(line.handle_byte(8, &mut w), None);
    assert_eq!(line.len(), 0);
    assert_eq!(w.cursor_column(), 0);
    assert_eq!(w.char_at(BUFFER_HEIGHT - 1, 0).ascii_character, b' ');
}

#[test]
fn echoed_bytes_follow_the_writer_rendering_rule() {
    let mut line = LineBuffer::new();
    let mut w = Writer::new();
    line.handle_byte(b'a', &mut w);
    line.handle_byte(9, &mut w);
    assert_eq!(w.char_at(BUFFER_HEIGHT - 1, 0).ascii_character, b'a');
    assert_eq!(w.char_at(BUFFER_HEIGHT - 1, 1).ascii_character, 0xfe);
    assert_eq!(line.len(), 2);
}
