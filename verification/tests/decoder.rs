use rustos::interrupts::{handle_scancode, InterruptIndex};
use rustos::keyboard::{InputQueue, ScancodeDecoder};

#[test]
fn printable_key_press_emits_exactly_one_byte() {
    let mut d = ScancodeDecoder::new();
    // scancode set 1: 0x1E is the press of the A key
    assert_eq!(d.feed(0x1e), Some(b'a'));
}

#[test]
fn key_release_emits_no_printable_event() {
    let mut d = ScancodeDecoder::new();
    assert_eq!(d.feed(0x1e), Some(b'a'));
    // 0x9E is the matching release marker for 0x1E
    assert_eq!(d.feed(0x9e), None);
}

#[test]
fn shift_makes_the_next_key_upper_case() {
    let mut d = ScancodeDecoder::new();
    // left shift press decodes to a non-printable key: no byte
    assert_eq!(d.feed(0x2a), None);
    assert_eq!(d.feed(0x1e), Some(b'A'));
    // releasing shift emits nothing, and the next key is lower case again
    assert_eq!(d.feed(0xaa), None);
    assert_eq!(d.feed(0x1e), Some(b'a'));
}

#[test]
fn enter_and_backspace_map_to_console_bytes() {
    let mut d = ScancodeDecoder::new();
    assert_eq!(d.feed(0x1c), Some(b'\n'));
    assert_eq!(d.feed(0x0e), Some(8));
}

#[test]
fn extended_prefix_alone_emits_nothing_and_keeps_state() {
    let mut d = ScancodeDecoder::new();
    // 0xE0 starts a multi-byte sequence: nothing comes out yet
    assert_eq!(d.feed(0xe0), None);
    // 0x48 after the prefix is the cursor-up key: decoded, but not printable
    assert_eq!(d.feed(0x48), None);
    // the decoder is back at its start state afterwards
    assert_eq!(d.feed(0x1e), Some(b'a'));
}

#[test]
fn handle_scancode_pushes_decoded_bytes_in_order() {
    let mut d = ScancodeDecoder::new();
    let mut q = InputQueue::new();
    handle_scancode(&mut d, &mut q, 0x23); // H press
    handle_scancode(&mut d, &mut q, 0xa3); // H release
    handle_scancode(&mut d, &mut q, 0x17); // I press
    handle_scancode(&mut d, &mut q, 0x97); // I release
    handle_scancode(&mut d, &mut q, 0x1c); // Enter press
    assert_eq!(q.pop(), Some(b'h'));
    assert_eq!(q.pop(), Some(b'i'));
    assert_eq!(q.pop(), Some(b'\n'));
    assert_eq!(q.pop(), None);
}

#[test]
fn interrupt_vectors_sit_just_above_the_cpu_exceptions() {
    assert_eq!(InterruptIndex::Timer.as_u8(), 32);
    assert_eq!(InterruptIndex::Keyboard.as_u8(), 33);
    assert_eq!(InterruptIndex::Timer.as_usize(), 32);
    assert_eq!(InterruptIndex::Keyboard.as_usize(), 33);
}
