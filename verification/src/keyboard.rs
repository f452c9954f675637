//! Keyboard input: the stateful scancode decoder and the FIFO byte queue
//! that hands decoded keystrokes from the interrupt handler to the line
//! reader.

use vstd::prelude::*;
use pc_keyboard::{layouts, DecodedKey, HandleControl, Keyboard, KeyEvent, ScancodeSet1};

verus! {

/// The backspace byte, as the decoder emits it and the line reader reads it.
pub const BACKSPACE_BYTE: u8 = 8;

/// A FIFO queue of pending input bytes.  The keyboard interrupt handler
/// appends one byte per decoded keystroke; the line reader removes them in
/// arrival order.  No capacity bound is enforced: the consumer polls
/// continuously, so the queue only grows while a line is being typed.
pub struct InputQueue {
    items: Vec<u8>,
}

impl View for InputQueue {
    type V = Seq<u8>;

    closed spec fn view(&self) -> Seq<u8> {
        self.items@
    }
}

/// What `pop` returns and leaves behind: nothing on an empty queue, else the
/// oldest byte and the rest.
pub open spec fn pop_model(q: Seq<u8>) -> (Option<u8>, Seq<u8>) {
    if q.len() == 0 {
        (None, q)
    } else {
        (Some(q[0]), q.skip(1))
    }
}

/// The result of `n` pops in a row: the bytes that come out, in order, and
/// what remains in the queue.
pub open spec fn drained(q: Seq<u8>, n: nat) -> (Seq<u8>, Seq<u8>)
    decreases n,
{
    if n == 0 {
        (Seq::<u8>::empty(), q)
    } else {
        match pop_model(q).0 {
            None => (Seq::<u8>::empty(), q),
            Some(b) => {
                let rest = drained(pop_model(q).1, (n - 1) as nat);
                (seq![b] + rest.0, rest.1)
            },
        }
    }
}

impl InputQueue {
    /// An empty queue.
    pub fn new() -> (q: InputQueue)
        ensures
            q@ == Seq::<u8>::empty(),
    {
        InputQueue { items: Vec::new() }
    }

    /// How many bytes are pending.
    pub fn len(&self) -> (n: usize)
        ensures
            n == self@.len(),
    {
        self.items.len()
    }

    /// Whether no byte is pending.
    pub fn is_empty(&self) -> (e: bool)
        ensures
            e == (self@.len() == 0),
    {
        self.items.len() == 0
    }

    /// Append one byte at the back of the queue.
    pub fn push(&mut self, byte: u8)
        ensures
            final(self)@ == old(self)@.push(byte),
    {
        self.items.push(byte);
    }

    /// Remove and return the oldest byte; `None` (and no change) when the
    /// queue is empty.  Never blocks: waiting is the caller's affair.
    pub fn pop(&mut self) -> (r: Option<u8>)
        ensures
            r == pop_model(old(self)@).0,
            final(self)@ == pop_model(old(self)@).1,
    {
        if self.items.len() == 0 {
            None
        } else {
            let b = self.items.remove(0);
            proof {
                assert(self.items@ =~= old(self)@.skip(1));
            }
            Some(b)
        }
    }
}

/// FIFO law: push any sequence of bytes onto an empty queue (so the queue
/// holds exactly that sequence) and then pop as many times as bytes were
/// pushed: the bytes come out in push order and the queue is empty
/// afterwards.
pub proof fn lemma_fifo_order(s: Seq<u8>)
    ensures
        drained(s, s.len()).0 == s,
        drained(s, s.len()).1 == Seq::<u8>::empty(),
    decreases s.len(),
{
    if s.len() == 0 {
        assert(drained(s, 0).0 =~= s);
    } else {
        lemma_fifo_order(s.skip(1));
        assert(seq![s[0]] + s.skip(1) =~= s);
    }
}

/// pc_keyboard's key event (a key code and a press/release state), carried
/// opaquely between the two decoder calls.
#[verifier::external_type_specification]
#[verifier::external_body]
pub struct ExKeyEvent(KeyEvent);

/// A decoded keystroke: a Unicode character, or a key with no character
/// (a modifier, a function key, a key release).
#[derive(Debug, Clone, Copy, PartialEq, Eq)]
pub enum KeyPress {
    Unicode(char),
    NonPrintable,
}

/// Whether a decoded character is one the console takes: ASCII graphic,
/// space, tab, carriage return, newline, or backspace.
pub open spec fn is_console_char(c: char) -> bool {
    ('!' <= c && c <= '~') || c == ' ' || c == '\t' || c == '\n' || c == '\r' || c == '\u{8}'
}

/// The bytes such characters turn into: printable ASCII, tab, carriage
/// return, newline, or backspace.
pub open spec fn is_console_byte(b: u8) -> bool {
    (0x20 <= b <= 0x7e) || b == 9 || b == 10 || b == 13 || b == BACKSPACE_BYTE
}

/// The queue byte for a decoded character: its ASCII code if the console
/// takes it, nothing otherwise.
pub open spec fn spec_key_byte(c: char) -> Option<u8> {
    if is_console_char(c) {
        Some(c as u8)
    } else {
        None
    }
}

/// The queue byte for a decoded character.
#[verifier::when_used_as_spec(spec_key_byte)]
pub fn key_byte(c: char) -> (r: Option<u8>)
    ensures
        r == spec_key_byte(c),
        r matches Some(b) ==> is_console_byte(b),
{
    if (c >= '!' && c <= '~') || c == ' ' || c == '\t' || c == '\n' || c == '\r' || c == '\u{8}' {
        Some(c as u8)
    } else {
        None
    }
}

/// The stateful scancode translator.  Raw bytes from the keyboard go in one
/// at a time; a byte for the input queue comes out whenever a complete,
/// recognized sequence decodes to a character the console takes.  Malformed
/// or incomplete input produces nothing and never fails.  It holds a
/// pc_keyboard decoder for scancode set 1 and the US 104-key layout, whose
/// partial-sequence and modifier state Verus does not look into.
#[verifier::external_body]
pub struct ScancodeDecoder {
    inner: Keyboard<layouts::Us104Key, ScancodeSet1>,
}

impl ScancodeDecoder {
    /// Relies on pc_keyboard::Keyboard::new: a fresh decoder with no partial
    /// sequence and no modifier held, control characters left unmapped.
    #[verifier::external_body]
    pub fn new() -> ScancodeDecoder {
        ScancodeDecoder {
            inner: Keyboard::new(ScancodeSet1::new(), layouts::Us104Key, HandleControl::Ignore),
        }
    }

    /// Relies on pc_keyboard::Keyboard::add_byte: advances the decoder state
    /// by one raw scancode byte.  A completed key event comes back; an
    /// incomplete sequence, or one the set does not know, yields nothing.
    /// It never panics.
    #[verifier::external_body]
    fn add_byte(&mut self, scancode: u8) -> Option<KeyEvent> {
        match self.inner.add_byte(scancode) {
            Ok(event) => event,
            Err(_) => None,
        }
    }

    /// Relies on pc_keyboard::Keyboard::process_keyevent: turns a key event
    /// into a decoded key according to the layout and the modifier state, or
    /// nothing (for example for a plain key release).  It never panics.
    #[verifier::external_body]
    fn process_keyevent(&mut self, event: KeyEvent) -> Option<KeyPress> {
        match self.inner.process_keyevent(event) {
            Some(DecodedKey::Unicode(character)) => Some(KeyPress::Unicode(character)),
            Some(DecodedKey::RawKey(_)) => Some(KeyPress::NonPrintable),
            None => None,
        }
    }

    /// Feed one raw scancode byte.  At most one queue byte comes out, and
    /// any byte that does is one the console takes.
    pub fn feed(&mut self, scancode: u8) -> (r: Option<u8>)
        ensures
            r matches Some(b) ==> is_console_byte(b),
    {
        match self.add_byte(scancode) {
            Some(event) => match self.process_keyevent(event) {
                Some(KeyPress::Unicode(character)) => key_byte(character),
                Some(KeyPress::NonPrintable) => None,
                None => None,
            },
            None => None,
        }
    }
}

} // verus!
