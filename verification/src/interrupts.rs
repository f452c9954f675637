//! The decision side of interrupt handling.  Installing handlers, reading
//! the keyboard port and acknowledging the interrupt controller are
//! hardware work and live with the interrupt entry code; what is here is
//! the vector numbering of the two external lines the console uses, and
//! what the keyboard interrupt decides: which byte, if any, a scancode adds
//! to the input queue.

use vstd::prelude::*;
use crate::keyboard::{InputQueue, ScancodeDecoder, is_console_byte};

verus! {

/// The interrupt vector where the first controller's lines begin, chosen
/// just above the 32 CPU exception vectors.
pub const PIC_1_OFFSET: u8 = 32;

/// The interrupt vector where the second, chained controller's lines begin.
pub const PIC_2_OFFSET: u8 = PIC_1_OFFSET + 8;

/// The two external interrupt lines the console cares about.
#[derive(Debug, Clone, Copy)]
pub enum InterruptIndex {
    Timer,
    Keyboard,
}

impl InterruptIndex {
    /// The interrupt vector number of this line.
    pub open spec fn spec_as_u8(self) -> u8 {
        match self {
            InterruptIndex::Timer => PIC_1_OFFSET,
            InterruptIndex::Keyboard => (PIC_1_OFFSET + 1) as u8,
        }
    }

    /// The interrupt vector number of this line.
    #[verifier::when_used_as_spec(spec_as_u8)]
    pub fn as_u8(self) -> (v: u8)
        ensures
            v == self.spec_as_u8(),
    {
        match self {
            InterruptIndex::Timer => PIC_1_OFFSET,
            InterruptIndex::Keyboard => PIC_1_OFFSET + 1,
        }
    }

    /// The vector number, widened for use as a table index.
    pub fn as_usize(self) -> (v: usize)
        ensures
            v == self.spec_as_u8() as usize,
    {
        self.as_u8() as usize
    }
}

/// What the keyboard interrupt does between reading the scancode from the
/// port and acknowledging the controller: feed the byte to the decoder,
/// and append the decoded byte, if there is one, to the input queue.  The
/// queue grows by at most one byte, and any byte that arrives is one the
/// console takes; malformed or incomplete scancodes leave it unchanged.
pub fn handle_scancode(decoder: &mut ScancodeDecoder, queue: &mut InputQueue, scancode: u8)
    ensures
        final(queue)@ == old(queue)@ || exists|b: u8|
            is_console_byte(b) && final(queue)@ == old(queue)@.push(b),
{
    match decoder.feed(scancode) {
        Some(byte) => {
            queue.push(byte);
        },
        None => {},
    }
}

} // verus!
