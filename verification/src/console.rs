//! The line reader: the polling consumer of the input queue.  It drains
//! bytes, echoes them through the frame-buffer writer, applies line editing
//! (backspace) against both the line buffer and the display, and completes
//! a line when a newline arrives on a non-empty buffer.

use vstd::prelude::*;
use crate::keyboard::{BACKSPACE_BYTE, InputQueue};
use crate::vga_buffer::{
    BLANK_BYTE, BUFFER_HEIGHT, BUFFER_WIDTH, NEWLINE_BYTE, REPLACEMENT_BYTE, ColorCode,
    ScreenChar, Writer, blank_char, byte_written, char_placed, rendered_byte,
};

verus! {

/// What one input byte does to the line being collected: a newline on a
/// non-empty line completes it, with the newline appended, and empties the
/// buffer for the next line; a newline on an empty line is ignored; a
/// backspace removes the last byte, if there is one; any other byte is
/// appended.
pub open spec fn line_step(line: Seq<u8>, b: u8) -> (Seq<u8>, Option<Seq<u8>>) {
    if b == NEWLINE_BYTE {
        if line.len() == 0 {
            (line, None)
        } else {
            (Seq::<u8>::empty(), Some(line.push(NEWLINE_BYTE)))
        }
    } else if b == BACKSPACE_BYTE {
        if line.len() == 0 {
            (line, None)
        } else {
            (line.drop_last(), None)
        }
    } else {
        (line.push(b), None)
    }
}

/// What one input byte does to the display: a completing newline is echoed
/// (the grid scrolls); an ignored newline changes nothing; a backspace on a
/// non-empty line moves the cursor back one column and blanks the cell now
/// under it, and on an empty line changes nothing; any other byte is echoed
/// through the writer's rendering rule.
pub open spec fn echo_step(
    g: Seq<Seq<ScreenChar>>,
    col: int,
    color: ColorCode,
    line: Seq<u8>,
    b: u8,
) -> (Seq<Seq<ScreenChar>>, int) {
    if b == NEWLINE_BYTE {
        if line.len() == 0 {
            (g, col)
        } else {
            byte_written(g, col, color, NEWLINE_BYTE)
        }
    } else if b == BACKSPACE_BYTE {
        if line.len() == 0 {
            (g, col)
        } else {
            let back = if col > 0 {
                col - 1
            } else {
                0int
            };
            (char_placed(g, back, color, BLANK_BYTE), back)
        }
    } else {
        byte_written(g, col, color, rendered_byte(b))
    }
}

/// The line being collected, owned by the line reader while one line is
/// read and handed to the caller, with its trailing newline, on completion.
pub struct LineBuffer {
    bytes: Vec<u8>,
}

impl View for LineBuffer {
    type V = Seq<u8>;

    closed spec fn view(&self) -> Seq<u8> {
        self.bytes@
    }
}

impl LineBuffer {
    /// An empty line buffer.
    pub fn new() -> (l: LineBuffer)
        ensures
            l@ == Seq::<u8>::empty(),
    {
        LineBuffer { bytes: Vec::new() }
    }

    /// How many bytes the line holds so far.
    pub fn len(&self) -> (n: usize)
        ensures
            n == self@.len(),
    {
        self.bytes.len()
    }

    /// Apply one input byte to the line and echo it on the display, as
    /// `line_step` and `echo_step` state; the completed line comes back on
    /// a newline that ends a non-empty line, and the buffer is then empty
    /// again.
    pub fn handle_byte(&mut self, byte: u8, writer: &mut Writer) -> (r: Option<Vec<u8>>)
        requires
            old(writer).wf(),
        ensures
            final(writer).wf(),
            final(writer).color() == old(writer).color(),
            final(self)@ == line_step(old(self)@, byte).0,
            (r matches Some(v) ==> line_step(old(self)@, byte).1 == Some(v@)),
            (r is None ==> line_step(old(self)@, byte).1 is None),
            final(writer).grid() == echo_step(
                old(writer).grid(),
                old(writer).col(),
                old(writer).color(),
                old(self)@,
                byte,
            ).0,
            final(writer).col() == echo_step(
                old(writer).grid(),
                old(writer).col(),
                old(writer).color(),
                old(self)@,
                byte,
            ).1,
    {
        if byte == NEWLINE_BYTE {
            if self.bytes.len() == 0 {
                None
            } else {
                writer.write_byte(NEWLINE_BYTE);
                self.bytes.push(NEWLINE_BYTE);
                let mut done: Vec<u8> = Vec::new();
                core::mem::swap(&mut self.bytes, &mut done);
                Some(done)
            }
        } else if byte == BACKSPACE_BYTE {
            if self.bytes.len() == 0 {
                None
            } else {
                self.bytes.pop();
                writer.handle_backspace();
                proof {
                    assert(self.bytes@ =~= old(self)@.drop_last());
                }
                None
            }
        } else {
            self.bytes.push(byte);
            if 0x20 <= byte && byte <= 0x7e {
                writer.write_byte(byte);
            } else {
                writer.write_byte(REPLACEMENT_BYTE);
            }
            None
        }
    }
}

/// What draining the queue does, byte by byte, until either a line
/// completes or the queue runs empty: the queue, line and display that are
/// left, and the completed line if one was.
pub open spec fn run_model(
    q: Seq<u8>,
    line: Seq<u8>,
    g: Seq<Seq<ScreenChar>>,
    col: int,
    color: ColorCode,
) -> (Seq<u8>, Seq<u8>, Seq<Seq<ScreenChar>>, int, Option<Seq<u8>>)
    decreases q.len(),
{
    if q.len() == 0 {
        (q, line, g, col, None::<Seq<u8>>)
    } else {
        let b = q[0];
        let stepped = line_step(line, b);
        let echoed = echo_step(g, col, color, line, b);
        if stepped.1 is Some {
            (q.skip(1), stepped.0, echoed.0, echoed.1, stepped.1)
        } else {
            run_model(q.skip(1), stepped.0, echoed.0, echoed.1, color)
        }
    }
}

/// Drain the queue without blocking: pop and apply bytes until a line
/// completes or the queue is empty, as `run_model` states.  `None` means
/// the queue ran dry with no completed line; the caller then waits for the
/// next interrupt and polls again.
pub fn poll_line(queue: &mut InputQueue, line: &mut LineBuffer, writer: &mut Writer) -> (r: Option<
    Vec<u8>,
>)
    requires
        old(writer).wf(),
    ensures
        final(writer).wf(),
        final(writer).color() == old(writer).color(),
        ({
            let m = run_model(
                old(queue)@,
                old(line)@,
                old(writer).grid(),
                old(writer).col(),
                old(writer).color(),
            );
            &&& final(queue)@ == m.0
            &&& final(line)@ == m.1
            &&& final(writer).grid() == m.2
            &&& final(writer).col() == m.3
            &&& (r matches Some(v) ==> m.4 == Some(v@))
            &&& (r is None ==> m.4 is None)
        }),
        r is None ==> final(queue)@.len() == 0,
{
    loop
        invariant
            writer.wf(),
            old(writer).wf(),
            writer.color() == old(writer).color(),
            run_model(
                old(queue)@,
                old(line)@,
                old(writer).grid(),
                old(writer).col(),
                old(writer).color(),
            ) == run_model(queue@, line@, writer.grid(), writer.col(), writer.color()),
        decreases queue@.len(),
    {
        let ghost q1 = queue@;
        let ghost l1 = line@;
        let ghost g1 = writer.grid();
        let ghost c1 = writer.col();
        match queue.pop() {
            None => {
                return None;
            },
            Some(b) => {
                proof {
                    assert(b == q1[0]);
                    assert(queue@ == q1.skip(1));
                }
                let r = line.handle_byte(b, writer);
                match r {
                    Some(v) => {
                        proof {
                            assert(run_model(q1, l1, g1, c1, writer.color()) == (
                                queue@,
                                line@,
                                writer.grid(),
                                writer.col(),
                                Some(v@),
                            ));
                        }
                        return Some(v);
                    },
                    None => {
                        proof {
                            assert(run_model(q1, l1, g1, c1, writer.color()) == run_model(
                                queue@,
                                line@,
                                writer.grid(),
                                writer.col(),
                                writer.color(),
                            ));
                        }
                    },
                }
            },
        }
    }
}

/// The backspace law: on a non-empty line, one backspace removes exactly
/// the last byte of the buffer and blanks exactly one screen cell, the one
/// at the column just left of the pre-backspace cursor (staying at column 0
/// when already there); on an empty line it changes neither the buffer nor
/// the screen.
pub proof fn lemma_backspace(
    g: Seq<Seq<ScreenChar>>,
    col: int,
    color: ColorCode,
    line: Seq<u8>,
)
    requires
        g.len() == BUFFER_HEIGHT,
        forall|r: int|
            0 <= r < BUFFER_HEIGHT ==> (#[trigger] g[r]).len()
                == BUFFER_WIDTH,
        0 <= col <= BUFFER_WIDTH,
    ensures
        line.len() == 0 ==> line_step(line, BACKSPACE_BYTE).0 == line && echo_step(
            g,
            col,
            color,
            line,
            BACKSPACE_BYTE,
        ) == (g, col),
        line.len() > 0 ==> line_step(line, BACKSPACE_BYTE).0 == line.drop_last(),
        line.len() > 0 ==> line_step(line, BACKSPACE_BYTE).0.len() == line.len() - 1,
        line.len() > 0 ==> ({
            let back = if col > 0 {
                col - 1
            } else {
                0int
            };
            let after = echo_step(g, col, color, line, BACKSPACE_BYTE).0;
            &&& after[BUFFER_HEIGHT - 1][back] == blank_char(color)
            &&& forall|r: int, c: int|
                0 <= r < BUFFER_HEIGHT && 0 <= c
                    < BUFFER_WIDTH && !(r == BUFFER_HEIGHT
                    - 1 && c == back) ==> #[trigger] after[r][c] == g[r][c]
        }),
        line_step(line, BACKSPACE_BYTE).1 is None,
{
}

} // verus!
