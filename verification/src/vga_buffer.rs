//! The text-mode display writer: a fixed grid of character cells, a cursor
//! column, and a color attribute.  Every cell is stored behind a volatile
//! wrapper so that stores to the grid are never elided or reordered, as the
//! display hardware reads the cells behind the compiler's back.

use vstd::prelude::*;
use vstd::string::{StrSliceExecFns, StringSliceAdditionalSpecFns};
use volatile::Volatile;

verus! {

/// Number of rows of the fixed display grid.
pub const BUFFER_HEIGHT: usize = 25;

/// Number of columns of the fixed display grid.
pub const BUFFER_WIDTH: usize = 80;

/// The byte rendered in place of a blank cell (ASCII space).
pub const BLANK_BYTE: u8 = 32;

/// The newline byte, which scrolls the grid instead of being rendered.
pub const NEWLINE_BYTE: u8 = 10;

/// The glyph substituted for bytes outside the printable ASCII range.
pub const REPLACEMENT_BYTE: u8 = 254;

/// One of the sixteen colors of the fixed text-mode palette.
#[derive(Debug, Clone, Copy, PartialEq, Eq)]
pub enum Color {
    Black,
    Blue,
    Green,
    Cyan,
    Red,
    Magenta,
    Brown,
    LightGray,
    DarkGray,
    LightBlue,
    LightGreen,
    LightCyan,
    LightRed,
    Pink,
    Yellow,
    White,
}

impl Color {
    /// The palette index of this color, as the display hardware numbers them.
    pub open spec fn spec_code(self) -> u8 {
        match self {
            Color::Black => 0,
            Color::Blue => 1,
            Color::Green => 2,
            Color::Cyan => 3,
            Color::Red => 4,
            Color::Magenta => 5,
            Color::Brown => 6,
            Color::LightGray => 7,
            Color::DarkGray => 8,
            Color::LightBlue => 9,
            Color::LightGreen => 10,
            Color::LightCyan => 11,
            Color::LightRed => 12,
            Color::Pink => 13,
            Color::Yellow => 14,
            Color::White => 15,
        }
    }

    /// The palette index of this color.
    #[verifier::when_used_as_spec(spec_code)]
    pub fn code(self) -> (c: u8)
        ensures
            c == self.spec_code(),
            c <= 15,
    {
        match self {
            Color::Black => 0,
            Color::Blue => 1,
            Color::Green => 2,
            Color::Cyan => 3,
            Color::Red => 4,
            Color::Magenta => 5,
            Color::Brown => 6,
            Color::LightGray => 7,
            Color::DarkGray => 8,
            Color::LightBlue => 9,
            Color::LightGreen => 10,
            Color::LightCyan => 11,
            Color::LightRed => 12,
            Color::Pink => 13,
            Color::Yellow => 14,
            Color::White => 15,
        }
    }
}

/// A packed (foreground, background) attribute byte: the background palette
/// index in the high four bits, the foreground in the low four.
#[derive(Debug, Clone, Copy, PartialEq, Eq, Structural)]
pub struct ColorCode(pub u8);

impl ColorCode {
    /// Pack a foreground and a background color into one attribute byte.
    pub fn new(foreground: Color, background: Color) -> (c: ColorCode)
        ensures
            c.0 == background.spec_code() * 16 + foreground.spec_code(),
    {
        ColorCode(background.code() * 16 + foreground.code())
    }
}

/// ASCII lowercasing of one character: 'A' through 'Z' map to their
/// lower-case counterparts, everything else is unchanged.
pub open spec fn lower_char(c: char) -> char {
    match c {
        'A' => 'a',
        'B' => 'b',
        'C' => 'c',
        'D' => 'd',
        'E' => 'e',
        'F' => 'f',
        'G' => 'g',
        'H' => 'h',
        'I' => 'i',
        'J' => 'j',
        'K' => 'k',
        'L' => 'l',
        'M' => 'm',
        'N' => 'n',
        'O' => 'o',
        'P' => 'p',
        'Q' => 'q',
        'R' => 'r',
        'S' => 's',
        'T' => 't',
        'U' => 'u',
        'V' => 'v',
        'W' => 'w',
        'X' => 'x',
        'Y' => 'y',
        'Z' => 'z',
        _ => c,
    }
}

/// ASCII lowercasing of a character sequence.
pub open spec fn lower_chars(s: Seq<char>) -> Seq<char> {
    s.map_values(|c: char| lower_char(c))
}

/// The recognized name of each palette color, in lower case.
pub open spec fn color_name(c: Color) -> Seq<char> {
    match c {
        Color::Black => seq!['b', 'l', 'a', 'c', 'k'],
        Color::Blue => seq!['b', 'l', 'u', 'e'],
        Color::Green => seq!['g', 'r', 'e', 'e', 'n'],
        Color::Cyan => seq!['c', 'y', 'a', 'n'],
        Color::Red => seq!['r', 'e', 'd'],
        Color::Magenta => seq!['m', 'a', 'g', 'e', 'n', 't', 'a'],
        Color::Brown => seq!['b', 'r', 'o', 'w', 'n'],
        Color::LightGray => seq!['l', 'i', 'g', 'h', 't', 'g', 'r', 'a', 'y'],
        Color::DarkGray => seq!['d', 'a', 'r', 'k', 'g', 'r', 'a', 'y'],
        Color::LightBlue => seq!['l', 'i', 'g', 'h', 't', 'b', 'l', 'u', 'e'],
        Color::LightGreen => seq!['l', 'i', 'g', 'h', 't', 'g', 'r', 'e', 'e', 'n'],
        Color::LightCyan => seq!['l', 'i', 'g', 'h', 't', 'c', 'y', 'a', 'n'],
        Color::LightRed => seq!['l', 'i', 'g', 'h', 't', 'r', 'e', 'd'],
        Color::Pink => seq!['p', 'i', 'n', 'k'],
        Color::Yellow => seq!['y', 'e', 'l', 'l', 'o', 'w'],
        Color::White => seq!['w', 'h', 'i', 't', 'e'],
    }
}

/// The color whose name the string spells, compared without regard to ASCII
/// case; `None` if it spells no recognized name.
pub open spec fn spec_color_from_str(s: Seq<char>) -> Option<Color> {
    if lower_chars(s) == color_name(Color::Black) {
        Some(Color::Black)
    } else if lower_chars(s) == color_name(Color::Blue) {
        Some(Color::Blue)
    } else if lower_chars(s) == color_name(Color::Green) {
        Some(Color::Green)
    } else if lower_chars(s) == color_name(Color::Cyan) {
        Some(Color::Cyan)
    } else if lower_chars(s) == color_name(Color::Red) {
        Some(Color::Red)
    } else if lower_chars(s) == color_name(Color::Magenta) {
        Some(Color::Magenta)
    } else if lower_chars(s) == color_name(Color::Brown) {
        Some(Color::Brown)
    } else if lower_chars(s) == color_name(Color::LightGray) {
        Some(Color::LightGray)
    } else if lower_chars(s) == color_name(Color::DarkGray) {
        Some(Color::DarkGray)
    } else if lower_chars(s) == color_name(Color::LightBlue) {
        Some(Color::LightBlue)
    } else if lower_chars(s) == color_name(Color::LightGreen) {
        Some(Color::LightGreen)
    } else if lower_chars(s) == color_name(Color::LightCyan) {
        Some(Color::LightCyan)
    } else if lower_chars(s) == color_name(Color::LightRed) {
        Some(Color::LightRed)
    } else if lower_chars(s) == color_name(Color::Pink) {
        Some(Color::Pink)
    } else if lower_chars(s) == color_name(Color::Yellow) {
        Some(Color::Yellow)
    } else if lower_chars(s) == color_name(Color::White) {
        Some(Color::White)
    } else {
        None
    }
}

/// ASCII lowercasing of one character.
fn to_lower(c: char) -> (r: char)
    ensures
        r == lower_char(c),
{
    match c {
        'A' => 'a',
        'B' => 'b',
        'C' => 'c',
        'D' => 'd',
        'E' => 'e',
        'F' => 'f',
        'G' => 'g',
        'H' => 'h',
        'I' => 'i',
        'J' => 'j',
        'K' => 'k',
        'L' => 'l',
        'M' => 'm',
        'N' => 'n',
        'O' => 'o',
        'P' => 'p',
        'Q' => 'q',
        'R' => 'r',
        'S' => 's',
        'T' => 't',
        'U' => 'u',
        'V' => 'v',
        'W' => 'w',
        'X' => 'x',
        'Y' => 'y',
        'Z' => 'z',
        _ => c,
    }
}

impl Color {
    /// Look a color up by its name, without regard to ASCII case; `None` for
    /// anything that is not one of the sixteen recognized names.
    pub fn from_str(color: &str) -> (r: Option<Color>)
        ensures
            r == spec_color_from_str(color@),
    {
        let n = color.unicode_len();
        let mut lowered: Vec<char> = Vec::new();
        let mut i: usize = 0;
        while i < n
            invariant
                i <= n,
                n == color@.len(),
                lowered@ == lower_chars(color@.take(i as int)),
            decreases n - i,
        {
            let c = color.get_char(i);
            lowered.push(to_lower(c));
            proof {
                assert(color@.take(i + 1) =~= color@.take(i as int).push(color@[i as int]));
                assert(lower_chars(color@.take(i + 1)) =~= lower_chars(
                    color@.take(i as int),
                ).push(lower_char(color@[i as int])));
            }
            i = i + 1;
        }
        proof {
            assert(color@.take(n as int) =~= color@);
        }
        let len = lowered.len();
        if len == 3 {
            if lowered[0] == 'r' && lowered[1] == 'e' && lowered[2] == 'd' {
                proof {
                    assert(lowered@ =~= color_name(Color::Red));
                }
                return Some(Color::Red);
            }
        } else if len == 4 {
            let c0 = lowered[0];
            let c1 = lowered[1];
            let c2 = lowered[2];
            let c3 = lowered[3];
            if c0 == 'b' && c1 == 'l' && c2 == 'u' && c3 == 'e' {
                proof {
                    assert(lowered@ =~= color_name(Color::Blue));
                }
                return Some(Color::Blue);
            }
            if c0 == 'c' && c1 == 'y' && c2 == 'a' && c3 == 'n' {
                proof {
                    assert(lowered@ =~= color_name(Color::Cyan));
                }
                return Some(Color::Cyan);
            }
            if c0 == 'p' && c1 == 'i' && c2 == 'n' && c3 == 'k' {
                proof {
                    assert(lowered@ =~= color_name(Color::Pink));
                }
                return Some(Color::Pink);
            }
        } else if len == 5 {
            let c0 = lowered[0];
            let c1 = lowered[1];
            let c2 = lowered[2];
            let c3 = lowered[3];
            let c4 = lowered[4];
            if c0 == 'b' && c1 == 'l' && c2 == 'a' && c3 == 'c' && c4 == 'k' {
                proof {
                    assert(lowered@ =~= color_name(Color::Black));
                }
                return Some(Color::Black);
            }
            if c0 == 'g' && c1 == 'r' && c2 == 'e' && c3 == 'e' && c4 == 'n' {
                proof {
                    assert(lowered@ =~= color_name(Color::Green));
                }
                return Some(Color::Green);
            }
            if c0 == 'b' && c1 == 'r' && c2 == 'o' && c3 == 'w' && c4 == 'n' {
                proof {
                    assert(lowered@ =~= color_name(Color::Brown));
                }
                return Some(Color::Brown);
            }
            if c0 == 'w' && c1 == 'h' && c2 == 'i' && c3 == 't' && c4 == 'e' {
                proof {
                    assert(lowered@ =~= color_name(Color::White));
                }
                return Some(Color::White);
            }
        } else if len == 6 {
            if lowered[0] == 'y' && lowered[1] == 'e' && lowered[2] == 'l' && lowered[3] == 'l'
                && lowered[4] == 'o' && lowered[5] == 'w' {
                proof {
                    assert(lowered@ =~= color_name(Color::Yellow));
                }
                return Some(Color::Yellow);
            }
        } else if len == 7 {
            if lowered[0] == 'm' && lowered[1] == 'a' && lowered[2] == 'g' && lowered[3] == 'e'
                && lowered[4] == 'n' && lowered[5] == 't' && lowered[6] == 'a' {
                proof {
                    assert(lowered@ =~= color_name(Color::Magenta));
                }
                return Some(Color::Magenta);
            }
        } else if len == 8 {
            let c0 = lowered[0];
            let c1 = lowered[1];
            let c2 = lowered[2];
            let c3 = lowered[3];
            let c4 = lowered[4];
            let c5 = lowered[5];
            let c6 = lowered[6];
            let c7 = lowered[7];
            if c0 == 'd' && c1 == 'a' && c2 == 'r' && c3 == 'k' && c4 == 'g' && c5 == 'r' && c6
                == 'a' && c7 == 'y' {
                proof {
                    assert(lowered@ =~= color_name(Color::DarkGray));
                }
                return Some(Color::DarkGray);
            }
            if c0 == 'l' && c1 == 'i' && c2 == 'g' && c3 == 'h' && c4 == 't' && c5 == 'r' && c6
                == 'e' && c7 == 'd' {
                proof {
                    assert(lowered@ =~= color_name(Color::LightRed));
                }
                return Some(Color::LightRed);
            }
        } else if len == 9 {
            let c0 = lowered[0];
            let c1 = lowered[1];
            let c2 = lowered[2];
            let c3 = lowered[3];
            let c4 = lowered[4];
            let c5 = lowered[5];
            let c6 = lowered[6];
            let c7 = lowered[7];
            let c8 = lowered[8];
            if c0 == 'l' && c1 == 'i' && c2 == 'g' && c3 == 'h' && c4 == 't' {
                if c5 == 'g' && c6 == 'r' && c7 == 'a' && c8 == 'y' {
                    proof {
                        assert(lowered@ =~= color_name(Color::LightGray));
                    }
                    return Some(Color::LightGray);
                }
                if c5 == 'b' && c6 == 'l' && c7 == 'u' && c8 == 'e' {
                    proof {
                        assert(lowered@ =~= color_name(Color::LightBlue));
                    }
                    return Some(Color::LightBlue);
                }
                if c5 == 'c' && c6 == 'y' && c7 == 'a' && c8 == 'n' {
                    proof {
                        assert(lowered@ =~= color_name(Color::LightCyan));
                    }
                    return Some(Color::LightCyan);
                }
            }
        } else if len == 10 {
            if lowered[0] == 'l' && lowered[1] == 'i' && lowered[2] == 'g' && lowered[3] == 'h'
                && lowered[4] == 't' && lowered[5] == 'g' && lowered[6] == 'r' && lowered[7] == 'e'
                && lowered[8] == 'e' && lowered[9] == 'n' {
                proof {
                    assert(lowered@ =~= color_name(Color::LightGreen));
                }
                return Some(Color::LightGreen);
            }
        }
        None
    }
}

/// One cell of the display grid: a character byte and its color attribute.
#[derive(Debug, Clone, Copy, PartialEq, Eq, Structural)]
pub struct ScreenChar {
    pub ascii_character: u8,
    pub color_code: ColorCode,
}

/// volatile's wrapper type, which makes every load and store of the wrapped
/// value a volatile access.
#[verifier::external_type_specification]
#[verifier::external_body]
#[verifier::reject_recursive_types(T)]
pub struct ExVolatile<T: Copy>(Volatile<T>);

/// The value wrapped by a volatile cell.  A `Volatile<T>` is a plain value of
/// `T` whose loads and stores the compiler may not elide or reorder; this
/// names that value so that contracts can speak about the grid's contents.
pub uninterp spec fn cell_contents(cell: Volatile<ScreenChar>) -> ScreenChar;

/// Relies on volatile::Volatile::new, which wraps the given value.
#[verifier::external_body]
fn cell_new(value: ScreenChar) -> (cell: Volatile<ScreenChar>)
    ensures
        cell_contents(cell) == value,
{
    Volatile::new(value)
}

/// Relies on volatile::Volatile::read, a volatile load of the wrapped value.
#[verifier::external_body]
fn cell_read(cell: &Volatile<ScreenChar>) -> (value: ScreenChar)
    ensures
        value == cell_contents(*cell),
{
    cell.read()
}

/// Relies on volatile::Volatile::write, a volatile store of the given value.
#[verifier::external_body]
fn cell_write(cell: &mut Volatile<ScreenChar>, value: ScreenChar)
    ensures
        cell_contents(*final(cell)) == value,
{
    cell.write(value)
}

/// The contents of one row of volatile cells.
pub open spec fn row_view(row: Vec<Volatile<ScreenChar>>) -> Seq<ScreenChar> {
    row@.map_values(|cell: Volatile<ScreenChar>| cell_contents(cell))
}

/// A blank cell in the given color.
pub open spec fn blank_char(color: ColorCode) -> ScreenChar {
    ScreenChar { ascii_character: BLANK_BYTE, color_code: color }
}

/// A full row of blank cells in the given color.
pub open spec fn blank_row(color: ColorCode) -> Seq<ScreenChar> {
    Seq::new(BUFFER_WIDTH as nat, |c: int| blank_char(color))
}

/// The grid after scrolling: every row receives the row below it, and the
/// bottom row is cleared to blanks in the given color.
pub open spec fn scrolled(g: Seq<Seq<ScreenChar>>, color: ColorCode) -> Seq<Seq<ScreenChar>> {
    Seq::new(
        BUFFER_HEIGHT as nat,
        |r: int| if r < BUFFER_HEIGHT - 1 { g[r + 1] } else { blank_row(color) },
    )
}

/// The grid after placing byte `b` at the given column of the bottom row.
pub open spec fn char_placed(g: Seq<Seq<ScreenChar>>, col: int, color: ColorCode, b: u8) -> Seq<
    Seq<ScreenChar>,
> {
    let r = BUFFER_HEIGHT - 1;
    g.update(r, g[r].update(col, ScreenChar { ascii_character: b, color_code: color }))
}

/// The grid and cursor column after `write_byte(b)`: a newline scrolls and
/// returns the cursor to column 0; any other byte is placed at the cursor on
/// the bottom row, after a scroll if the row is already full.
pub open spec fn byte_written(g: Seq<Seq<ScreenChar>>, col: int, color: ColorCode, b: u8) -> (
    Seq<Seq<ScreenChar>>,
    int,
) {
    if b == NEWLINE_BYTE {
        (scrolled(g, color), 0)
    } else if col >= BUFFER_WIDTH {
        (char_placed(scrolled(g, color), 0, color, b), 1)
    } else {
        (char_placed(g, col, color, b), col + 1)
    }
}

/// Whether a byte is printable ASCII (space through tilde).
pub open spec fn is_printable(b: u8) -> bool {
    0x20 <= b <= 0x7e
}

/// How `write_string` renders one byte: printable ASCII and newline pass
/// through; everything else is replaced by the fixed replacement glyph.
pub open spec fn rendered_byte(b: u8) -> u8 {
    if is_printable(b) || b == NEWLINE_BYTE {
        b
    } else {
        REPLACEMENT_BYTE
    }
}

/// The grid and cursor column after writing a whole byte sequence, rendering
/// each byte in turn.
pub open spec fn string_written(
    g: Seq<Seq<ScreenChar>>,
    col: int,
    color: ColorCode,
    bytes: Seq<u8>,
) -> (Seq<Seq<ScreenChar>>, int)
    decreases bytes.len(),
{
    if bytes.len() == 0 {
        (g, col)
    } else {
        let step = byte_written(g, col, color, rendered_byte(bytes[0]));
        string_written(step.0, step.1, color, bytes.skip(1))
    }
}

/// The cursor column after a row of printable bytes of length `n` written
/// starting from column `col`: the cursor advances by exactly `n`, modulo the
/// wraps that occur each time a row fills up.
pub open spec fn advanced_col(col: int, n: nat) -> int {
    if n == 0 {
        col
    } else {
        let start = if col >= BUFFER_WIDTH { 0 } else { col };
        ((start + n - 1) % (BUFFER_WIDTH as int)) + 1
    }
}

/// Writing a newline clears the bottom row and shifts all other rows up by
/// exactly one, whatever the grid held: afterwards row `r` holds what row
/// `r + 1` held before, for every row but the last; the last row is blank in
/// the writer's color; and the cursor returns to column 0.
pub proof fn lemma_newline_shifts_rows(g: Seq<Seq<ScreenChar>>, col: int, color: ColorCode)
    ensures
        forall|r: int|
            0 <= r < BUFFER_HEIGHT - 1 ==> #[trigger] byte_written(g, col, color, NEWLINE_BYTE).0[r]
                == g[r + 1],
        byte_written(g, col, color, NEWLINE_BYTE).0[BUFFER_HEIGHT - 1] == blank_row(color),
        byte_written(g, col, color, NEWLINE_BYTE).1 == 0,
{
}

/// A single printable byte wraps to a fresh bottom row exactly when the
/// cursor has passed the last column: within the row the cursor just moves
/// one column right and no row above the last changes; on a full row the
/// grid scrolls first and the byte lands at column 0.
pub proof fn lemma_wrap_exactly_when_row_full(
    g: Seq<Seq<ScreenChar>>,
    col: int,
    color: ColorCode,
    b: u8,
)
    requires
        is_printable(b),
        0 <= col <= BUFFER_WIDTH,
        g.len() == BUFFER_HEIGHT,
    ensures
        (byte_written(g, col, color, b).1 == col + 1) <==> col < BUFFER_WIDTH,
        col < BUFFER_WIDTH ==> forall|r: int|
            0 <= r < BUFFER_HEIGHT - 1 ==> #[trigger] byte_written(g, col, color, b).0[r] == g[r],
        col == BUFFER_WIDTH ==> byte_written(g, col, color, b).1 == 1 && forall|r: int|
            0 <= r < BUFFER_HEIGHT - 1 ==> #[trigger] byte_written(g, col, color, b).0[r]
                == scrolled(g, color)[r],
{
}

/// For any printable string not containing a newline, writing it advances
/// the cursor by exactly the string's length modulo wraps, as `advanced_col`
/// states.
pub proof fn lemma_write_string_advances_cursor(
    g: Seq<Seq<ScreenChar>>,
    col: int,
    color: ColorCode,
    bytes: Seq<u8>,
)
    requires
        0 <= col <= BUFFER_WIDTH,
        forall|i: int| 0 <= i < bytes.len() ==> is_printable(#[trigger] bytes[i]),
    ensures
        string_written(g, col, color, bytes).1 == advanced_col(col, bytes.len()),
    decreases bytes.len(),
{
    if bytes.len() > 0 {
        let b = rendered_byte(bytes[0]);
        assert(b == bytes[0]);
        let step = byte_written(g, col, color, b);
        assert(0 <= step.1 <= BUFFER_WIDTH);
        lemma_write_string_advances_cursor(step.0, step.1, color, bytes.skip(1));
        assert(string_written(g, col, color, bytes).1 == advanced_col(
            step.1,
            (bytes.len() - 1) as nat,
        ));
        let n = bytes.len() as int;
        let w = BUFFER_WIDTH as int;
        let start = if col >= w {
            0int
        } else {
            col
        };
        assert(step.1 == start + 1);
        if n == 1 {
            vstd::arithmetic::div_mod::lemma_small_mod(start as nat, w as nat);
            assert(advanced_col(col, 1) == (start % w) + 1);
        } else {
            if step.1 == w {
                // the first byte just filled the row; the rest starts afresh
                assert(advanced_col(step.1, (n - 1) as nat) == ((n - 2) % w) + 1);
                vstd::arithmetic::div_mod::lemma_mod_add_multiples_vanish(n - 2, w);
                assert((start + n - 1) % w == (n - 2) % w);
            } else {
                assert(advanced_col(step.1, (n - 1) as nat) == ((start + n - 1) % w) + 1);
            }
        }
    }
}

/// Writing one string and then another leaves the same grid and cursor as
/// writing their concatenation in one call.
pub proof fn lemma_string_written_concat(
    g: Seq<Seq<ScreenChar>>,
    col: int,
    color: ColorCode,
    a: Seq<u8>,
    b: Seq<u8>,
)
    ensures
        string_written(g, col, color, a + b) == ({
            let first = string_written(g, col, color, a);
            string_written(first.0, first.1, color, b)
        }),
    decreases a.len(),
{
    if a.len() == 0 {
        assert(a + b =~= b);
    } else {
        assert((a + b)[0] == a[0]);
        assert((a + b).skip(1) =~= a.skip(1) + b);
        let step = byte_written(g, col, color, rendered_byte(a[0]));
        lemma_string_written_concat(step.0, step.1, color, a.skip(1), b);
    }
}

/// Owns the display grid and renders text into it: byte and string writes,
/// scrolling, a cursor column, and the current color attribute.
pub struct Writer {
    column_position: usize,
    color_code: ColorCode,
    buffer: Vec<Vec<Volatile<ScreenChar>>>,
}

impl Writer {
    /// The contents of the grid, row by row.
    pub closed spec fn grid(self) -> Seq<Seq<ScreenChar>> {
        self.buffer@.map_values(|row: Vec<Volatile<ScreenChar>>| row_view(row))
    }

    /// The cursor column.  It can rest one past the last column after a row
    /// fills up; the pending wrap happens before the next byte is placed.
    pub closed spec fn col(self) -> int {
        self.column_position as int
    }

    /// The current color attribute.
    pub closed spec fn color(self) -> ColorCode {
        self.color_code
    }

    /// The grid has the fixed geometry and the cursor is within bounds.
    pub open spec fn wf(self) -> bool {
        &&& self.grid().len() == BUFFER_HEIGHT
        &&& (forall|r: int|
            0 <= r < BUFFER_HEIGHT ==> (#[trigger] self.grid()[r]).len() == BUFFER_WIDTH)
        &&& 0 <= self.col() <= BUFFER_WIDTH
    }

    /// The default attribute: white text on a black background.
    pub open spec fn spec_default_color_code() -> ColorCode {
        ColorCode(15)
    }

    #[verifier::when_used_as_spec(spec_default_color_code)]
    pub fn default_color_code() -> (c: ColorCode)
        ensures
            c == Self::spec_default_color_code(),
    {
        ColorCode::new(Color::White, Color::Black)
    }

    /// A writer over a grid of blank cells, in the default color, with the
    /// cursor at column 0.
    pub fn new() -> (w: Writer)
        ensures
            w.wf(),
            w.col() == 0,
            w.color() == Self::spec_default_color_code(),
            forall|r: int|
                0 <= r < BUFFER_HEIGHT ==> #[trigger] w.grid()[r] == blank_row(
                    Self::spec_default_color_code(),
                ),
    {
        let color = Writer::default_color_code();
        let blank = ScreenChar { ascii_character: BLANK_BYTE, color_code: color };
        let mut buffer: Vec<Vec<Volatile<ScreenChar>>> = Vec::new();
        let mut r: usize = 0;
        while r < BUFFER_HEIGHT
            invariant
                r <= BUFFER_HEIGHT,
                blank == blank_char(color),
                buffer@.len() == r,
                forall|i: int|
                    0 <= i < r ==> row_view(#[trigger] buffer@[i]) == blank_row(color),
            decreases BUFFER_HEIGHT - r,
        {
            let mut row: Vec<Volatile<ScreenChar>> = Vec::new();
            let mut c: usize = 0;
            while c < BUFFER_WIDTH
                invariant
                    c <= BUFFER_WIDTH,
                    blank == blank_char(color),
                    row@.len() == c,
                    forall|j: int|
                        0 <= j < c ==> cell_contents(#[trigger] row@[j]) == blank_char(color),
                decreases BUFFER_WIDTH - c,
            {
                let cell = cell_new(blank);
                row.push(cell);
                c = c + 1;
            }
            proof {
                assert(row_view(row) =~= blank_row(color));
            }
            buffer.push(row);
            r = r + 1;
        }
        let w = Writer { column_position: 0, color_code: color, buffer };
        proof {
            assert(forall|i: int|
                0 <= i < BUFFER_HEIGHT ==> #[trigger] w.grid()[i] == row_view(w.buffer@[i]));
        }
        w
    }

    /// The grid is the row-by-row contents of the underlying vectors.
    proof fn lemma_grid_index(self, r: int)
        requires
            0 <= r < self.buffer@.len(),
        ensures
            self.grid().len() == self.buffer@.len(),
            self.grid()[r] == row_view(self.buffer@[r]),
            self.grid()[r].len() == self.buffer@[r]@.len(),
    {
    }

    /// Store one cell of the grid.
    fn set_cell(&mut self, row: usize, col: usize, value: ScreenChar)
        requires
            old(self).wf(),
            row < BUFFER_HEIGHT,
            col < BUFFER_WIDTH,
        ensures
            final(self).wf(),
            final(self).grid() == old(self).grid().update(
                row as int,
                old(self).grid()[row as int].update(col as int, value),
            ),
            final(self).col() == old(self).col(),
            final(self).color() == old(self).color(),
    {
        proof {
            self.lemma_grid_index(row as int);
        }
        let cell = &mut self.buffer[row][col];
        cell_write(cell, value);
        proof {
            assert(row_view(self.buffer@[row as int]) =~= old(self).grid()[row as int].update(
                col as int,
                value,
            ));
            assert(self.grid() =~~= old(self).grid().update(
                row as int,
                old(self).grid()[row as int].update(col as int, value),
            ));
        }
    }

    /// Load one cell of the grid.
    pub fn char_at(&self, row: usize, col: usize) -> (value: ScreenChar)
        requires
            self.wf(),
            row < BUFFER_HEIGHT,
            col < BUFFER_WIDTH,
        ensures
            value == self.grid()[row as int][col as int],
    {
        proof {
            self.lemma_grid_index(row as int);
        }
        cell_read(&self.buffer[row][col])
    }

    /// The cursor column.
    pub fn cursor_column(&self) -> (c: usize)
        ensures
            c == self.col(),
    {
        self.column_position
    }

    /// The current color attribute.
    pub fn current_color_code(&self) -> (c: ColorCode)
        ensures
            c == self.color(),
    {
        self.color_code
    }

    /// Clear one row to blanks in the current color.
    fn clear_row(&mut self, row: usize)
        requires
            old(self).wf(),
            row < BUFFER_HEIGHT,
        ensures
            final(self).wf(),
            final(self).grid() == old(self).grid().update(row as int, blank_row(old(self).color())),
            final(self).col() == old(self).col(),
            final(self).color() == old(self).color(),
    {
        let blank = ScreenChar { ascii_character: BLANK_BYTE, color_code: self.color_code };
        let mut col: usize = 0;
        while col < BUFFER_WIDTH
            invariant
                self.wf(),
                old(self).wf(),
                col <= BUFFER_WIDTH,
                row < BUFFER_HEIGHT,
                blank == blank_char(old(self).color()),
                self.col() == old(self).col(),
                self.color() == old(self).color(),
                forall|rr: int|
                    0 <= rr < BUFFER_HEIGHT && rr != row ==> #[trigger] self.grid()[rr] == old(
                        self,
                    ).grid()[rr],
                forall|j: int|
                    0 <= j < col ==> #[trigger] self.grid()[row as int][j] == blank_char(
                        old(self).color(),
                    ),
                forall|j: int|
                    col <= j < BUFFER_WIDTH ==> #[trigger] self.grid()[row as int][j] == old(
                        self,
                    ).grid()[row as int][j],
            decreases BUFFER_WIDTH - col,
        {
            self.set_cell(row, col, blank);
            col = col + 1;
        }
        proof {
            assert(self.grid()[row as int] =~= blank_row(old(self).color()));
            assert(self.grid() =~~= old(self).grid().update(
                row as int,
                blank_row(old(self).color()),
            ));
        }
    }

    /// Scroll: copy every row up by one, clear the bottom row to blanks in
    /// the current color, and return the cursor to column 0.
    fn new_line(&mut self)
        requires
            old(self).wf(),
        ensures
            final(self).wf(),
            final(self).grid() == scrolled(old(self).grid(), old(self).color()),
            final(self).col() == 0,
            final(self).color() == old(self).color(),
    {
        let mut row: usize = 1;
        while row < BUFFER_HEIGHT
            invariant
                self.wf(),
                old(self).wf(),
                1 <= row <= BUFFER_HEIGHT,
                self.col() == old(self).col(),
                self.color() == old(self).color(),
                forall|rr: int|
                    0 <= rr < row - 1 ==> #[trigger] self.grid()[rr] == old(self).grid()[rr + 1],
                forall|rr: int|
                    row - 1 <= rr < BUFFER_HEIGHT ==> #[trigger] self.grid()[rr] == old(
                        self,
                    ).grid()[rr],
            decreases BUFFER_HEIGHT - row,
        {
            let mut col: usize = 0;
            while col < BUFFER_WIDTH
                invariant
                    self.wf(),
                    old(self).wf(),
                    1 <= row < BUFFER_HEIGHT,
                    col <= BUFFER_WIDTH,
                    self.col() == old(self).col(),
                    self.color() == old(self).color(),
                    forall|rr: int|
                        0 <= rr < row - 1 ==> #[trigger] self.grid()[rr] == old(self).grid()[rr
                            + 1],
                    forall|rr: int|
                        row <= rr < BUFFER_HEIGHT ==> #[trigger] self.grid()[rr] == old(
                            self,
                        ).grid()[rr],
                    forall|j: int|
                        0 <= j < col ==> #[trigger] self.grid()[row - 1][j] == old(
                            self,
                        ).grid()[row as int][j],
                    forall|j: int|
                        col <= j < BUFFER_WIDTH ==> #[trigger] self.grid()[row - 1][j] == old(
                            self,
                        ).grid()[row - 1][j],
                decreases BUFFER_WIDTH - col,
            {
                let character = self.char_at(row, col);
                self.set_cell(row - 1, col, character);
                col = col + 1;
            }
            proof {
                assert(self.grid()[row - 1] =~= old(self).grid()[row as int]);
            }
            row = row + 1;
        }
        self.clear_row(BUFFER_HEIGHT - 1);
        self.column_position = 0;
        proof {
            assert(self.grid() =~~= scrolled(old(self).grid(), old(self).color()));
        }
    }

    /// Write one byte: a newline scrolls; any other byte lands at the cursor
    /// on the bottom row, after a scroll if the row is already full.
    pub fn write_byte(&mut self, byte: u8)
        requires
            old(self).wf(),
        ensures
            final(self).wf(),
            final(self).grid() == byte_written(
                old(self).grid(),
                old(self).col(),
                old(self).color(),
                byte,
            ).0,
            final(self).col() == byte_written(
                old(self).grid(),
                old(self).col(),
                old(self).color(),
                byte,
            ).1,
            final(self).color() == old(self).color(),
    {
        if byte == NEWLINE_BYTE {
            self.new_line();
        } else {
            if self.column_position >= BUFFER_WIDTH {
                self.new_line();
            }
            let row = BUFFER_HEIGHT - 1;
            let col = self.column_position;
            let color_code = self.color_code;
            self.set_cell(row, col, ScreenChar { ascii_character: byte, color_code });
            self.column_position = col + 1;
        }
    }

    /// Write a string byte by byte, rendering printable ASCII and newline as
    /// they are and substituting the replacement glyph for everything else.
    pub fn write_string(&mut self, s: &str)
        requires
            old(self).wf(),
        ensures
            final(self).wf(),
            final(self).grid() == string_written(
                old(self).grid(),
                old(self).col(),
                old(self).color(),
                s.spec_bytes(),
            ).0,
            final(self).col() == string_written(
                old(self).grid(),
                old(self).col(),
                old(self).color(),
                s.spec_bytes(),
            ).1,
            final(self).color() == old(self).color(),
    {
        let bytes = s.as_bytes();
        let n = bytes.len();
        proof {
            assert(bytes@.skip(0) =~= bytes@);
        }
        let mut i: usize = 0;
        while i < n
            invariant
                self.wf(),
                old(self).wf(),
                i <= n,
                n == bytes@.len(),
                bytes@ == s.spec_bytes(),
                self.color() == old(self).color(),
                string_written(
                    old(self).grid(),
                    old(self).col(),
                    old(self).color(),
                    s.spec_bytes(),
                ) == string_written(self.grid(), self.col(), self.color(), bytes@.skip(i as int)),
            decreases n - i,
        {
            let byte = bytes[i];
            if (0x20 <= byte && byte <= 0x7e) || byte == NEWLINE_BYTE {
                self.write_byte(byte);
            } else {
                self.write_byte(REPLACEMENT_BYTE);
            }
            proof {
                assert(bytes@.skip(i as int).skip(1) =~= bytes@.skip(i + 1));
            }
            i = i + 1;
        }
        proof {
            assert(bytes@.skip(n as int) =~= Seq::<u8>::empty());
        }
    }

    /// Move the cursor one column to the left; at the start of the row it
    /// stays at column 0.
    pub fn move_cursor_back(&mut self)
        requires
            old(self).wf(),
        ensures
            final(self).wf(),
            final(self).col() == if old(self).col() > 0 {
                old(self).col() - 1
            } else {
                0int
            },
            final(self).grid() == old(self).grid(),
            final(self).color() == old(self).color(),
    {
        if self.column_position > 0 {
            self.column_position = self.column_position - 1;
        }
    }

    /// Blank the cell under the cursor on the bottom row, in the current
    /// color.
    pub fn clear_char_at(&mut self)
        requires
            old(self).wf(),
            old(self).col() < BUFFER_WIDTH,
        ensures
            final(self).wf(),
            final(self).grid() == char_placed(
                old(self).grid(),
                old(self).col(),
                old(self).color(),
                BLANK_BYTE,
            ),
            final(self).col() == old(self).col(),
            final(self).color() == old(self).color(),
    {
        let row = BUFFER_HEIGHT - 1;
        let col = self.column_position;
        let blank = ScreenChar { ascii_character: BLANK_BYTE, color_code: self.color_code };
        self.set_cell(row, col, blank);
    }

    /// Backspace on the display: move the cursor one column left (staying at
    /// column 0 if already there) and blank the cell now under the cursor.
    pub fn handle_backspace(&mut self)
        requires
            old(self).wf(),
        ensures
            final(self).wf(),
            final(self).col() == if old(self).col() > 0 {
                old(self).col() - 1
            } else {
                0int
            },
            final(self).grid() == char_placed(
                old(self).grid(),
                final(self).col(),
                old(self).color(),
                BLANK_BYTE,
            ),
            final(self).color() == old(self).color(),
    {
        self.move_cursor_back();
        self.clear_char_at();
    }

    /// Set the color attribute used by all following writes.
    pub fn set_color(&mut self, foreground: Color, background: Color)
        ensures
            final(self).color().0 == background.spec_code() * 16 + foreground.spec_code(),
            final(self).grid() == old(self).grid(),
            final(self).col() == old(self).col(),
            old(self).wf() ==> final(self).wf(),
    {
        self.color_code = ColorCode::new(foreground, background);
    }
}

} // verus!
