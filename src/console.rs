//! The text console's data: colour attributes, the current mode, and the
//! encoding of text into the NUL-terminated UTF-16 chunks that the firmware
//! prints.
use vstd::prelude::*;

use crate::protocol::{color_code, Color};

verus! {

pub type Column = i32;

pub type Row = i32;

pub type ModeNumber = i32;

/// A console colour attribute: the foreground colour in the low four bits,
/// the background colour in the next three.
#[derive(Copy, Clone, Debug, PartialEq, Eq, Structural)]
pub struct Attribute {
    code: u32,
}

/// The attribute code of `foreground` on `background`; backgrounds keep
/// their low three bits only.
pub open spec fn attribute_code(foreground: Color, background: Color) -> u32 {
    (color_code(foreground) | ((color_code(background) & 0x07) << 4u8)) as u32
}

impl Attribute {
    pub closed spec fn code_spec(self) -> u32 {
        self.code
    }

    pub fn new(foreground: Color, background: Color) -> (r: Attribute)
        ensures
            r.code_spec() == attribute_code(foreground, background),
    {
        let code = (foreground.code() | ((background.code() & 0x07) << 4u8)) as u32;
        Attribute { code }
    }

    /// The attribute with the raw code that the firmware reports.
    pub fn from_code(code: u32) -> (r: Attribute)
        ensures
            r.code_spec() == code,
    {
        Attribute { code }
    }

    #[verifier::when_used_as_spec(code_spec)]
    pub fn code(self) -> (r: u32)
        ensures
            r == self.code_spec(),
    {
        self.code
    }

    pub fn foreground(self) -> (r: Color)
        ensures
            color_code(r) == self.code_spec() & 0x0f,
    {
        let code = self.code;
        let bits = (code & 0x0f) as u8;
        assert(code & 0x0f <= 0x0f) by (bit_vector);
        match Color::try_from(bits) {
            Ok(c) => c,
            Err(()) => Color::Black,
        }
    }

    pub fn background(self) -> (r: Color)
        ensures
            color_code(r) == (self.code_spec() >> 4u32) & 0x07,
    {
        let code = self.code;
        let bits = ((code >> 4u32) & 0x07) as u8;
        assert((code >> 4u32) & 0x07 <= 0x0f) by (bit_vector);
        match Color::try_from(bits) {
            Ok(c) => c,
            Err(()) => Color::Black,
        }
    }
}

/// An attribute gives back the foreground colour it was made with, and the
/// background colour's low three bits.
pub proof fn lemma_attribute_round_trip(foreground: Color, background: Color)
    ensures
        attribute_code(foreground, background) & 0x0f == color_code(foreground),
        (attribute_code(foreground, background) >> 4u32) & 0x07 == color_code(background) & 0x07,
{
    let f = color_code(foreground);
    let b = color_code(background);
    assert(f <= 0x0f);
    assert(f <= 0x0f ==> ((f | ((b & 0x07) << 4u8)) as u32) & 0x0f == f as u32) by (bit_vector);
    assert(f <= 0x0f ==> (((f | ((b & 0x07) << 4u8)) as u32) >> 4u32) & 0x07 == (b & 0x07) as u32)
        by (bit_vector);
}

/// The console's current mode and settings.
#[derive(Copy, Clone, Debug)]
pub struct Mode {
    pub max_mode: ModeNumber,
    pub mode: ModeNumber,
    pub attribute: Attribute,
    pub cursor_column: Column,
    pub cursor_row: Row,
    pub cursor_visible: bool,
}

/// The UTF-16 units that print one character: a newline becomes a carriage
/// return and a line feed, a surrogate code point the replacement character,
/// and a character beyond the basic plane a surrogate pair.
pub open spec fn char_units(c: char) -> Seq<u16> {
    let v = c as u32;
    if c == '\n' {
        seq![0x0Du16, 0x0Au16]
    } else if 0xd800 <= v && v < 0xe000 {
        seq![0xfffdu16]
    } else if v < 0x10000 {
        seq![v as u16]
    } else {
        seq![(0xd800 + (v - 0x10000) / 0x400) as u16, (0xdc00 + (v - 0x10000) % 0x400) as u16]
    }
}

/// The units of a whole text.
pub open spec fn text_units(s: Seq<char>) -> Seq<u16>
    decreases s.len(),
{
    if s.len() == 0 {
        seq![]
    } else {
        text_units(s.drop_last()) + char_units(s.last())
    }
}

/// Units buffered before a chunk is sent: a chunk is closed before a
/// character once this many are pending, which leaves room for a pair and
/// the terminator in a buffer of 32.
pub const CHUNK_UNITS: usize = 30;

/// The chunks closed so far, and the units pending, after `s`.
pub open spec fn chunking(s: Seq<char>) -> (Seq<Seq<u16>>, Seq<u16>)
    decreases s.len(),
{
    if s.len() == 0 {
        (seq![], seq![])
    } else {
        let (done, pending) = chunking(s.drop_last());
        if pending.len() >= CHUNK_UNITS {
            (done.push(pending.push(0u16)), char_units(s.last()))
        } else {
            (done, pending + char_units(s.last()))
        }
    }
}

/// The NUL-terminated chunks in which `s` is printed; the last one may hold
/// only the terminator.
pub open spec fn console_chunks(s: Seq<char>) -> Seq<Seq<u16>> {
    chunking(s).0.push(chunking(s).1.push(0u16))
}

fn push_char_units(buf: &mut Vec<u16>, c: char)
    ensures
        final(buf)@ == old(buf)@ + char_units(c),
{
    let v = c as u32;
    if c == '\n' {
        buf.push(0x0D);
        buf.push(0x0A);
    } else if 0xd800 <= v && v < 0xe000 {
        buf.push(0xfffd);
    } else if v < 0x10000 {
        buf.push(v as u16);
    } else {
        buf.push((0xd800 + (v - 0x10000) / 0x400) as u16);
        buf.push((0xdc00 + (v - 0x10000) % 0x400) as u16);
    }
    assert(final(buf)@ =~= old(buf)@ + char_units(c));
}

proof fn lemma_char_units_len(c: char)
    ensures
        1 <= char_units(c).len() <= 2,
{
}

/// Splits `text` into the NUL-terminated UTF-16 chunks that the console
/// prints, each at most 32 units long.
pub fn console_chunks_of(text: &Vec<char>) -> (r: Vec<Vec<u16>>)
    ensures
        r@.map_values(|v: Vec<u16>| v@) == console_chunks(text@),
        forall|i: int| 0 <= i < r@.len() ==> (#[trigger] r@[i])@.len() <= 32,
{
    let mut chunks: Vec<Vec<u16>> = Vec::new();
    let mut pending: Vec<u16> = Vec::new();
    let mut i: usize = 0;
    while i < text.len()
        invariant
            i <= text@.len(),
            chunks@.map_values(|v: Vec<u16>| v@) == chunking(text@.take(i as int)).0,
            pending@ == chunking(text@.take(i as int)).1,
            pending@.len() <= 31,
            forall|k: int| 0 <= k < chunks@.len() ==> (#[trigger] chunks@[k])@.len() <= 32,
        decreases text@.len() - i,
    {
        let c = text[i];
        assert(text@.take(i as int + 1).drop_last() =~= text@.take(i as int));
        assert(text@.take(i as int + 1).last() == c);
        proof {
            lemma_char_units_len(c);
        }
        if pending.len() >= CHUNK_UNITS {
            let mut closed = pending;
            closed.push(0);
            let ghost before = chunks@;
            chunks.push(closed);
            assert(chunks@.map_values(|v: Vec<u16>| v@) =~= before.map_values(|v: Vec<u16>| v@).push(
                closed@,
            ));
            pending = Vec::new();
        }
        push_char_units(&mut pending, c);
        i = i + 1;
    }
    assert(text@.take(i as int) =~= text@);
    let ghost before = chunks@;
    pending.push(0);
    chunks.push(pending);
    assert(chunks@.map_values(|v: Vec<u16>| v@) =~= before.map_values(|v: Vec<u16>| v@).push(
        pending@,
    ));
    chunks
}

/// The ASCII digit for a nibble, in upper case.
pub open spec fn hex_digit(n: u64) -> u8 {
    if n < 10 {
        (0x30 + n) as u8
    } else {
        (0x41 + n - 10) as u8
    }
}

/// The nibble of `num` at hexadecimal position `i`, counted from the most
/// significant of sixteen.
pub open spec fn nibble(num: u64, i: int) -> u64 {
    (num >> ((15 - i) * 4) as u64) & 0xf
}

/// `0x` followed by the sixteen upper-case hexadecimal digits of `num`.
pub fn format_x64(num: u64) -> (r: Vec<u8>)
    ensures
        r@.len() == 18,
        r@[0] == 0x30u8,
        r@[1] == 0x78u8,
        forall|i: int| 0 <= i < 16 ==> #[trigger] r@[i + 2] == hex_digit(nibble(num, i)),
{
    let mut r: Vec<u8> = Vec::new();
    r.push(0x30);
    r.push(0x78);
    let mut i: u64 = 0;
    while i < 16
        invariant
            i <= 16,
            r@.len() == i + 2,
            r@[0] == 0x30u8,
            r@[1] == 0x78u8,
            forall|k: int| 0 <= k < i ==> #[trigger] r@[k + 2] == hex_digit(nibble(num, k)),
        decreases 16 - i,
    {
        let shift: u64 = (15 - i) * 4;
        let n = (num >> shift) & 0xf;
        assert(n <= 0xf) by (bit_vector)
            requires
                n == (num >> shift) & 0xf,
        ;
        let d: u8 = if n < 10 {
            (0x30 + n) as u8
        } else {
            (0x41 + n - 10) as u8
        };
        r.push(d);
        i = i + 1;
    }
    r
}

} // verus!
