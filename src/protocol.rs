//! Firmware status codes, errors and shared protocol data types.
use vstd::prelude::*;

verus! {

/// The bit of a machine-width status code that marks a failure.
pub const ERROR_BIT: u64 = 0x8000_0000_0000_0000;

/// A globally unique identifier of a firmware protocol.
pub struct Guid(pub u32, pub u16, pub u16, pub [u8; 8]);

/// A successful firmware status; a non-zero code is a warning.
#[derive(Copy, Clone, Debug, PartialEq, Eq, Structural)]
pub struct Status {
    pub code: u64,
}

impl Status {
    pub fn success() -> (r: Status)
        ensures
            r.code == 0,
    {
        Status { code: 0 }
    }

    pub fn is_success(&self) -> (r: bool)
        ensures
            r == (self.code == 0),
    {
        self.code == 0
    }
}

/// A failed firmware status, without its error bit.
#[derive(Copy, Clone, Debug, PartialEq, Eq, Structural)]
pub struct Error {
    pub code: u64,
}

impl Error {
    pub fn invalid_parameter() -> (r: Error)
        ensures
            r.code == 2,
    {
        Error { code: 2 }
    }
}

/// What a raw status code means: `Ok` with the warning code when the error
/// bit is clear, `Err` with the remaining bits when it is set.
pub open spec fn status_meaning(status: u64) -> Result<Status, Error> {
    if status >= ERROR_BIT {
        Err(Error { code: (status - ERROR_BIT) as u64 })
    } else {
        Ok(Status { code: status })
    }
}

fn split_status(status: u64) -> (r: (bool, u64))
    ensures
        r.0 == (status >= ERROR_BIT),
        r.0 ==> r.1 == status - ERROR_BIT,
        !r.0 ==> r.1 == status,
{
    let failed = status & 0x8000_0000_0000_0000u64 != 0;
    let rest = status & 0x7fff_ffff_ffff_ffffu64;
    assert((status & 0x8000_0000_0000_0000u64 != 0) == (status >= 0x8000_0000_0000_0000u64))
        by (bit_vector);
    assert(status >= 0x8000_0000_0000_0000u64 ==> status & 0x7fff_ffff_ffff_ffffu64
        == status - 0x8000_0000_0000_0000u64) by (bit_vector);
    assert(status < 0x8000_0000_0000_0000u64 ==> status & 0x7fff_ffff_ffff_ffffu64 == status)
        by (bit_vector);
    (failed, rest)
}

/// Translates a 64-bit firmware status code into a status or an error.
pub fn status_to_status(status: u64) -> (r: Result<Status, Error>)
    ensures
        r == status_meaning(status),
{
    let (failed, rest) = split_status(status);
    if failed {
        Err(Error { code: rest })
    } else {
        Ok(Status { code: rest })
    }
}

/// Translates a 64-bit firmware status code into `val` on success, or the
/// error it reports.
pub fn status_to_result<T>(status: u64, val: T) -> (r: Result<T, Error>)
    ensures
        status < ERROR_BIT ==> r == Ok::<T, Error>(val),
        status >= ERROR_BIT ==> r == Err::<T, Error>(Error { code: (status - ERROR_BIT) as u64 }),
{
    let (failed, rest) = split_status(status);
    if failed {
        Err(Error { code: rest })
    } else {
        Ok(val)
    }
}

/// The bit of a 32-bit status code that marks a failure.
pub const ERROR_BIT_32: u32 = 0x8000_0000;

/// What a 32-bit status code means, as `status_meaning` does for 64 bits.
pub open spec fn status32_meaning(status: u32) -> Result<Status, Error> {
    if status >= ERROR_BIT_32 {
        Err(Error { code: (status - ERROR_BIT_32) as u64 })
    } else {
        Ok(Status { code: status as u64 })
    }
}

fn split_status32(status: u32) -> (r: (bool, u32))
    ensures
        r.0 == (status >= ERROR_BIT_32),
        r.0 ==> r.1 == status - ERROR_BIT_32,
        !r.0 ==> r.1 == status,
{
    let failed = status & 0x8000_0000u32 != 0;
    let rest = status & 0x7fff_ffffu32;
    assert((status & 0x8000_0000u32 != 0) == (status >= 0x8000_0000u32)) by (bit_vector);
    assert(status >= 0x8000_0000u32 ==> status & 0x7fff_ffffu32 == status - 0x8000_0000u32)
        by (bit_vector);
    assert(status < 0x8000_0000u32 ==> status & 0x7fff_ffffu32 == status) by (bit_vector);
    (failed, rest)
}

/// Translates a 32-bit firmware status code into a status or an error.
pub fn status32_to_status(status: u32) -> (r: Result<Status, Error>)
    ensures
        r == status32_meaning(status),
{
    let (failed, rest) = split_status32(status);
    if failed {
        Err(Error { code: rest as u64 })
    } else {
        Ok(Status { code: rest as u64 })
    }
}

/// Translates a 32-bit firmware status code into `val` on success, or the
/// error it reports.
pub fn status32_to_result<T>(status: u32, val: T) -> (r: Result<T, Error>)
    ensures
        status < ERROR_BIT_32 ==> r == Ok::<T, Error>(val),
        status >= ERROR_BIT_32 ==> r == Err::<T, Error>(
            Error { code: (status - ERROR_BIT_32) as u64 },
        ),
{
    let (failed, rest) = split_status32(status);
    if failed {
        Err(Error { code: rest as u64 })
    } else {
        Ok(val)
    }
}

/// The status that a run of successful console writes reports after
/// `next`: the latest warning, or `acc` when `next` is a plain success.
pub fn combine_status(acc: Status, next: Status) -> (r: Status)
    ensures
        r == (if next.code == 0 { acc } else { next }),
{
    if next.is_success() {
        acc
    } else {
        next
    }
}

/// The sixteen text colours of the firmware console.
#[derive(Copy, Clone, Debug, PartialEq, Eq, Structural)]
pub enum Color {
    Black,
    Blue,
    Green,
    Cyan,
    Red,
    Magenta,
    Brown,
    LightGray,
    DarkGray,
    LightBlue,
    LightGreen,
    LightCyan,
    LightRed,
    LightMagenta,
    Yellow,
    White,
}

/// The firmware's numeric code of each colour.
pub open spec fn color_code(c: Color) -> u8 {
    match c {
        Color::Black => 0x00,
        Color::Blue => 0x01,
        Color::Green => 0x02,
        Color::Cyan => 0x03,
        Color::Red => 0x04,
        Color::Magenta => 0x05,
        Color::Brown => 0x06,
        Color::LightGray => 0x07,
        Color::DarkGray => 0x08,
        Color::LightBlue => 0x09,
        Color::LightGreen => 0x0a,
        Color::LightCyan => 0x0b,
        Color::LightRed => 0x0c,
        Color::LightMagenta => 0x0d,
        Color::Yellow => 0x0e,
        Color::White => 0x0f,
    }
}

impl Color {
    pub fn code(self) -> (r: u8)
        ensures
            r == color_code(self),
    {
        match self {
            Color::Black => 0x00,
            Color::Blue => 0x01,
            Color::Green => 0x02,
            Color::Cyan => 0x03,
            Color::Red => 0x04,
            Color::Magenta => 0x05,
            Color::Brown => 0x06,
            Color::LightGray => 0x07,
            Color::DarkGray => 0x08,
            Color::LightBlue => 0x09,
            Color::LightGreen => 0x0a,
            Color::LightCyan => 0x0b,
            Color::LightRed => 0x0c,
            Color::LightMagenta => 0x0d,
            Color::Yellow => 0x0e,
            Color::White => 0x0f,
        }
    }

    /// The colour with code `val`; codes above that of white are refused.
    pub fn try_from(val: u8) -> (r: Result<Color, ()>)
        ensures
            r is Ok <==> val <= 0x0f,
            r is Ok ==> color_code(r->Ok_0) == val,
    {
        match val {
            0x00 => Ok(Color::Black),
            0x01 => Ok(Color::Blue),
            0x02 => Ok(Color::Green),
            0x03 => Ok(Color::Cyan),
            0x04 => Ok(Color::Red),
            0x05 => Ok(Color::Magenta),
            0x06 => Ok(Color::Brown),
            0x07 => Ok(Color::LightGray),
            0x08 => Ok(Color::DarkGray),
            0x09 => Ok(Color::LightBlue),
            0x0a => Ok(Color::LightGreen),
            0x0b => Ok(Color::LightCyan),
            0x0c => Ok(Color::LightRed),
            0x0d => Ok(Color::LightMagenta),
            0x0e => Ok(Color::Yellow),
            0x0f => Ok(Color::White),
            _ => Err(()),
        }
    }
}

/// Each colour code names one colour.
pub proof fn lemma_color_code_injective(a: Color, b: Color)
    ensures
        color_code(a) == color_code(b) <==> a == b,
{
}

} // verus!
