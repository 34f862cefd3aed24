//! Classes of bytes the scanner tells apart.

use vstd::prelude::*;

verus! {

/// The byte read at `i`. Past the end of the buffer the scanner reads the
/// terminating zero byte.
pub open spec fn byte_at(s: Seq<u8>, i: int) -> u8 {
    if 0 <= i < s.len() {
        s[i]
    } else {
        0
    }
}

/// Bytes skipped between tokens: control bytes and the space, but not the
/// zero byte, which ends the program.
pub open spec fn blank(b: u8) -> bool {
    0x01 <= b <= 0x20
}

pub fn is_blank(b: u8) -> (r: bool)
    ensures
        r == blank(b),
{
    0x01 <= b && b <= 0x20
}

pub open spec fn ascii_letter(b: u8) -> bool {
    ('a' as u8) <= b <= ('z' as u8) || ('A' as u8) <= b <= ('Z' as u8)
}

pub open spec fn decimal_digit(b: u8) -> bool {
    ('0' as u8) <= b <= ('9' as u8)
}

/// Bytes that may continue a name: ASCII letters, digits, `_`, `$`, and the
/// backslash, which is set aside for escapes in names. Bytes from `0x80` up
/// end a label.
pub open spec fn label_byte(b: u8) -> bool {
    ascii_letter(b) || decimal_digit(b) || b == '_' as u8 || b == '$' as u8 || b == '\\' as u8
}

pub fn legal_in_label(b: u8) -> (r: bool)
    ensures
        r == label_byte(b),
{
    ('a' as u8 <= b && b <= 'z' as u8) || ('A' as u8 <= b && b <= 'Z' as u8) || ('0' as u8 <= b
        && b <= '9' as u8) || b == '_' as u8 || b == '$' as u8 || b == '\\' as u8
}

/// Bytes that may begin a name: ASCII letters, `_`, `$` and the backslash.
pub open spec fn name_start(b: u8) -> bool {
    ascii_letter(b) || b == '_' as u8 || b == '$' as u8 || b == '\\' as u8
}

pub fn is_name_start(b: u8) -> (r: bool)
    ensures
        r == name_start(b),
{
    ('a' as u8 <= b && b <= 'z' as u8) || ('A' as u8 <= b && b <= 'Z' as u8) || b == '_' as u8
        || b == '$' as u8 || b == '\\' as u8
}

/// The bases in which a number may be written.
#[derive(Debug, PartialEq, Eq, Structural, Clone, Copy)]
pub enum Radix {
    Binary,
    Octal,
    Decimal,
    Hexadecimal,
}

impl Radix {
    /// Whether `b` is a digit of this base.
    pub open spec fn digit(self, b: u8) -> bool {
        match self {
            Radix::Binary => ('0' as u8) <= b <= ('1' as u8),
            Radix::Octal => ('0' as u8) <= b <= ('7' as u8),
            Radix::Decimal => decimal_digit(b),
            Radix::Hexadecimal => decimal_digit(b) || ('a' as u8) <= b <= ('f' as u8) || ('A' as u8)
                <= b <= ('F' as u8),
        }
    }

    pub fn is_digit(self, b: u8) -> (r: bool)
        ensures
            r == self.digit(b),
    {
        match self {
            Radix::Binary => '0' as u8 <= b && b <= '1' as u8,
            Radix::Octal => '0' as u8 <= b && b <= '7' as u8,
            Radix::Decimal => '0' as u8 <= b && b <= '9' as u8,
            Radix::Hexadecimal => ('0' as u8 <= b && b <= '9' as u8) || ('a' as u8 <= b && b
                <= 'f' as u8) || ('A' as u8 <= b && b <= 'F' as u8),
        }
    }
}

/// The flags a regular expression may carry.
pub open spec fn regex_flag(b: u8) -> bool {
    b == 'g' as u8 || b == 'i' as u8 || b == 'm' as u8 || b == 'u' as u8 || b == 'y' as u8
}

pub fn is_regex_flag(b: u8) -> (r: bool)
    ensures
        r == regex_flag(b),
{
    b == 'g' as u8 || b == 'i' as u8 || b == 'm' as u8 || b == 'u' as u8 || b == 'y' as u8
}

/// Bytes `0x80..=0xBF`, which in UTF-8 continue a code point.
pub open spec fn continuation(b: u8) -> bool {
    0x80 <= b <= 0xbf
}

pub fn is_continuation(b: u8) -> (r: bool)
    ensures
        r == continuation(b),
{
    0x80 <= b && b <= 0xbf
}

} // verus!
