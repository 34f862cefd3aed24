//! What the scanner produces, stated over the bytes of the source.
//!
//! Every function here is a specification. A position is an index into the
//! source; reading at or past its end gives the zero byte that terminates
//! the buffer (see [`byte_at`]).

use crate::bytes::{
    blank, byte_at, continuation, decimal_digit, label_byte, name_start, regex_flag, Radix,
};
use crate::token::{Asi, CommentType, LiteralType, Token};
use crate::words::word_token;
use vstd::prelude::*;
use vstd::utf8::*;

verus! {

/// The kind of the token found at some position, and the position just
/// past its last byte.
pub struct Scan {
    pub token: Token,
    pub end: int,
}

/// The first position from `i` on that holds no blank byte.
pub open spec fn blank_end(s: Seq<u8>, i: int) -> int
    decreases s.len() - i,
{
    if blank(byte_at(s, i)) {
        blank_end(s, i + 1)
    } else {
        i
    }
}

/// Whether a line feed stands between `i` and `j`.
pub open spec fn has_newline(s: Seq<u8>, i: int, j: int) -> bool {
    exists|k: int| i <= k < j && #[trigger] byte_at(s, k) == '\n' as u8
}

/// The first position from `i` on that holds no label byte.
pub open spec fn label_end(s: Seq<u8>, i: int) -> int
    decreases s.len() - i,
{
    if label_byte(byte_at(s, i)) {
        label_end(s, i + 1)
    } else {
        i
    }
}

/// A name read as a word: a reserved word has its own kind.
pub open spec fn word(s: Seq<u8>, start: int) -> Scan {
    let end = label_end(s, start);
    Scan { token: word_token(s.subrange(start, end)), end }
}

/// The first position from `i` on that holds no continuation byte.
pub open spec fn continuation_end(s: Seq<u8>, i: int) -> int
    decreases s.len() - i,
{
    if continuation(byte_at(s, i)) {
        continuation_end(s, i + 1)
    } else {
        i
    }
}

/// The code point whose encoding begins at `i`.
pub open spec fn char_at(s: Seq<u8>, i: int) -> char {
    decode_utf8(s.subrange(i, s.len() as int))[0]
}

/// A name that begins with a code point outside ASCII: the code point must
/// be alphanumeric, and label bytes may follow it. Any other code point is
/// an unexpected token of its own.
pub open spec fn wide_name(s: Seq<u8>, start: int, alphanumeric: bool) -> Scan {
    let after = continuation_end(s, start + 1);
    if alphanumeric {
        Scan { token: Token::Identifier, end: label_end(s, after) }
    } else {
        Scan { token: Token::UnexpectedToken, end: after }
    }
}

/// A run of digits from `i` on, in which a `_` may separate two digits.
/// With `needed`, a digit must stand at `i`: at the start of the run and
/// after each separator.
pub open spec fn digits(s: Seq<u8>, i: int, radix: Radix, needed: bool) -> Scan
    decreases s.len() - i,
{
    let b = byte_at(s, i);
    if radix.digit(b) {
        digits(s, i + 1, radix, false)
    } else if needed {
        Scan { token: Token::UnexpectedToken, end: i }
    } else if b == '_' as u8 {
        digits(s, i + 1, radix, true)
    } else {
        Scan { token: Token::Literal(LiteralType::Number), end: i }
    }
}

/// The digits after a decimal point, if any.
pub open spec fn fraction(s: Seq<u8>, i: int) -> Scan {
    if decimal_digit(byte_at(s, i)) {
        digits(s, i, Radix::Decimal, true)
    } else {
        Scan { token: Token::Literal(LiteralType::Number), end: i }
    }
}

/// An exponent after `e` or `E`: a sign, if any, and decimal digits.
pub open spec fn exponent(s: Seq<u8>, i: int) -> Scan {
    let b = byte_at(s, i);
    if b == '+' as u8 || b == '-' as u8 {
        digits(s, i + 1, Radix::Decimal, true)
    } else {
        digits(s, i, Radix::Decimal, true)
    }
}

/// A decimal number that begins with a digit at `start`.
pub open spec fn decimal(s: Seq<u8>, start: int) -> Scan {
    let whole = digits(s, start, Radix::Decimal, true);
    let b = byte_at(s, whole.end);
    if whole.token == Token::UnexpectedToken {
        whole
    } else if b == '.' as u8 {
        fraction(s, whole.end + 1)
    } else if b == 'e' as u8 || b == 'E' as u8 {
        exponent(s, whole.end + 1)
    } else {
        whole
    }
}

/// A number that begins with `0` at `start`: a prefix may pick the base.
pub open spec fn zero(s: Seq<u8>, start: int) -> Scan {
    let b = byte_at(s, start + 1);
    if b == 'b' as u8 || b == 'B' as u8 {
        digits(s, start + 2, Radix::Binary, true)
    } else if b == 'o' as u8 || b == 'O' as u8 {
        digits(s, start + 2, Radix::Octal, true)
    } else if b == 'x' as u8 || b == 'X' as u8 {
        digits(s, start + 2, Radix::Hexadecimal, true)
    } else {
        decimal(s, start)
    }
}

/// The rest of a string from `i` on, up to the closing `quote`. A backslash
/// takes the byte after it along, whatever it is.
pub open spec fn string(s: Seq<u8>, quote: u8, i: int) -> Scan
    decreases s.len() - i,
{
    let b = byte_at(s, i);
    if b == 0 {
        Scan { token: Token::UnexpectedEndOfProgram, end: i }
    } else if b == quote {
        Scan { token: Token::Literal(LiteralType::String), end: i + 1 }
    } else if b == '\\' as u8 {
        if byte_at(s, i + 1) == 0 {
            Scan { token: Token::UnexpectedEndOfProgram, end: i + 1 }
        } else {
            string(s, quote, i + 2)
        }
    } else {
        string(s, quote, i + 1)
    }
}

/// Where a line comment ends: at the line feed or at the end of the
/// program, neither of which belongs to it.
pub open spec fn line_end(s: Seq<u8>, i: int) -> int
    decreases s.len() - i,
{
    let b = byte_at(s, i);
    if b == 0 || b == '\n' as u8 {
        i
    } else {
        line_end(s, i + 1)
    }
}

/// The rest of a block comment from `i` on, up to and with `*/`.
pub open spec fn block_comment(s: Seq<u8>, i: int) -> Scan
    decreases s.len() - i,
{
    let b = byte_at(s, i);
    if b == 0 {
        Scan { token: Token::UnexpectedEndOfProgram, end: i }
    } else if b == '*' as u8 && byte_at(s, i + 1) == '/' as u8 {
        Scan { token: Token::Comment(CommentType::MultiLine), end: i + 2 }
    } else {
        block_comment(s, i + 1)
    }
}

/// A segment of a template from `i` on: it ends with the closing backtick
/// or with the `${` that opens an interpolation.
pub open spec fn template(s: Seq<u8>, i: int) -> Scan
    decreases s.len() - i,
{
    let b = byte_at(s, i);
    if b == 0 {
        Scan { token: Token::UnexpectedEndOfProgram, end: i }
    } else if b == '`' as u8 {
        Scan { token: Token::TemplateClosed, end: i + 1 }
    } else if b == '$' as u8 && byte_at(s, i + 1) == '{' as u8 {
        Scan { token: Token::TemplateOpen, end: i + 2 }
    } else if b == '\\' as u8 {
        if byte_at(s, i + 1) == 0 {
            Scan { token: Token::UnexpectedEndOfProgram, end: i + 1 }
        } else {
            template(s, i + 2)
        }
    } else {
        template(s, i + 1)
    }
}

/// The constant text of a template segment that began at `from`: all of it
/// but the closing backtick or `${`. No other token has such a text, and
/// the one before stays.
pub open spec fn quasi_of(s: Seq<u8>, from: int, segment: Scan, before: Seq<u8>) -> Seq<u8> {
    match segment.token {
        Token::TemplateClosed => s.subrange(from, segment.end - 1),
        Token::TemplateOpen => s.subrange(from, segment.end - 2),
        _ => before,
    }
}

/// The first position from `i` on that holds no flag of a regular expression.
pub open spec fn flags_end(s: Seq<u8>, i: int) -> int
    decreases s.len() - i,
{
    if regex_flag(byte_at(s, i)) {
        flags_end(s, i + 1)
    } else {
        i
    }
}

/// The rest of a regular expression from `i` on, after its opening slash.
/// A slash closes it unless it stands in a character class, which `[` opens
/// and `]` closes; the flags follow. A line feed may not stand in it.
pub open spec fn regex(s: Seq<u8>, i: int, in_class: bool) -> Scan
    decreases s.len() - i,
{
    let b = byte_at(s, i);
    if b == 0 {
        Scan { token: Token::UnexpectedEndOfProgram, end: i }
    } else if b == '\n' as u8 {
        Scan { token: Token::UnexpectedToken, end: i + 1 }
    } else if b == '\\' as u8 {
        if byte_at(s, i + 1) == 0 {
            Scan { token: Token::UnexpectedEndOfProgram, end: i + 1 }
        } else {
            regex(s, i + 2, in_class)
        }
    } else if b == '/' as u8 && !in_class {
        Scan { token: Token::Literal(LiteralType::RegEx), end: flags_end(s, i + 1) }
    } else if b == '[' as u8 {
        regex(s, i + 1, true)
    } else if b == ']' as u8 {
        regex(s, i + 1, false)
    } else {
        regex(s, i + 1, in_class)
    }
}

/// One token of `n` bytes.
pub open spec fn fixed(token: Token, start: int, n: int) -> Scan {
    Scan { token, end: start + n }
}

/// The token at `start` where a punctuation byte stands there. The longest
/// operator wins; `<` and `>` never join what follows them.
pub open spec fn punctuation(s: Seq<u8>, start: int) -> Scan {
    let b = byte_at(s, start);
    let b1 = byte_at(s, start + 1);
    let b2 = byte_at(s, start + 2);
    if b == ';' as u8 {
        fixed(Token::Semicolon, start, 1)
    } else if b == ':' as u8 {
        fixed(Token::Colon, start, 1)
    } else if b == ',' as u8 {
        fixed(Token::Comma, start, 1)
    } else if b == '(' as u8 {
        fixed(Token::ParenOpen, start, 1)
    } else if b == ')' as u8 {
        fixed(Token::ParenClose, start, 1)
    } else if b == '[' as u8 {
        fixed(Token::BracketOpen, start, 1)
    } else if b == ']' as u8 {
        fixed(Token::BracketClose, start, 1)
    } else if b == '{' as u8 {
        fixed(Token::BraceOpen, start, 1)
    } else if b == '}' as u8 {
        fixed(Token::BraceClose, start, 1)
    } else if b == '<' as u8 {
        fixed(Token::Lesser, start, 1)
    } else if b == '>' as u8 {
        fixed(Token::Greater, start, 1)
    } else if b == '?' as u8 {
        fixed(Token::QuestionMark, start, 1)
    } else if b == '~' as u8 {
        fixed(Token::Tilde, start, 1)
    } else if b == '^' as u8 {
        fixed(Token::Caret, start, 1)
    } else if b == '%' as u8 {
        fixed(Token::Remainder, start, 1)
    } else if b == '=' as u8 {
        if b1 == '=' as u8 && b2 == '=' as u8 {
            fixed(Token::StrictEquality, start, 3)
        } else if b1 == '=' as u8 {
            fixed(Token::Equality, start, 2)
        } else if b1 == '>' as u8 {
            fixed(Token::FatArrow, start, 2)
        } else {
            fixed(Token::Assign, start, 1)
        }
    } else if b == '!' as u8 {
        if b1 == '=' as u8 && b2 == '=' as u8 {
            fixed(Token::StrictInequality, start, 3)
        } else if b1 == '=' as u8 {
            fixed(Token::Inequality, start, 2)
        } else {
            fixed(Token::Exclamation, start, 1)
        }
    } else if b == '&' as u8 {
        if b1 == '&' as u8 {
            fixed(Token::LogicalAnd, start, 2)
        } else {
            fixed(Token::Ampersand, start, 1)
        }
    } else if b == '|' as u8 {
        if b1 == '|' as u8 {
            fixed(Token::LogicalOr, start, 2)
        } else {
            fixed(Token::Pipe, start, 1)
        }
    } else if b == '+' as u8 {
        if b1 == '+' as u8 {
            fixed(Token::Increment, start, 2)
        } else {
            fixed(Token::Plus, start, 1)
        }
    } else if b == '-' as u8 {
        if b1 == '-' as u8 {
            fixed(Token::Decrement, start, 2)
        } else if b1 == '=' as u8 {
            // The one compound assignment that is not split in two.
            fixed(Token::Minus, start, 2)
        } else {
            fixed(Token::Minus, start, 1)
        }
    } else if b == '*' as u8 {
        if b1 == '*' as u8 {
            fixed(Token::Exponent, start, 2)
        } else {
            fixed(Token::Asterisk, start, 1)
        }
    } else if b == '/' as u8 {
        if b1 == '/' as u8 {
            Scan { token: Token::Comment(CommentType::SingleLine), end: line_end(s, start + 2) }
        } else if b1 == '*' as u8 {
            block_comment(s, start + 2)
        } else {
            fixed(Token::ForwardSlash, start, 1)
        }
    } else if b == '.' as u8 {
        if decimal_digit(b1) {
            fraction(s, start + 1)
        } else if b1 == '.' as u8 && b2 == '.' as u8 {
            fixed(Token::RestSpread, start, 3)
        } else if b1 == '.' as u8 {
            fixed(Token::UnexpectedToken, start, 2)
        } else {
            fixed(Token::Dot, start, 1)
        }
    } else {
        fixed(Token::UnexpectedToken, start, 1)
    }
}

/// The token that begins at `start`, a position that holds no blank byte.
/// `before` is the token read last: after a `.`, a name is a member name
/// and no reserved word. `alphanumeric` says whether the code point at
/// `start` is a letter or a digit, which matters outside ASCII only.
pub open spec fn lexeme(s: Seq<u8>, start: int, before: Token, alphanumeric: bool) -> Scan {
    let b = byte_at(s, start);
    if b == 0 {
        Scan { token: Token::EndOfProgram, end: start }
    } else if name_start(b) {
        if before == Token::Dot {
            Scan { token: Token::Identifier, end: label_end(s, start) }
        } else {
            word(s, start)
        }
    } else if b >= 0x80 {
        wide_name(s, start, alphanumeric)
    } else if b == '0' as u8 {
        zero(s, start)
    } else if decimal_digit(b) {
        decimal(s, start)
    } else if b == '"' as u8 || b == '\'' as u8 {
        string(s, b, start + 1)
    } else if b == '`' as u8 {
        template(s, start + 1)
    } else {
        punctuation(s, start)
    }
}

/// The rule of semicolon insertion at a token. `newline` says whether a
/// line feed stood between the token before and this one.
pub open spec fn asi_of(token: Token, newline: bool) -> Asi {
    if token == Token::Semicolon {
        Asi::ExplicitSemicolon
    } else if newline || token == Token::ParenClose || token == Token::BraceClose || token
        == Token::EndOfProgram {
        Asi::ImplicitSemicolon
    } else {
        Asi::NoSemicolon
    }
}

} // verus!
