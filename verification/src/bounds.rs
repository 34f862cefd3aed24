//! Where the scans of the grammar end, and which kinds they give.

use crate::boundary::{lemma_after_ascii, on_boundary};
use crate::bytes::{
    blank, byte_at, continuation, decimal_digit, label_byte, name_start, regex_flag, Radix,
};
use crate::grammar::{
    blank_end, block_comment, continuation_end, decimal, digits, exponent, flags_end, fraction,
    label_end, lexeme, line_end, punctuation, regex, string, template, wide_name, word, zero,
};
use crate::token::{CommentType, LiteralType, Token};
use crate::words::lemma_word_kinds;
use vstd::prelude::*;
use vstd::utf8::*;

verus! {

/// A scan from `i` ends at `end`: at or after `i`, inside the source, and
/// where no code point is cut.
pub open spec fn lands(s: Seq<u8>, i: int, end: int) -> bool {
    i <= end && on_boundary(s, end)
}

/// The kinds a run of digits may have.
pub open spec fn number_or_unexpected(token: Token) -> bool {
    token == Token::Literal(LiteralType::Number) || token == Token::UnexpectedToken
}

/// Passing over blank bytes from a boundary ends on a boundary.
pub proof fn lemma_blank_end(s: Seq<u8>, i: int)
    requires
        valid_utf8(s),
        on_boundary(s, i),
    ensures
        lands(s, i, blank_end(s, i)),
    decreases s.len() - i,
{
    if blank(byte_at(s, i)) {
        lemma_after_ascii(s, i);
        lemma_blank_end(s, i + 1);
    }
}

/// A label that begins on a boundary ends on one.
pub proof fn lemma_label_end(s: Seq<u8>, i: int)
    requires
        valid_utf8(s),
        on_boundary(s, i),
    ensures
        lands(s, i, label_end(s, i)),
    decreases s.len() - i,
{
    if label_byte(byte_at(s, i)) {
        lemma_after_ascii(s, i);
        lemma_label_end(s, i + 1);
    }
}

/// The flags of a regular expression end on a boundary.
pub proof fn lemma_flags_end(s: Seq<u8>, i: int)
    requires
        valid_utf8(s),
        on_boundary(s, i),
    ensures
        lands(s, i, flags_end(s, i)),
    decreases s.len() - i,
{
    if regex_flag(byte_at(s, i)) {
        lemma_after_ascii(s, i);
        lemma_flags_end(s, i + 1);
    }
}

/// Passing over continuation bytes ends on a boundary.
pub proof fn lemma_continuation_end(s: Seq<u8>, i: int)
    requires
        0 <= i <= s.len(),
    ensures
        lands(s, i, continuation_end(s, i)),
    decreases s.len() - i,
{
    if continuation(byte_at(s, i)) {
        lemma_continuation_end(s, i + 1);
    }
}

/// A line comment ends on a boundary: at a line feed or at the zero byte.
pub proof fn lemma_line_end(s: Seq<u8>, i: int)
    requires
        0 <= i <= s.len(),
    ensures
        lands(s, i, line_end(s, i)),
    decreases s.len() - i,
{
    if byte_at(s, i) != 0 && byte_at(s, i) != '\n' as u8 {
        lemma_line_end(s, i + 1);
    }
}

/// A run of digits ends on a boundary, as a number or as an unexpected
/// token, and takes the digit it begins with.
pub proof fn lemma_digits(s: Seq<u8>, i: int, radix: Radix, needed: bool)
    requires
        valid_utf8(s),
        on_boundary(s, i),
    ensures
        lands(s, i, digits(s, i, radix, needed).end),
        number_or_unexpected(digits(s, i, radix, needed).token),
        radix.digit(byte_at(s, i)) ==> digits(s, i, radix, needed).end > i,
    decreases s.len() - i,
{
    let b = byte_at(s, i);
    if radix.digit(b) {
        lemma_after_ascii(s, i);
        lemma_digits(s, i + 1, radix, false);
    } else if !needed && b == '_' as u8 {
        lemma_after_ascii(s, i);
        lemma_digits(s, i + 1, radix, true);
    }
}

/// The digits after a decimal point end on a boundary.
pub proof fn lemma_fraction(s: Seq<u8>, i: int)
    requires
        valid_utf8(s),
        on_boundary(s, i),
    ensures
        lands(s, i, fraction(s, i).end),
        number_or_unexpected(fraction(s, i).token),
{
    lemma_digits(s, i, Radix::Decimal, true);
}

/// An exponent ends on a boundary.
pub proof fn lemma_exponent(s: Seq<u8>, i: int)
    requires
        valid_utf8(s),
        on_boundary(s, i),
    ensures
        lands(s, i, exponent(s, i).end),
        number_or_unexpected(exponent(s, i).token),
{
    let b = byte_at(s, i);
    if b == '+' as u8 || b == '-' as u8 {
        lemma_after_ascii(s, i);
        lemma_digits(s, i + 1, Radix::Decimal, true);
    } else {
        lemma_digits(s, i, Radix::Decimal, true);
    }
}

/// A decimal number takes its first digit and ends on a boundary.
pub proof fn lemma_decimal(s: Seq<u8>, start: int)
    requires
        valid_utf8(s),
        on_boundary(s, start),
        decimal_digit(byte_at(s, start)),
    ensures
        lands(s, start + 1, decimal(s, start).end),
        number_or_unexpected(decimal(s, start).token),
{
    lemma_digits(s, start, Radix::Decimal, true);
    let whole = digits(s, start, Radix::Decimal, true);
    let b = byte_at(s, whole.end);
    if whole.token != Token::UnexpectedToken {
        if b == '.' as u8 {
            lemma_after_ascii(s, whole.end);
            lemma_fraction(s, whole.end + 1);
        } else if b == 'e' as u8 || b == 'E' as u8 {
            lemma_after_ascii(s, whole.end);
            lemma_exponent(s, whole.end + 1);
        }
    }
}

/// A number that begins with `0` takes that digit and ends on a boundary.
pub proof fn lemma_zero(s: Seq<u8>, start: int)
    requires
        valid_utf8(s),
        on_boundary(s, start),
        byte_at(s, start) == '0' as u8,
    ensures
        lands(s, start + 1, zero(s, start).end),
        number_or_unexpected(zero(s, start).token),
{
    let b = byte_at(s, start + 1);
    if b == 'b' as u8 || b == 'B' as u8 {
        lemma_after_ascii(s, start + 1);
        lemma_digits(s, start + 2, Radix::Binary, true);
    } else if b == 'o' as u8 || b == 'O' as u8 {
        lemma_after_ascii(s, start + 1);
        lemma_digits(s, start + 2, Radix::Octal, true);
    } else if b == 'x' as u8 || b == 'X' as u8 {
        lemma_after_ascii(s, start + 1);
        lemma_digits(s, start + 2, Radix::Hexadecimal, true);
    } else {
        lemma_decimal(s, start);
    }
}

/// A string ends on a boundary: after its closing quote, or at the zero
/// byte that cuts it short.
pub proof fn lemma_string(s: Seq<u8>, quote: u8, i: int)
    requires
        valid_utf8(s),
        0 <= i <= s.len(),
        0 < quote < 0x80,
    ensures
        lands(s, i, string(s, quote, i).end),
        string(s, quote, i).token == Token::Literal(LiteralType::String) || string(s, quote, i).token
            == Token::UnexpectedEndOfProgram,
    decreases s.len() - i,
{
    let b = byte_at(s, i);
    if b == 0 {
    } else if b == quote {
        lemma_after_ascii(s, i);
    } else if b == '\\' as u8 {
        if byte_at(s, i + 1) != 0 {
            lemma_string(s, quote, i + 2);
        }
    } else {
        lemma_string(s, quote, i + 1);
    }
}

/// A block comment ends on a boundary: after its `*/`, or at the zero byte
/// that cuts it short.
pub proof fn lemma_block_comment(s: Seq<u8>, i: int)
    requires
        valid_utf8(s),
        0 <= i <= s.len(),
    ensures
        lands(s, i, block_comment(s, i).end),
        block_comment(s, i).token == Token::Comment(CommentType::MultiLine) || block_comment(
            s,
            i,
        ).token == Token::UnexpectedEndOfProgram,
    decreases s.len() - i,
{
    let b = byte_at(s, i);
    if b == 0 {
    } else if b == '*' as u8 && byte_at(s, i + 1) == '/' as u8 {
        lemma_after_ascii(s, i + 1);
    } else {
        lemma_block_comment(s, i + 1);
    }
}

/// A template segment ends on a boundary, right after the backtick or the
/// `${` that closes it, or at the zero byte that cuts it short.
pub proof fn lemma_template(s: Seq<u8>, i: int)
    requires
        valid_utf8(s),
        0 <= i <= s.len(),
    ensures
        lands(s, i, template(s, i).end),
        match template(s, i).token {
            Token::TemplateClosed => i + 1 <= template(s, i).end && byte_at(
                s,
                template(s, i).end - 1,
            ) == '`' as u8,
            Token::TemplateOpen => i + 2 <= template(s, i).end && byte_at(
                s,
                template(s, i).end - 2,
            ) == '$' as u8,
            Token::UnexpectedEndOfProgram => true,
            _ => false,
        },
    decreases s.len() - i,
{
    let b = byte_at(s, i);
    if b == 0 {
    } else if b == '`' as u8 {
        lemma_after_ascii(s, i);
    } else if b == '$' as u8 && byte_at(s, i + 1) == '{' as u8 {
        lemma_after_ascii(s, i + 1);
    } else if b == '\\' as u8 {
        if byte_at(s, i + 1) != 0 {
            lemma_template(s, i + 2);
        }
    } else {
        lemma_template(s, i + 1);
    }
}

/// A regular expression ends on a boundary, whole or cut short.
pub proof fn lemma_regex(s: Seq<u8>, i: int, in_class: bool)
    requires
        valid_utf8(s),
        0 <= i <= s.len(),
    ensures
        lands(s, i, regex(s, i, in_class).end),
        regex(s, i, in_class).token == Token::Literal(LiteralType::RegEx) || regex(
            s,
            i,
            in_class,
        ).token == Token::UnexpectedToken || regex(s, i, in_class).token
            == Token::UnexpectedEndOfProgram,
    decreases s.len() - i,
{
    let b = byte_at(s, i);
    if b == 0 {
    } else if b == '\n' as u8 {
        lemma_after_ascii(s, i);
    } else if b == '\\' as u8 {
        if byte_at(s, i + 1) != 0 {
            lemma_regex(s, i + 2, in_class);
        }
    } else if b == '/' as u8 && !in_class {
        lemma_after_ascii(s, i);
        lemma_flags_end(s, i + 1);
    } else if b == '[' as u8 {
        lemma_regex(s, i + 1, true);
    } else if b == ']' as u8 {
        lemma_regex(s, i + 1, false);
    } else {
        lemma_regex(s, i + 1, in_class);
    }
}

/// Neither the end of the program nor a template segment.
pub open spec fn plain(token: Token) -> bool {
    token != Token::EndOfProgram && token != Token::TemplateOpen && token != Token::TemplateClosed
}

/// A punctuation byte begins a token that takes it and ends on a boundary.
pub proof fn lemma_punctuation(s: Seq<u8>, start: int)
    requires
        valid_utf8(s),
        0 <= start,
        0 < byte_at(s, start) < 0x80,
    ensures
        lands(s, start + 1, punctuation(s, start).end),
        plain(punctuation(s, start).token),
{
    let b = byte_at(s, start);
    let b1 = byte_at(s, start + 1);
    let b2 = byte_at(s, start + 2);
    lemma_after_ascii(s, start);
    if b1 != 0 && b1 < 0x80 {
        lemma_after_ascii(s, start + 1);
        if b2 != 0 && b2 < 0x80 {
            lemma_after_ascii(s, start + 2);
        }
    }
    if b == '/' as u8 {
        if b1 == '/' as u8 {
            lemma_line_end(s, start + 2);
        } else if b1 == '*' as u8 {
            lemma_block_comment(s, start + 2);
        }
    } else if b == '.' as u8 {
        if decimal_digit(b1) {
            lemma_fraction(s, start + 1);
        }
    }
}

/// A name takes its first byte and ends on a boundary, where its label ends.
pub proof fn lemma_word(s: Seq<u8>, start: int)
    requires
        valid_utf8(s),
        on_boundary(s, start),
        name_start(byte_at(s, start)),
    ensures
        lands(s, start + 1, word(s, start).end),
        word(s, start).end == label_end(s, start),
        plain(word(s, start).token),
{
    lemma_word_kinds(s.subrange(start, label_end(s, start)));
    lemma_after_ascii(s, start);
    lemma_label_end(s, start + 1);
}

/// A code point outside ASCII is taken whole, and the token ends on a
/// boundary.
pub proof fn lemma_wide_name(s: Seq<u8>, start: int, alphanumeric: bool)
    requires
        valid_utf8(s),
        0 <= start,
        byte_at(s, start) >= 0x80,
    ensures
        lands(s, start + 1, wide_name(s, start, alphanumeric).end),
        plain(wide_name(s, start, alphanumeric).token),
{
    lemma_continuation_end(s, start + 1);
    lemma_label_end(s, continuation_end(s, start + 1));
}

/// A token ends inside the source where no code point is cut. It takes at
/// least one byte, but for the end of the program, which is found at the
/// zero byte and nowhere else.
pub proof fn lemma_lexeme(s: Seq<u8>, start: int, before: Token, alphanumeric: bool)
    requires
        valid_utf8(s),
        on_boundary(s, start),
    ensures
        lands(s, start, lexeme(s, start, before, alphanumeric).end),
        lexeme(s, start, before, alphanumeric).token == Token::EndOfProgram <==> byte_at(s, start)
            == 0,
        byte_at(s, start) != 0 ==> start < lexeme(s, start, before, alphanumeric).end,
        byte_at(s, start) != '`' as u8 ==> lexeme(s, start, before, alphanumeric).token
            != Token::TemplateOpen && lexeme(s, start, before, alphanumeric).token
            != Token::TemplateClosed,
{
    let b = byte_at(s, start);
    if b == 0 {
    } else if name_start(b) {
        lemma_word(s, start);
    } else if b >= 0x80 {
        lemma_wide_name(s, start, alphanumeric);
    } else if b == '0' as u8 {
        lemma_zero(s, start);
    } else if decimal_digit(b) {
        lemma_decimal(s, start);
    } else if b == '"' as u8 || b == '\'' as u8 {
        lemma_string(s, b, start + 1);
    } else if b == '`' as u8 {
        lemma_template(s, start + 1);
    } else {
        lemma_punctuation(s, start);
    }
}

} // verus!
