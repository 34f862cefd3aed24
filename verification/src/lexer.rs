//! The scanner itself.

use crate::boundary::{lemma_after_ascii, lemma_char_boundary, lemma_prefix_boundary, on_boundary};
use crate::bounds::lemma_label_end;
use crate::bytes::{
    byte_at, is_blank, is_continuation, is_name_start, is_regex_flag, legal_in_label, name_start,
    Radix,
};
use crate::error::Error;
use crate::grammar::{
    asi_of, blank_end, block_comment, char_at, continuation_end, decimal, digits, exponent,
    flags_end, fraction, has_newline, label_end, line_end, punctuation, regex, string, template,
    wide_name, word, zero, Scan,
};
use crate::outside::{alphanumeric, copy_to_arena, is_alphanumeric};
use crate::state::State;
use crate::token::{Asi, CommentType, LiteralType, Token};
use crate::words::classify;
use toolshed::Arena;
use vstd::prelude::*;
use vstd::string::*;
use vstd::utf8::*;

verus! {

/// A scanner over one source buffer. It holds the current token and is
/// driven from token to token by [`Lexer::consume`].
pub struct Lexer<'arena> {
    /// The kind of the current token.
    pub token: Token,
    /// The rule of semicolon insertion at the current token.
    asi: Asi,
    /// The source. Reading at its end gives the zero byte that ends it.
    source: &'arena str,
    /// The position of the next byte to read.
    index: usize,
    /// Where the current token begins.
    token_start: usize,
    /// Where the member name read last begins.
    accessor_start: usize,
    /// The constant text of the template segment read last.
    pub quasi: &'arena str,
}

/// Picks the rule of semicolon insertion for a token.
fn insertion_rule(token: Token, newline: bool) -> (asi: Asi)
    ensures
        asi == asi_of(token, newline),
{
    if token == Token::Semicolon {
        Asi::ExplicitSemicolon
    } else if newline || token == Token::ParenClose || token == Token::BraceClose || token
        == Token::EndOfProgram {
        Asi::ImplicitSemicolon
    } else {
        Asi::NoSemicolon
    }
}

/// The text of nothing.
fn no_text() -> (text: &'static str)
    ensures
        text.spec_bytes() == Seq::<u8>::empty(),
{
    proof {
        reveal_strlit("");
        assert(""@ =~= Seq::<char>::empty());
    }
    ""
}

impl<'arena> View for Lexer<'arena> {
    type V = State;

    closed spec fn view(&self) -> State {
        State {
            source: self.source.spec_bytes(),
            token: self.token,
            asi: self.asi,
            index: self.index as int,
            token_start: self.token_start as int,
            accessor_start: self.accessor_start as int,
            quasi: self.quasi.spec_bytes(),
        }
    }
}

impl<'arena> Lexer<'arena> {
    /// The bytes of the source.
    pub open spec fn source(&self) -> Seq<u8> {
        self@.source
    }

    /// The position of the next byte to read.
    pub open spec fn position(&self) -> int {
        self@.index
    }

    /// The scanner stands between two tokens of a UTF-8 source.
    pub open spec fn wf(&self) -> bool {
        self@.well_formed()
    }

    /// Makes a scanner over a copy of `source` that the arena keeps, and
    /// reads the first token.
    #[inline]
    pub fn new(arena: &'arena Arena, source: &str) -> (lexer: Self)
        ensures
            lexer.wf(),
            lexer@ == State::initial(encode_utf8(source@)).step(),
    {
        Lexer::from_source(copy_to_arena(arena, source))
    }

    /// Makes a scanner over a source that outlives it, and reads the first
    /// token.
    #[inline]
    pub fn from_source(source: &'arena str) -> (lexer: Self)
        ensures
            lexer.wf(),
            lexer@ == State::initial(source.spec_bytes()).step(),
    {
        broadcast use encode_utf8_valid_utf8;

        let mut lexer = Lexer {
            token: Token::UnexpectedToken,
            asi: Asi::NoSemicolon,
            source,
            index: 0,
            token_start: 0,
            accessor_start: 0,
            quasi: no_text(),
        };
        assert(lexer@ =~= State::initial(source.spec_bytes()));
        lexer.consume();
        lexer
    }

    /// Moves to the next token: blank bytes are passed over, and the token
    /// that begins at the first byte after them becomes the current one.
    /// At the end of the program the scanner stays where it is.
    #[inline]
    pub fn consume(&mut self)
        requires
            old(self).wf(),
        ensures
            final(self).wf(),
            final(self)@ == old(self)@.step(),
    {
        let ghost before = self@;
        let newline = self.skip_blank();
        self.token_start = self.index;
        let ch = self.read_byte();
        if ch == 0 {
            self.token = Token::EndOfProgram;
        } else if is_name_start(ch) {
            if self.token == Token::Dot {
                self.accessor_start = self.index;
                self.read_label();
                self.token = Token::Identifier;
            } else {
                self.read_word();
            }
        } else if ch >= 0x80 {
            self.read_unicode();
        } else if ch == '0' as u8 {
            self.read_zero();
        } else if Radix::Decimal.is_digit(ch) {
            self.read_number();
        } else if ch == '"' as u8 || ch == '\'' as u8 {
            self.read_string();
        } else if ch == '`' as u8 {
            self.bump();
            self.read_template_kind();
        } else {
            self.read_punctuation();
        }
        self.asi = insertion_rule(self.token, newline);
        assert(self@ =~= before.step());
    }

    /// The kind of the current token, for callers that Verus checks: to
    /// them the fields of a scanner are hidden.
    #[inline]
    pub fn token(&self) -> (token: Token)
        ensures
            token == self@.token,
    {
        self.token
    }

    /// The constant text of the template segment read last, for callers
    /// that Verus checks.
    #[inline]
    pub fn quasi(&self) -> (text: &'arena str)
        ensures
            text.spec_bytes() == self@.quasi,
    {
        self.quasi
    }

    /// The text of the current token.
    #[inline]
    pub fn token_as_str(&self) -> (text: &'arena str)
        requires
            self.wf(),
        ensures
            text.spec_bytes() == self@.text(),
    {
        let start = self.token_start;
        self.slice_from(start)
    }

    /// The text of the member name read last.
    #[inline]
    pub fn accessor_as_str(&self) -> (text: &'arena str)
        requires
            self.wf(),
        ensures
            text.spec_bytes() == self@.accessor_text(),
    {
        let start = self.accessor_start;
        self.slice_from(start)
    }

    /// Where the current token begins and ends.
    #[inline]
    pub fn loc(&self) -> (span: (u32, u32))
        ensures
            span.0 == self@.token_start as u32,
            span.1 == self@.index as u32,
    {
        (self.start(), self.end())
    }

    /// Where the current token begins, as the low 32 bits of the position.
    #[inline]
    pub fn start(&self) -> (start: u32)
        ensures
            start == self@.token_start as u32,
    {
        #[verifier::truncate]
        (self.token_start as u32)
    }

    /// Where the current token ends, as the low 32 bits of the position.
    #[inline]
    pub fn end(&self) -> (end: u32)
        ensures
            end == self@.index as u32,
    {
        #[verifier::truncate]
        (self.index as u32)
    }

    /// Gives where the current token begins, then moves to the next token.
    #[inline]
    pub fn start_then_consume(&mut self) -> (start: u32)
        requires
            old(self).wf(),
        ensures
            final(self).wf(),
            final(self)@ == old(self)@.step(),
            start == old(self)@.token_start as u32,
    {
        let start = self.start();
        self.consume();
        start
    }

    /// Gives where the current token ends, then moves to the next token.
    #[inline]
    pub fn end_then_consume(&mut self) -> (end: u32)
        requires
            old(self).wf(),
        ensures
            final(self).wf(),
            final(self)@ == old(self)@.step(),
            end == old(self)@.index as u32,
    {
        let end = self.end();
        self.consume();
        end
    }

    /// The rule of semicolon insertion at the current token.
    #[inline]
    pub fn asi(&self) -> (asi: Asi)
        ensures
            asi == self@.asi,
    {
        self.asi
    }

    /// Records the current token as one the parser could not use, and moves
    /// past it, unless the program has ended.
    pub fn invalid_token(&mut self) -> (error: Error)
        requires
            old(self).wf(),
        ensures
            final(self).wf(),
            final(self)@ == if old(self)@.token == Token::EndOfProgram {
                old(self)@
            } else {
                old(self)@.step()
            },
            error.token == old(self)@.token,
            error.start == old(self)@.token_start,
            error.end == old(self)@.index,
            error.raw_bytes() == old(self)@.text(),
    {
        let start = self.token_start;
        let end = self.index;
        let token = self.token;
        let raw = self.slice_source(start, end).to_owned();
        if token != Token::EndOfProgram {
            self.consume();
        }
        Error { token, start, end, raw }
    }

    /// Reads the byte at a position; past the end, the terminating zero.
    fn byte(&self, i: usize) -> (b: u8)
        ensures
            b == byte_at(self.source(), i as int),
    {
        let bytes = self.source.as_bytes();
        if i < bytes.len() {
            bytes[i]
        } else {
            0
        }
    }

    /// Reads the byte at the current position without moving.
    #[inline]
    fn read_byte(&self) -> (b: u8)
        ensures
            b == byte_at(self.source(), self.position()),
    {
        self.byte(self.index)
    }

    /// Reads the byte after the current one without moving.
    #[inline]
    fn byte_after(&self) -> (b: u8)
        requires
            byte_at(self.source(), self.position()) != 0,
        ensures
            b == byte_at(self.source(), self.position() + 1),
    {
        // The length of a slice fits in `usize`, so the next position does.
        let bytes = self.source.as_bytes();
        assert(self.index < bytes.len());
        self.byte(self.index + 1)
    }

    /// Moves one byte on. Together with `read_byte` this consumes a byte.
    #[inline]
    pub(crate) fn bump(&mut self)
        requires
            old(self)@.in_range(),
            byte_at(old(self).source(), old(self).position()) != 0,
        ensures
            final(self)@ == old(self)@.at(old(self).position() + 1),
            final(self)@.in_range(),
            byte_at(old(self).source(), old(self).position()) < 0x80 ==> final(self).wf(),
    {
        proof {
            if byte_at(self.source(), self.position()) < 0x80 {
                lemma_after_ascii(self.source(), self.position());
            }
        }
        // The length of a slice fits in `usize`, so the next position does.
        let bytes = self.source.as_bytes();
        assert(self.index < bytes.len());
        self.index = self.index + 1;
    }

    /// Moves one byte on and reads the byte there.
    #[inline]
    pub(crate) fn next_byte(&mut self) -> (b: u8)
        requires
            old(self)@.in_range(),
            byte_at(old(self).source(), old(self).position()) != 0,
        ensures
            final(self)@ == old(self)@.at(old(self).position() + 1),
            final(self)@.in_range(),
            byte_at(old(self).source(), old(self).position()) < 0x80 ==> final(self).wf(),
            b == byte_at(old(self).source(), old(self).position() + 1),
    {
        self.bump();
        self.read_byte()
    }

    /// The text between two positions of the source.
    #[inline]
    fn slice_source(&self, start: usize, end: usize) -> (text: &'arena str)
        requires
            on_boundary(self.source(), start as int),
            on_boundary(self.source(), end as int),
            start <= end,
        ensures
            text.spec_bytes() == self.source().subrange(start as int, end as int),
    {
        broadcast use encode_utf8_valid_utf8;

        proof {
            lemma_prefix_boundary(self.source(), start as int, end as int);
            lemma_char_boundary(self.source(), end as int);
        }
        let (head, _) = self.source.split_at(end);
        let (_, text) = head.split_at(start);
        assert(text.spec_bytes() =~= self.source().subrange(start as int, end as int));
        text
    }

    /// The text from a position up to the current one.
    #[inline]
    pub(crate) fn slice_from(&self, start: usize) -> (text: &'arena str)
        requires
            self.wf(),
            on_boundary(self.source(), start as int),
            start <= self.position(),
        ensures
            text.spec_bytes() == self.source().subrange(start as int, self.position()),
    {
        let end = self.index;
        self.slice_source(start, end)
    }

    /// Moves on while label bytes follow.
    #[inline]
    pub(crate) fn read_label(&mut self)
        requires
            old(self).wf(),
        ensures
            final(self).wf(),
            final(self)@ == old(self)@.at(label_end(old(self).source(), old(self).position())),
    {
        let ghost before = self@;
        while legal_in_label(self.read_byte())
            invariant
                self@.well_formed(),
                self@ == before.at(self.position()),
                label_end(before.source, self.position()) == label_end(before.source, before.index),
            decreases self.source().len() - self.position(),
        {
            self.bump();
        }
    }

    /// Moves on while blank bytes follow, and tells whether a line feed
    /// was among them.
    fn skip_blank(&mut self) -> (newline: bool)
        requires
            old(self).wf(),
        ensures
            final(self).wf(),
            final(self)@ == old(self)@.at(old(self)@.next_start()),
            newline == has_newline(old(self).source(), old(self).position(), final(self).position()),
    {
        let ghost before = self@;
        let mut newline = false;
        loop
            invariant_except_break
                self@.well_formed(),
                self@ == before.at(self.position()),
                before.index <= self.position(),
                blank_end(before.source, self.position()) == blank_end(before.source, before.index),
                newline == has_newline(before.source, before.index, self.position()),
            ensures
                self@.well_formed(),
                self@ == before.at(blank_end(before.source, before.index)),
                newline == has_newline(before.source, before.index, self.position()),
            decreases self.source().len() - self.position(),
        {
            let ch = self.read_byte();
            if !is_blank(ch) {
                break ;
            }
            self.bump();
            if ch == '\n' as u8 {
                newline = true;
            }
        }
        newline
    }

    /// Reads a run of digits of a base, in which a `_` may separate two
    /// digits. A run without a first digit, or with a `_` that no digit
    /// follows, is an unexpected token.
    fn read_digits(&mut self, radix: Radix)
        requires
            old(self).wf(),
        ensures
            final(self).wf(),
            final(self)@ == old(self)@.moved(
                digits(old(self).source(), old(self).position(), radix, true),
            ),
    {
        let ghost before = self@;
        let mut needed = true;
        loop
            invariant
                before == old(self)@,
                self@.well_formed(),
                self@ == before.at(self.position()),
                digits(before.source, self.position(), radix, needed) == digits(
                    before.source,
                    before.index,
                    radix,
                    true,
                ),
            decreases self.source().len() - self.position(),
        {
            let ch = self.read_byte();
            if radix.is_digit(ch) {
                self.bump();
                needed = false;
            } else if needed {
                self.token = Token::UnexpectedToken;
                return ;
            } else if ch == '_' as u8 {
                self.bump();
                needed = true;
            } else {
                self.token = Token::Literal(LiteralType::Number);
                return ;
            }
        }
    }

    /// Reads the digits of a binary number, after its `0b`.
    #[inline]
    pub(crate) fn read_binary(&mut self)
        requires
            old(self).wf(),
        ensures
            final(self).wf(),
            final(self)@ == old(self)@.moved(
                digits(old(self).source(), old(self).position(), Radix::Binary, true),
            ),
    {
        self.read_digits(Radix::Binary)
    }

    /// Reads the digits of an octal number, after its `0o`.
    #[inline]
    pub(crate) fn read_octal(&mut self)
        requires
            old(self).wf(),
        ensures
            final(self).wf(),
            final(self)@ == old(self)@.moved(
                digits(old(self).source(), old(self).position(), Radix::Octal, true),
            ),
    {
        self.read_digits(Radix::Octal)
    }

    /// Reads a run of decimal digits.
    #[inline]
    pub(crate) fn read_decimal(&mut self)
        requires
            old(self).wf(),
        ensures
            final(self).wf(),
            final(self)@ == old(self)@.moved(
                digits(old(self).source(), old(self).position(), Radix::Decimal, true),
            ),
    {
        self.read_digits(Radix::Decimal)
    }

    /// Reads the digits of a hexadecimal number, after its `0x`.
    #[inline]
    pub(crate) fn read_hexadec(&mut self)
        requires
            old(self).wf(),
        ensures
            final(self).wf(),
            final(self)@ == old(self)@.moved(
                digits(old(self).source(), old(self).position(), Radix::Hexadecimal, true),
            ),
    {
        self.read_digits(Radix::Hexadecimal)
    }

    /// Reads what follows a decimal point: digits, or nothing.
    #[inline]
    pub(crate) fn read_float(&mut self)
        requires
            old(self).wf(),
        ensures
            final(self).wf(),
            final(self)@ == old(self)@.moved(fraction(old(self).source(), old(self).position())),
    {
        if Radix::Decimal.is_digit(self.read_byte()) {
            self.read_decimal()
        } else {
            self.token = Token::Literal(LiteralType::Number);
        }
    }

    /// Reads what follows the `e` of a number: a sign, if any, and digits.
    #[inline]
    pub(crate) fn read_scientific(&mut self)
        requires
            old(self).wf(),
        ensures
            final(self).wf(),
            final(self)@ == old(self)@.moved(exponent(old(self).source(), old(self).position())),
    {
        let ch = self.read_byte();
        if ch == '-' as u8 || ch == '+' as u8 {
            self.bump();
        }
        self.read_decimal()
    }

    /// Reads a decimal number from its first digit on.
    fn read_number(&mut self)
        requires
            old(self).wf(),
        ensures
            final(self).wf(),
            final(self)@ == old(self)@.moved(decimal(old(self).source(), old(self).position())),
    {
        self.read_decimal();
        if self.token == Token::UnexpectedToken {
            return ;
        }
        let ch = self.read_byte();
        if ch == '.' as u8 {
            self.bump();
            self.read_float()
        } else if ch == 'e' as u8 || ch == 'E' as u8 {
            self.bump();
            self.read_scientific()
        }
    }

    /// Reads a number that begins with `0`.
    fn read_zero(&mut self)
        requires
            old(self).wf(),
            byte_at(old(self).source(), old(self).position()) == '0' as u8,
        ensures
            final(self).wf(),
            final(self)@ == old(self)@.moved(zero(old(self).source(), old(self).position())),
    {
        let ch = self.byte_after();
        if ch == 'b' as u8 || ch == 'B' as u8 {
            self.bump();
            self.bump();
            self.read_binary()
        } else if ch == 'o' as u8 || ch == 'O' as u8 {
            self.bump();
            self.bump();
            self.read_octal()
        } else if ch == 'x' as u8 || ch == 'X' as u8 {
            self.bump();
            self.bump();
            self.read_hexadec()
        } else {
            self.read_number()
        }
    }

    /// Reads a string from its opening quote on.
    fn read_string(&mut self)
        requires
            old(self).wf(),
            byte_at(old(self).source(), old(self).position()) == '"' as u8 || byte_at(
                old(self).source(),
                old(self).position(),
            ) == '\'' as u8,
        ensures
            final(self).wf(),
            final(self)@ == old(self)@.moved(
                string(
                    old(self).source(),
                    byte_at(old(self).source(), old(self).position()),
                    old(self).position() + 1,
                ),
            ),
    {
        let ghost before = self@;
        let style = self.read_byte();
        self.bump();
        loop
            invariant
                before == old(self)@,
                self@.in_range(),
                self@ == before.at(self.position()),
                style == byte_at(before.source, before.index),
                style == '"' as u8 || style == '\'' as u8,
                string(before.source, style, self.position()) == string(
                    before.source,
                    style,
                    before.index + 1,
                ),
            decreases self.source().len() - self.position(),
        {
            let ch = self.read_byte();
            if ch == style {
                self.bump();
                self.token = Token::Literal(LiteralType::String);
                return ;
            } else if ch == '\\' as u8 {
                if self.next_byte() == 0 {
                    self.token = Token::UnexpectedEndOfProgram;
                    return ;
                }
                self.bump();
            } else if ch == 0 {
                self.token = Token::UnexpectedEndOfProgram;
                return ;
            } else {
                self.bump();
            }
        }
    }

    /// Reads a line comment, after its `//`, up to the end of the line.
    fn read_line_comment(&mut self)
        requires
            old(self)@.in_range(),
        ensures
            final(self).wf(),
            final(self)@ == old(self)@.moved(
                Scan {
                    token: Token::Comment(CommentType::SingleLine),
                    end: line_end(old(self).source(), old(self).position()),
                },
            ),
    {
        let ghost before = self@;
        loop
            invariant
                before == old(self)@,
                self@.in_range(),
                self@ == before.at(self.position()),
                line_end(before.source, self.position()) == line_end(before.source, before.index),
            decreases self.source().len() - self.position(),
        {
            let ch = self.read_byte();
            if ch == 0 || ch == '\n' as u8 {
                self.token = Token::Comment(CommentType::SingleLine);
                return ;
            }
            self.bump();
        }
    }

    /// Reads a block comment, after its `/*`, up to and with its `*/`.
    fn read_block_comment(&mut self)
        requires
            old(self)@.in_range(),
        ensures
            final(self).wf(),
            final(self)@ == old(self)@.moved(
                block_comment(old(self).source(), old(self).position()),
            ),
    {
        let ghost before = self@;
        loop
            invariant
                before == old(self)@,
                self@.in_range(),
                self@ == before.at(self.position()),
                block_comment(before.source, self.position()) == block_comment(
                    before.source,
                    before.index,
                ),
            decreases self.source().len() - self.position(),
        {
            let ch = self.read_byte();
            if ch == 0 {
                self.token = Token::UnexpectedEndOfProgram;
                return ;
            } else if ch == '*' as u8 {
                if self.next_byte() == '/' as u8 {
                    self.bump();
                    self.token = Token::Comment(CommentType::MultiLine);
                    return ;
                }
            } else {
                self.bump();
            }
        }
    }

    /// Reads a token that begins with a code point outside ASCII: asks
    /// whether the code point is a letter or a digit, and reads on
    /// accordingly.
    fn read_unicode(&mut self)
        requires
            old(self).wf(),
            byte_at(old(self).source(), old(self).position()) >= 0x80,
        ensures
            final(self).wf(),
            final(self)@ == old(self)@.moved(
                wide_name(
                    old(self).source(),
                    old(self).position(),
                    alphanumeric(char_at(old(self).source(), old(self).position())),
                ),
            ),
    {
        broadcast use {encode_utf8_valid_utf8, encode_utf8_decode_utf8, group_string_axioms};

        let rest = self.slice_source(self.index, self.source.as_bytes().len());
        assert(rest@.len() > 0) by {
            if rest@.len() == 0 {
                assert(rest@ =~= Seq::<char>::empty());
            }
        }
        assert(decode_utf8(rest.spec_bytes()) == rest@);
        let mut chars = rest.chars();
        match chars.next() {
            Some(first) => self.read_wide_name(is_alphanumeric(first)),
            None => self.read_wide_name(false),
        }
    }

    /// Reads a token that begins with a code point outside ASCII, given
    /// whether that code point is alphanumeric. The code point is taken
    /// whole. If it is alphanumeric it begins a name, which label bytes may
    /// continue; if not, it is an unexpected token of its own.
    pub fn read_wide_name(&mut self, alphanumeric: bool)
        requires
            old(self).wf(),
            byte_at(old(self).source(), old(self).position()) >= 0x80,
        ensures
            final(self).wf(),
            final(self)@ == old(self)@.moved(
                wide_name(old(self).source(), old(self).position(), alphanumeric),
            ),
    {
        let ghost before = self@;
        self.bump();
        while is_continuation(self.read_byte())
            invariant
                self@.in_range(),
                self@ == before.at(self.position()),
                continuation_end(before.source, self.position()) == continuation_end(
                    before.source,
                    before.index + 1,
                ),
            decreases self.source().len() - self.position(),
        {
            self.bump();
        }
        if alphanumeric {
            self.read_label();
            self.token = Token::Identifier;
        } else {
            self.token = Token::UnexpectedToken;
        }
    }

    /// Reads the name of a member after a `.`, where a reserved word is a
    /// name like any other. Blank bytes before it are passed over. Where no
    /// name follows, the token is unexpected and no byte is taken.
    #[inline]
    pub fn read_accessor(&mut self)
        requires
            old(self).wf(),
        ensures
            final(self).wf(),
            final(self)@ == old(self)@.accessor_step(),
    {
        self.skip_blank();
        self.accessor_start = self.index;
        let ch = self.read_byte();
        if ch >= 0x80 {
            self.read_unicode();
        } else if is_name_start(ch) {
            self.read_label();
            self.token = Token::Identifier;
        } else {
            self.token = Token::UnexpectedToken;
        }
    }

    /// Reads a name and looks it up among the reserved words.
    fn read_word(&mut self)
        requires
            old(self).wf(),
            name_start(byte_at(old(self).source(), old(self).position())),
        ensures
            final(self).wf(),
            final(self)@ == old(self)@.moved(word(old(self).source(), old(self).position())),
    {
        let start = self.index;
        proof {
            lemma_after_ascii(self.source(), self.position());
            lemma_label_end(self.source(), self.position() + 1);
        }
        self.read_label();
        self.token = classify(self.source.as_bytes(), start, self.index);
    }

    /// Reads the token that a punctuation byte begins.
    fn read_punctuation(&mut self)
        requires
            old(self).wf(),
            0 < byte_at(old(self).source(), old(self).position()) < 0x80,
        ensures
            final(self).wf(),
            final(self)@ == old(self)@.moved(punctuation(old(self).source(), old(self).position())),
    {
        let ch = self.read_byte();
        let next = self.next_byte();
        let token = if ch == ';' as u8 {
            Token::Semicolon
        } else if ch == ':' as u8 {
            Token::Colon
        } else if ch == ',' as u8 {
            Token::Comma
        } else if ch == '(' as u8 {
            Token::ParenOpen
        } else if ch == ')' as u8 {
            Token::ParenClose
        } else if ch == '[' as u8 {
            Token::BracketOpen
        } else if ch == ']' as u8 {
            Token::BracketClose
        } else if ch == '{' as u8 {
            Token::BraceOpen
        } else if ch == '}' as u8 {
            Token::BraceClose
        } else if ch == '<' as u8 {
            Token::Lesser
        } else if ch == '>' as u8 {
            Token::Greater
        } else if ch == '?' as u8 {
            Token::QuestionMark
        } else if ch == '~' as u8 {
            Token::Tilde
        } else if ch == '^' as u8 {
            Token::Caret
        } else if ch == '%' as u8 {
            Token::Remainder
        } else if ch == '=' as u8 {
            if next == '=' as u8 {
                if self.next_byte() == '=' as u8 {
                    self.bump();
                    Token::StrictEquality
                } else {
                    Token::Equality
                }
            } else if next == '>' as u8 {
                self.bump();
                Token::FatArrow
            } else {
                Token::Assign
            }
        } else if ch == '!' as u8 {
            if next == '=' as u8 {
                if self.next_byte() == '=' as u8 {
                    self.bump();
                    Token::StrictInequality
                } else {
                    Token::Inequality
                }
            } else {
                Token::Exclamation
            }
        } else if ch == '&' as u8 {
            if next == '&' as u8 {
                self.bump();
                Token::LogicalAnd
            } else {
                Token::Ampersand
            }
        } else if ch == '|' as u8 {
            if next == '|' as u8 {
                self.bump();
                Token::LogicalOr
            } else {
                Token::Pipe
            }
        } else if ch == '+' as u8 {
            if next == '+' as u8 {
                self.bump();
                Token::Increment
            } else {
                Token::Plus
            }
        } else if ch == '-' as u8 {
            if next == '-' as u8 {
                self.bump();
                Token::Decrement
            } else if next == '=' as u8 {
                self.bump();
                Token::Minus
            } else {
                Token::Minus
            }
        } else if ch == '*' as u8 {
            if next == '*' as u8 {
                self.bump();
                Token::Exponent
            } else {
                Token::Asterisk
            }
        } else if ch == '/' as u8 {
            if next == '/' as u8 {
                self.bump();
                return self.read_line_comment();
            } else if next == '*' as u8 {
                self.bump();
                return self.read_block_comment();
            } else {
                Token::ForwardSlash
            }
        } else if ch == '.' as u8 {
            if Radix::Decimal.is_digit(next) {
                return self.read_float();
            } else if next == '.' as u8 {
                if self.next_byte() == '.' as u8 {
                    self.bump();
                    Token::RestSpread
                } else {
                    Token::UnexpectedToken
                }
            } else {
                Token::Dot
            }
        } else {
            Token::UnexpectedToken
        };
        self.token = token;
    }

    /// Reads a segment of a template from the current position on, up to
    /// the closing backtick or to the `${` that opens an interpolation, and
    /// keeps its constant text in `quasi`. It is called when a backtick is
    /// read, and by the parser once it has read the `}` that closes an
    /// interpolation.
    #[inline]
    pub fn read_template_kind(&mut self)
        requires
            old(self).wf(),
        ensures
            final(self).wf(),
            final(self)@ == old(self)@.template_step(),
    {
        let ghost before = self@;
        let start = self.index;
        loop
            invariant
                before == old(self)@,
                before.well_formed(),
                self@.in_range(),
                self@ == before.at(self.position()),
                start == before.index,
                start <= self.position(),
                template(before.source, self.position()) == template(before.source, before.index),
            decreases self.source().len() - self.position(),
        {
            let ch = self.read_byte();
            if ch == '`' as u8 {
                let end = self.index;
                self.bump();
                self.quasi = self.slice_source(start, end);
                self.token = Token::TemplateClosed;
                return ;
            } else if ch == '$' as u8 {
                let end = self.index;
                if self.next_byte() == '{' as u8 {
                    self.bump();
                    self.quasi = self.slice_source(start, end);
                    self.token = Token::TemplateOpen;
                    return ;
                }
            } else if ch == '\\' as u8 {
                if self.next_byte() == 0 {
                    self.token = Token::UnexpectedEndOfProgram;
                    return ;
                }
                self.bump();
            } else if ch == 0 {
                self.token = Token::UnexpectedEndOfProgram;
                return ;
            } else {
                self.bump();
            }
        }
    }

    /// Reads a regular expression whose opening slash was just read, flags
    /// and all, and returns its text from that slash on. The parser calls
    /// it where a `/` begins a regular expression and no division. Where
    /// the expression is cut short, the token says how and the text is
    /// empty.
    #[inline]
    pub fn read_regular_expression(&mut self) -> (text: &'arena str)
        requires
            old(self).wf(),
            old(self)@.after_slash(),
        ensures
            final(self).wf(),
            final(self)@ == old(self)@.regex_step(),
            text.spec_bytes() == if final(self)@.token == Token::Literal(LiteralType::RegEx) {
                final(self).source().subrange(old(self).position() - 1, final(self).position())
            } else {
                Seq::<u8>::empty()
            },
    {
        broadcast use encode_utf8_valid_utf8;

        let ghost before = self@;
        let start = self.index - 1;
        let mut in_class = false;
        loop
            invariant_except_break
                before == old(self)@,
                self@.in_range(),
                self@ == before.at(self.position()),
                self.position() >= before.index,
                regex(before.source, self.position(), in_class) == regex(
                    before.source,
                    before.index,
                    false,
                ),
            ensures
                self@.well_formed(),
                self@ == before.at(self.position()),
                self.position() > before.index,
                flags_end(before.source, self.position()) == regex(
                    before.source,
                    before.index,
                    false,
                ).end,
                regex(before.source, before.index, false).token == Token::Literal(
                    LiteralType::RegEx,
                ),
            decreases self.source().len() - self.position(),
        {
            let ch = self.read_byte();
            if ch == '[' as u8 {
                self.bump();
                in_class = true;
            } else if ch == ']' as u8 {
                self.bump();
                in_class = false;
            } else if ch == '/' as u8 {
                self.bump();
                if !in_class {
                    break ;
                }
            } else if ch == '\\' as u8 {
                if self.next_byte() == 0 {
                    self.token = Token::UnexpectedEndOfProgram;
                    return no_text();
                }
                self.bump();
            } else if ch == '\n' as u8 {
                self.bump();
                self.token = Token::UnexpectedToken;
                return no_text();
            } else if ch == 0 {
                self.token = Token::UnexpectedEndOfProgram;
                return no_text();
            } else {
                self.bump();
            }
        }
        while is_regex_flag(self.read_byte())
            invariant
                self@.well_formed(),
                self@ == before.at(self.position()),
                self.position() > before.index,
                flags_end(before.source, self.position()) == regex(
                    before.source,
                    before.index,
                    false,
                ).end,
            decreases self.source().len() - self.position(),
        {
            self.bump();
        }
        self.token = Token::Literal(LiteralType::RegEx);
        self.slice_from(start)
    }
}

} // verus!
