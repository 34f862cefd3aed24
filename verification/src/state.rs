//! The scanner as a state machine over the bytes of the source.

use crate::boundary::on_boundary;
use crate::bytes::{byte_at, name_start};
use crate::grammar::{
    asi_of, blank_end, char_at, has_newline, label_end, lexeme, quasi_of, regex, template,
    wide_name, Scan,
};
use crate::outside::alphanumeric;
use crate::token::{Asi, Token};
use vstd::prelude::*;
use vstd::utf8::*;

verus! {

/// All that a scanner holds, as plain values.
pub struct State {
    /// The bytes of the source, without the zero byte that terminates them.
    pub source: Seq<u8>,
    /// The kind of the current token.
    pub token: Token,
    /// The rule of semicolon insertion at the current token.
    pub asi: Asi,
    /// The position of the next byte to read.
    pub index: int,
    /// Where the current token begins.
    pub token_start: int,
    /// Where the member name read last begins.
    pub accessor_start: int,
    /// The constant text of the template segment read last.
    pub quasi: Seq<u8>,
}

impl State {
    /// The source is UTF-8 and the positions the state holds lie in it, in
    /// order. This much holds while a token is being read.
    pub open spec fn in_range(self) -> bool {
        &&& valid_utf8(self.source)
        &&& self.token_start <= self.index <= self.source.len()
        &&& self.accessor_start <= self.index
        &&& on_boundary(self.source, self.token_start)
        &&& on_boundary(self.source, self.accessor_start)
    }

    /// Between two tokens the scanner stands where no code point is cut.
    pub open spec fn well_formed(self) -> bool {
        self.in_range() && on_boundary(self.source, self.index)
    }

    /// The state with the current position moved to `index`.
    pub open spec fn at(self, index: int) -> State {
        State { index, ..self }
    }

    /// The state once the token of `scan` has been read.
    pub open spec fn moved(self, scan: Scan) -> State {
        State { token: scan.token, index: scan.end, ..self }
    }

    /// The state a scanner is made in, before it reads its first token.
    pub open spec fn initial(source: Seq<u8>) -> State {
        State {
            source,
            token: Token::UnexpectedToken,
            asi: Asi::NoSemicolon,
            index: 0,
            token_start: 0,
            accessor_start: 0,
            quasi: Seq::empty(),
        }
    }

    /// The bytes of the current token.
    pub open spec fn text(self) -> Seq<u8> {
        self.source.subrange(self.token_start, self.index)
    }

    /// The bytes of the member name read last.
    pub open spec fn accessor_text(self) -> Seq<u8> {
        self.source.subrange(self.accessor_start, self.index)
    }

    /// Where the next token begins: blank bytes do not belong to a token.
    pub open spec fn next_start(self) -> int {
        blank_end(self.source, self.index)
    }

    /// The next token and where it ends.
    pub open spec fn next_scan(self) -> Scan {
        let start = self.next_start();
        lexeme(self.source, start, self.token, alphanumeric(char_at(self.source, start)))
    }

    /// Reading the next token. After a `.` a name is read as a member name.
    pub open spec fn step(self) -> State {
        let start = self.next_start();
        let scan = self.next_scan();
        State {
            source: self.source,
            token: scan.token,
            asi: asi_of(scan.token, has_newline(self.source, self.index, start)),
            index: scan.end,
            token_start: start,
            accessor_start: if self.token == Token::Dot && name_start(byte_at(self.source, start)) {
                start
            } else {
                self.accessor_start
            },
            quasi: if byte_at(self.source, start) == '`' as u8 {
                quasi_of(self.source, start + 1, scan, self.quasi)
            } else {
                self.quasi
            },
        }
    }

    /// The state after `n` tokens more.
    pub open spec fn steps(self, n: nat) -> State
        decreases n,
    {
        if n == 0 {
            self
        } else {
            self.steps((n - 1) as nat).step()
        }
    }

    /// The blank bytes between the current token and the next.
    pub open spec fn gap(self) -> Seq<u8> {
        self.source.subrange(self.index, self.next_start())
    }

    /// The member name that the parser asks for after a `.`, where it ends
    /// and what it is: a name, whatever it spells, or an unexpected token
    /// that takes no byte.
    pub open spec fn accessor_scan(self) -> Scan {
        let start = self.next_start();
        let b = byte_at(self.source, start);
        if b >= 0x80 {
            wide_name(self.source, start, alphanumeric(char_at(self.source, start)))
        } else if name_start(b) {
            Scan { token: Token::Identifier, end: label_end(self.source, start) }
        } else {
            Scan { token: Token::UnexpectedToken, end: start }
        }
    }

    /// Reading a member name on the parser's demand.
    pub open spec fn accessor_step(self) -> State {
        let scan = self.accessor_scan();
        State {
            token: scan.token,
            index: scan.end,
            accessor_start: self.next_start(),
            ..self
        }
    }

    /// Reading a template segment from the current position on.
    pub open spec fn template_step(self) -> State {
        let scan = template(self.source, self.index);
        State {
            token: scan.token,
            index: scan.end,
            quasi: quasi_of(self.source, self.index, scan, self.quasi),
            ..self
        }
    }

    /// The current position follows a `/`, which may open a regular
    /// expression.
    pub open spec fn after_slash(self) -> bool {
        self.index > 0 && byte_at(self.source, self.index - 1) == '/' as u8
    }

    /// Reading a regular expression whose opening slash was just read.
    pub open spec fn regex_step(self) -> State {
        self.moved(regex(self.source, self.index, false))
    }
}

} // verus!
