//! The record of a token the parser could not use.

use crate::token::Token;
use vstd::prelude::*;
use vstd::utf8::*;

verus! {

/// A token that was not expected where it stood.
#[derive(Debug, PartialEq, Eq, Clone)]
pub struct Error {
    /// The kind of the offending token.
    pub token: Token,
    /// Where it begins in the source.
    pub start: usize,
    /// Where it ends in the source.
    pub end: usize,
    /// Its text, as it stands in the source.
    pub raw: String,
}

impl Error {
    /// The bytes of the offending text.
    pub open spec fn raw_bytes(self) -> Seq<u8> {
        encode_utf8(self.raw@)
    }
}

} // verus!
