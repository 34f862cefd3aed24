//! A byte-level scanner for ECMAScript source with type annotations.
//!
//! The scanner walks a UTF-8 source buffer and classifies one token at a
//! time. What it produces is defined by the spec functions of [`grammar`];
//! the executable [`lexer::Lexer`] is proved to follow them.

pub mod boundary;
pub mod bounds;
pub mod bytes;
pub mod error;
pub mod grammar;
pub mod laws;
pub mod lexer;
pub mod outside;
pub mod state;
pub mod token;
pub mod words;

pub use crate::error::Error;
pub use crate::lexer::Lexer;
pub use crate::token::{Asi, CommentType, KeywordName, LiteralType, Token, TypeName};
