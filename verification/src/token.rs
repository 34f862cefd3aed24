//! Token kinds produced by the scanner.

use vstd::prelude::*;

verus! {

/// The flavour of a literal token.
#[derive(Debug, PartialEq, Eq, Structural, Clone, Copy)]
pub enum LiteralType {
    True,
    False,
    Null,
    Undefined,
    String,
    Number,
    RegEx,
}

/// Names of the built-in types that may appear in annotations.
#[derive(Debug, PartialEq, Eq, Structural, Clone, Copy)]
pub enum TypeName {
    Number,
    String,
    Boolean,
    Any,
    Never,
}

/// The reserved words that share the `Keyword` token kind.
#[derive(Debug, PartialEq, Eq, Structural, Clone, Copy)]
pub enum KeywordName {
    Async,
    Await,
    Break,
    Case,
    Catch,
    Class,
    Const,
    Continue,
    Debugger,
    Default,
    Do,
    Else,
    Enum,
    Export,
    Extends,
    Finally,
    For,
    Function,
    Get,
    If,
    Implements,
    Import,
    Interface,
    Let,
    Package,
    Private,
    Protected,
    Public,
    Return,
    Setter,
    Static,
    Super,
    Switch,
    This,
    Throw,
    Try,
    Var,
    While,
    With,
    Yield,
}

/// Whether a comment runs to the end of its line or is delimited.
#[derive(Debug, PartialEq, Eq, Structural, Clone, Copy)]
pub enum CommentType {
    SingleLine,
    MultiLine,
}

/// Which rule of automatic semicolon insertion applies at the current token.
#[derive(Debug, PartialEq, Eq, Structural, Clone, Copy)]
pub enum Asi {
    /// The token is a semicolon: the parser consumes it and ends the statement.
    ExplicitSemicolon,
    /// The token is no semicolon, but it follows a line break or allows the
    /// insertion itself: the parser ends the statement without consuming it.
    ImplicitSemicolon,
    /// No insertion rule applies: the parser goes on with the statement.
    NoSemicolon,
}

/// A classified token.
#[derive(Debug, PartialEq, Eq, Structural, Clone, Copy)]
pub enum Token {
    EndOfProgram,
    Identifier,
    Comment(CommentType),
    Literal(LiteralType),
    Type(TypeName),
    Keyword(KeywordName),
    Semicolon,
    Colon,
    Comma,
    QuestionMark,
    ParenOpen,
    ParenClose,
    BracketOpen,
    BracketClose,
    BraceOpen,
    BraceClose,
    Lesser,
    Greater,
    FatArrow,
    New,
    Increment,
    Decrement,
    Exclamation,
    Tilde,
    Typeof,
    Void,
    Delete,
    Asterisk,
    ForwardSlash,
    Remainder,
    Exponent,
    Plus,
    Minus,
    Instanceof,
    In,
    Of,
    As,
    StrictEquality,
    StrictInequality,
    Equality,
    Inequality,
    Ampersand,
    Caret,
    Pipe,
    LogicalAnd,
    LogicalOr,
    Assign,
    Dot,
    RestSpread,
    At,
    Hash,
    TemplateOpen,
    TemplateClosed,
    UnexpectedToken,
    UnexpectedEndOfProgram,
}

impl Token {
    /// A token is a word when it may stand as a member name: an identifier, a
    /// soft keyword with a token kind of its own, a keyword or a type name.
    pub open spec fn word(self) -> bool {
        match self {
            Token::Identifier
            | Token::New
            | Token::Typeof
            | Token::Void
            | Token::Delete
            | Token::Instanceof
            | Token::In
            | Token::Of
            | Token::As => true,
            Token::Keyword(_) => true,
            Token::Type(_) => true,
            _ => false,
        }
    }

    /// Tells whether the token may stand as a member name.
    #[inline]
    pub fn is_word(&self) -> (r: bool)
        ensures
            r == self.word(),
    {
        match self {
            Token::Identifier
            | Token::New
            | Token::Typeof
            | Token::Void
            | Token::Delete
            | Token::Instanceof
            | Token::In
            | Token::Of
            | Token::As => true,
            Token::Keyword(_) => true,
            Token::Type(_) => true,
            _ => false,
        }
    }
}

} // verus!
