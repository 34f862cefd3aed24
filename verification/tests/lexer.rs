use esr_lexer::{CommentType, KeywordName, Lexer, LiteralType, Token, TypeName};
use toolshed::Arena;

fn assert_lex<T>(source: &str, tokens: T)
where
    T: AsRef<[(Token, &'static str)]>,
{
    let arena = Arena::new();
    let mut lex = Lexer::new(&arena, source);

    for &(ref token, slice) in tokens.as_ref() {
        assert_eq!(lex.token, *token);
        assert_eq!(lex.token_as_str(), slice);
        lex.consume();
    }

    assert_eq!(lex.token, Token::EndOfProgram);
}

#[test]
fn empty_lexer() {
    assert_lex("   ", []);
}

#[test]
fn line_comment() {
    assert_lex(" // foo", [(Token::Comment(CommentType::SingleLine), "// foo")]);
}

#[test]
fn block_comment() {
    assert_lex(" /* foo */ bar", [(Token::Comment(CommentType::MultiLine), "/* foo */"), (Token::Identifier, "bar")]);
    assert_lex(" /** foo **/ bar", [(Token::Comment(CommentType::MultiLine), "/** foo **/"), (Token::Identifier, "bar")]);
    assert_lex(" /*abc foo **/ bar", [(Token::Comment(CommentType::MultiLine), "/*abc foo **/"), (Token::Identifier, "bar")]);
}

#[test]
fn method_call() {
    assert_lex(
        "foo.bar();",
        [
            (Token::Identifier, "foo"),
            (Token::Dot, "."),
            (Token::Identifier, "bar"),
            (Token::ParenOpen, "("),
            (Token::ParenClose, ")"),
            (Token::Semicolon, ";"),
        ],
    );
}

#[test]
fn method_call_with_keyword() {
    assert_lex(
        "foo.function();",
        [
            (Token::Identifier, "foo"),
            (Token::Dot, "."),
            (Token::Identifier, "function"),
            (Token::ParenOpen, "("),
            (Token::ParenClose, ")"),
            (Token::Semicolon, ";"),
        ],
    );
}

#[test]
fn simple_math() {
    assert_lex(
        "let foo = 2 + 2;",
        [
            (Token::Keyword(KeywordName::Let), "let"),
            (Token::Identifier, "foo"),
            (Token::Assign, "="),
            (Token::Literal(LiteralType::Number), "2"),
            (Token::Plus, "+"),
            (Token::Literal(LiteralType::Number), "2"),
            (Token::Semicolon, ";"),
        ],
    );
}

#[test]
fn variable_declaration() {
    assert_lex(
        "var x, y, z = 42;",
        [
            (Token::Keyword(KeywordName::Var), "var"),
            (Token::Identifier, "x"),
            (Token::Comma, ","),
            (Token::Identifier, "y"),
            (Token::Comma, ","),
            (Token::Identifier, "z"),
            (Token::Assign, "="),
            (Token::Literal(LiteralType::Number), "42"),
            (Token::Semicolon, ";"),
        ],
    );
}

#[test]
fn function_statement() {
    assert_lex(
        "function foo(bar) { return bar }",
        [
            (Token::Keyword(KeywordName::Function), "function"),
            (Token::Identifier, "foo"),
            (Token::ParenOpen, "("),
            (Token::Identifier, "bar"),
            (Token::ParenClose, ")"),
            (Token::BraceOpen, "{"),
            (Token::Keyword(KeywordName::Return), "return"),
            (Token::Identifier, "bar"),
            (Token::BraceClose, "}"),
        ],
    );
}

#[test]
fn unexpected_token() {
    assert_lex("..", [(Token::UnexpectedToken, "..")]);
}

#[test]
fn unexpected_end() {
    assert_lex("'foo", [(Token::UnexpectedEndOfProgram, "'foo")]);
}

#[test]
fn keywords() {
    assert_lex(
        "
            break case class const debugger default delete do else
            export extends false finally for function if implements
            import in instanceof interface let new null package
            protected public return static super switch this throw
            true try undefined typeof var void while with yield
        ",
        &[
            (Token::Keyword(KeywordName::Break), "break"),
            (Token::Keyword(KeywordName::Case), "case"),
            (Token::Keyword(KeywordName::Class), "class"),
            (Token::Keyword(KeywordName::Const), "const"),
            (Token::Keyword(KeywordName::Debugger), "debugger"),
            (Token::Keyword(KeywordName::Default), "default"),
            (Token::Delete, "delete"),
            (Token::Keyword(KeywordName::Do), "do"),
            (Token::Keyword(KeywordName::Else), "else"),
            (Token::Keyword(KeywordName::Export), "export"),
            (Token::Keyword(KeywordName::Extends), "extends"),
            (Token::Literal(LiteralType::False), "false"),
            (Token::Keyword(KeywordName::Finally), "finally"),
            (Token::Keyword(KeywordName::For), "for"),
            (Token::Keyword(KeywordName::Function), "function"),
            (Token::Keyword(KeywordName::If), "if"),
            (Token::Keyword(KeywordName::Implements), "implements"),
            (Token::Keyword(KeywordName::Import), "import"),
            (Token::In, "in"),
            (Token::Instanceof, "instanceof"),
            (Token::Keyword(KeywordName::Interface), "interface"),
            (Token::Keyword(KeywordName::Let), "let"),
            (Token::New, "new"),
            (Token::Literal(LiteralType::Null), "null"),
            (Token::Keyword(KeywordName::Package), "package"),
            (Token::Keyword(KeywordName::Protected), "protected"),
            (Token::Keyword(KeywordName::Public), "public"),
            (Token::Keyword(KeywordName::Return), "return"),
            (Token::Keyword(KeywordName::Static), "static"),
            (Token::Keyword(KeywordName::Super), "super"),
            (Token::Keyword(KeywordName::Switch), "switch"),
            (Token::Keyword(KeywordName::This), "this"),
            (Token::Keyword(KeywordName::Throw), "throw"),
            (Token::Literal(LiteralType::True), "true"),
            (Token::Keyword(KeywordName::Try), "try"),
            (Token::Literal(LiteralType::Undefined), "undefined"),
            (Token::Typeof, "typeof"),
            (Token::Keyword(KeywordName::Var), "var"),
            (Token::Void, "void"),
            (Token::Keyword(KeywordName::While), "while"),
            (Token::Keyword(KeywordName::With), "with"),
            (Token::Keyword(KeywordName::Yield), "yield"),
        ][..],
    );
}

#[test]
fn operators() {
    assert_lex(
        "
            => new ++ -- ! ~ typeof void delete * / % ** + - << >>
            >>> < <= > >= instanceof in === !== == != & ^ | && ||
            ? = += -= **= *= /= %= <<= >>= >>>= &= ^= |= ...
        ",
        &[
            (Token::FatArrow, "=>"),
            (Token::New, "new"),
            (Token::Increment, "++"),
            (Token::Decrement, "--"),
            (Token::Exclamation, "!"),
            (Token::Tilde, "~"),
            (Token::Typeof, "typeof"),
            (Token::Void, "void"),
            (Token::Delete, "delete"),
            (Token::Asterisk, "*"),
            (Token::ForwardSlash, "/"),
            (Token::Remainder, "%"),
            (Token::Exponent, "**"),
            (Token::Plus, "+"),
            (Token::Minus, "-"),
            // <<
            (Token::Lesser, "<"),
            (Token::Lesser, "<"),
            // >>
            (Token::Greater, ">"),
            (Token::Greater, ">"),
            // >>>
            (Token::Greater, ">"),
            (Token::Greater, ">"),
            (Token::Greater, ">"),
            (Token::Lesser, "<"),
            // <=
            (Token::Lesser, "<"),
            (Token::Assign, "="),
            (Token::Greater, ">"),
            //  >=
            (Token::Greater, ">"),
            (Token::Assign, "="),
            (Token::Instanceof, "instanceof"),
            (Token::In, "in"),
            (Token::StrictEquality, "==="),
            (Token::StrictInequality, "!=="),
            (Token::Equality, "=="),
            (Token::Inequality, "!="),
            (Token::Ampersand, "&"),
            (Token::Caret, "^"),
            (Token::Pipe, "|"),
            (Token::LogicalAnd, "&&"),
            (Token::LogicalOr, "||"),
            (Token::QuestionMark, "?"),
            (Token::Assign, "="),
            // +=
            (Token::Plus, "+"),
            (Token::Assign, "="),
            // -= is read as one token
            (Token::Minus, "-="),
            // **=
            (Token::Exponent, "**"),
            (Token::Assign, "="),
            // *=
            (Token::Asterisk, "*"),
            (Token::Assign, "="),
            // /=
            (Token::ForwardSlash, "/"),
            (Token::Assign, "="),
            // %=
            (Token::Remainder, "%"),
            (Token::Assign, "="),
            // <<=
            (Token::Lesser, "<"),
            (Token::Lesser, "<"),
            (Token::Assign, "="),
            // >>=
            (Token::Greater, ">"),
            (Token::Greater, ">"),
            (Token::Assign, "="),
            // >>>=
            (Token::Greater, ">"),
            (Token::Greater, ">"),
            (Token::Greater, ">"),
            (Token::Assign, "="),
            // &=
            (Token::Ampersand, "&"),
            (Token::Assign, "="),
            // ^=
            (Token::Caret, "^"),
            (Token::Assign, "="),
            // |=
            (Token::Pipe, "|"),
            (Token::Assign, "="),
            (Token::RestSpread, "..."),
        ][..],
    );
}

#[test]
fn type_assertions() {
    assert_lex(
        "const foo: number = 2 + 2;",
        &[
            (Token::Keyword(KeywordName::Const), "const"),
            (Token::Identifier, "foo"),
            (Token::Colon, ":"),
            (Token::Type(TypeName::Number), "number"),
            (Token::Assign, "="),
            (Token::Literal(LiteralType::Number), "2"),
            (Token::Plus, "+"),
            (Token::Literal(LiteralType::Number), "2"),
            (Token::Semicolon, ";"),
        ][..],
    );
}

#[test]
fn typed_function() {
    assert_lex(
        "function isFoo(bar: string): boolean { return bar }",
        &[
            (Token::Keyword(KeywordName::Function), "function"),
            (Token::Identifier, "isFoo"),
            (Token::ParenOpen, "("),
            (Token::Identifier, "bar"),
            (Token::Colon, ":"),
            (Token::Type(TypeName::String), "string"),
            (Token::ParenClose, ")"),
            (Token::Colon, ":"),
            (Token::Type(TypeName::Boolean), "boolean"),
            (Token::BraceOpen, "{"),
            (Token::Keyword(KeywordName::Return), "return"),
            (Token::Identifier, "bar"),
            (Token::BraceClose, "}"),
        ][..],
    );
}

#[test]
fn async_function() {
    assert_lex(
        "async function isFoo(bar) { await bar(); return; }",
        &[
            (Token::Keyword(KeywordName::Async), "async"),
            (Token::Keyword(KeywordName::Function), "function"),
            (Token::Identifier, "isFoo"),
            (Token::ParenOpen, "("),
            (Token::Identifier, "bar"),
            (Token::ParenClose, ")"),
            (Token::BraceOpen, "{"),
            (Token::Keyword(KeywordName::Await), "await"),
            (Token::Identifier, "bar"),
            (Token::ParenOpen, "("),
            (Token::ParenClose, ")"),
            (Token::Semicolon, ";"),
            (Token::Keyword(KeywordName::Return), "return"),
            (Token::Semicolon, ";"),
            (Token::BraceClose, "}"),
        ][..],
    );
}

#[test]
fn type_argument() {
    assert_lex(
        "function isFoo<T>(bar: T): T { return bar; }",
        &[
            (Token::Keyword(KeywordName::Function), "function"),
            (Token::Identifier, "isFoo"),
            (Token::Lesser, "<"),
            (Token::Identifier, "T"),
            (Token::Greater, ">"),
            (Token::ParenOpen, "("),
            (Token::Identifier, "bar"),
            (Token::Colon, ":"),
            (Token::Identifier, "T"),
            (Token::ParenClose, ")"),
            (Token::Colon, ":"),
            (Token::Identifier, "T"),
            (Token::BraceOpen, "{"),
            (Token::Keyword(KeywordName::Return), "return"),
            (Token::Identifier, "bar"),
            (Token::Semicolon, ";"),
            (Token::BraceClose, "}"),
        ][..],
    );
}
