use esr_lexer::{Asi, CommentType, Error, KeywordName, Lexer, LiteralType, Token, TypeName};
use toolshed::Arena;

const NUMBER: Token = Token::Literal(LiteralType::Number);
const STRING: Token = Token::Literal(LiteralType::String);

/// All tokens of a source with their texts, up to the end of the program.
fn tokens(source: &str) -> Vec<(Token, String)> {
    let arena = Arena::new();
    let mut lex = Lexer::new(&arena, source);
    let mut out = Vec::new();
    while lex.token != Token::EndOfProgram {
        out.push((lex.token, lex.token_as_str().to_string()));
        lex.consume();
    }
    out
}

fn expect(source: &str, expected: &[(Token, &str)]) {
    let found = tokens(source);
    let expected: Vec<(Token, String)> =
        expected.iter().map(|(t, s)| (*t, s.to_string())).collect();
    assert_eq!(found, expected, "source: {:?}", source);
}

const SAMPLE: &str = "let caf\u{e9} = `a b` + 0x1f; // done\n\tfoo.class(\"s\\\"\", .5)\n/* end */";

#[test]
fn text_is_the_source_between_start_and_end() {
    let arena = Arena::new();
    let mut lex = Lexer::new(&arena, SAMPLE);
    let mut seen = 0;
    loop {
        let (start, end) = lex.loc();
        assert_eq!(lex.token_as_str(), &SAMPLE[start as usize..end as usize]);
        assert_eq!(lex.start(), start);
        assert_eq!(lex.end(), end);
        if lex.token == Token::EndOfProgram {
            break;
        }
        seen += 1;
        lex.consume();
    }
    assert!(seen > 10);
}

#[test]
fn every_token_takes_a_byte() {
    let arena = Arena::new();
    let mut lex = Lexer::new(&arena, "a # \u{20ac} 'x \\");
    while lex.token != Token::EndOfProgram {
        assert!(lex.end() > lex.start(), "{:?}", lex.token);
        lex.consume();
    }
    assert_eq!(lex.start(), lex.end());
}

#[test]
fn end_of_program_is_a_fixed_point() {
    let arena = Arena::new();
    let mut lex = Lexer::new(&arena, "x \n");
    assert_eq!(lex.token, Token::Identifier);
    lex.consume();
    assert_eq!(lex.token, Token::EndOfProgram);
    let at = lex.loc();
    assert_eq!(at, (3, 3));
    for _ in 0..3 {
        lex.consume();
        assert_eq!(lex.token, Token::EndOfProgram);
        assert_eq!(lex.loc(), at);
        assert_eq!(lex.token_as_str(), "");
        assert!(lex.asi() == Asi::ImplicitSemicolon);
    }
}

#[test]
fn lengths_add_up_to_the_source() {
    let arena = Arena::new();
    let mut lex = Lexer::new(&arena, SAMPLE);
    let mut texts = 0;
    let mut gaps = 0;
    let mut before = 0;
    loop {
        let (start, end) = lex.loc();
        gaps += start - before;
        texts += end - start;
        before = end;
        if lex.token == Token::EndOfProgram {
            break;
        }
        lex.consume();
    }
    assert_eq!((texts + gaps) as usize, SAMPLE.len());
    assert_eq!(gaps, 10);
}

#[test]
fn texts_rebuild_the_source_without_blanks() {
    let arena = Arena::new();
    let source = " a\t+ \"b c\"\n;  ";
    let mut lex = Lexer::new(&arena, source);
    let mut texts = String::new();
    let mut rebuilt = String::new();
    let mut before = 0;
    loop {
        let (start, end) = lex.loc();
        let gap = &source[before..start as usize];
        assert!(gap.bytes().all(|b| 1 <= b && b <= 0x20));
        rebuilt.push_str(gap);
        rebuilt.push_str(lex.token_as_str());
        texts.push_str(lex.token_as_str());
        before = end as usize;
        if lex.token == Token::EndOfProgram {
            break;
        }
        lex.consume();
    }
    assert_eq!(rebuilt, source);
    assert_eq!(texts, "a+\"b c\";");
}

#[test]
fn reserved_words_are_never_identifiers() {
    let words = [
        "async", "await", "boolean", "break", "case", "catch", "class", "const", "continue",
        "debugger", "default", "delete", "do", "else", "enum", "export", "extends", "false",
        "finally", "for", "function", "get", "if", "implements", "import", "in", "instanceof",
        "interface", "let", "new", "null", "number", "package", "private", "protected", "public",
        "return", "set", "static", "string", "super", "switch", "this", "throw", "true", "try",
        "typeof", "undefined", "var", "void", "while", "with", "yield",
    ];
    assert_eq!(words.len(), 53);
    for word in words {
        let found = tokens(word);
        assert_eq!(found.len(), 1);
        assert_eq!(found[0].1, word);
        assert_ne!(found[0].0, Token::Identifier, "{}", word);
    }
}

#[test]
fn words_the_scanner_does_not_reserve() {
    expect(
        "of as any never Let letter le classroom _let $ in1",
        &[
            (Token::Identifier, "of"),
            (Token::Identifier, "as"),
            (Token::Identifier, "any"),
            (Token::Identifier, "never"),
            (Token::Identifier, "Let"),
            (Token::Identifier, "letter"),
            (Token::Identifier, "le"),
            (Token::Identifier, "classroom"),
            (Token::Identifier, "_let"),
            (Token::Identifier, "$"),
            (Token::Identifier, "in1"),
        ],
    );
}

#[test]
fn kinds_of_reserved_words() {
    expect(
        "get set continue enum catch private number string boolean true",
        &[
            (Token::Keyword(KeywordName::Get), "get"),
            (Token::Keyword(KeywordName::Setter), "set"),
            (Token::Keyword(KeywordName::Continue), "continue"),
            (Token::Keyword(KeywordName::Enum), "enum"),
            (Token::Keyword(KeywordName::Catch), "catch"),
            (Token::Keyword(KeywordName::Private), "private"),
            (Token::Type(TypeName::Number), "number"),
            (Token::Type(TypeName::String), "string"),
            (Token::Type(TypeName::Boolean), "boolean"),
            (Token::Literal(LiteralType::True), "true"),
        ],
    );
}

#[test]
fn reserved_word_after_dot_is_a_member_name() {
    let arena = Arena::new();
    let mut lex = Lexer::new(&arena, "a.\n  new .typeof");
    lex.consume();
    assert_eq!(lex.token, Token::Dot);
    lex.consume();
    assert_eq!(lex.token, Token::Identifier);
    assert_eq!(lex.token_as_str(), "new");
    assert_eq!(lex.accessor_as_str(), "new");
    assert!(lex.asi() == Asi::ImplicitSemicolon);
    lex.consume();
    assert_eq!(lex.token, Token::Dot);
    lex.consume();
    assert_eq!((lex.token, lex.token_as_str()), (Token::Identifier, "typeof"));
}

#[test]
fn semicolon_insertion() {
    let arena = Arena::new();
    let mut lex = Lexer::new(&arena, "a b\nc ; \n; ) } (\n)");
    let mut found = Vec::new();
    loop {
        found.push((lex.token, lex.asi()));
        if lex.token == Token::EndOfProgram {
            break;
        }
        lex.consume();
    }
    let expected = vec![
        (Token::Identifier, Asi::NoSemicolon),
        (Token::Identifier, Asi::NoSemicolon),
        (Token::Identifier, Asi::ImplicitSemicolon),
        (Token::Semicolon, Asi::ExplicitSemicolon),
        (Token::Semicolon, Asi::ExplicitSemicolon),
        (Token::ParenClose, Asi::ImplicitSemicolon),
        (Token::BraceClose, Asi::ImplicitSemicolon),
        (Token::ParenOpen, Asi::NoSemicolon),
        (Token::ParenClose, Asi::ImplicitSemicolon),
        (Token::EndOfProgram, Asi::ImplicitSemicolon),
    ];
    assert!(found == expected);
}

#[test]
fn two_dots_then_comma() {
    expect("..,", &[(Token::UnexpectedToken, ".."), (Token::Comma, ",")]);
}

#[test]
fn rest_spread() {
    expect("...", &[(Token::RestSpread, "...")]);
    expect("....", &[(Token::RestSpread, "..."), (Token::Dot, ".")]);
}

#[test]
fn shift_assign_is_four_tokens() {
    expect(
        ">>>=",
        &[
            (Token::Greater, ">"),
            (Token::Greater, ">"),
            (Token::Greater, ">"),
            (Token::Assign, "="),
        ],
    );
}

#[test]
fn minus_assign_is_one_token() {
    expect("a-=1", &[(Token::Identifier, "a"), (Token::Minus, "-="), (NUMBER, "1")]);
    expect("a - = 1", &[
        (Token::Identifier, "a"),
        (Token::Minus, "-"),
        (Token::Assign, "="),
        (NUMBER, "1"),
    ]);
}

#[test]
fn longest_operator_wins() {
    expect(
        "====>=!===!&&&|||+++---***",
        &[
            (Token::StrictEquality, "==="),
            (Token::FatArrow, "=>"),
            (Token::Assign, "="),
            (Token::StrictInequality, "!=="),
            (Token::Assign, "="),
            (Token::Exclamation, "!"),
            (Token::LogicalAnd, "&&"),
            (Token::Ampersand, "&"),
            (Token::LogicalOr, "||"),
            (Token::Pipe, "|"),
            (Token::Increment, "++"),
            (Token::Plus, "+"),
            (Token::Decrement, "--"),
            (Token::Minus, "-"),
            (Token::Exponent, "**"),
            (Token::Asterisk, "*"),
        ],
    );
}

#[test]
fn bytes_that_begin_no_token() {
    expect(
        "#@\u{7f}",
        &[
            (Token::UnexpectedToken, "#"),
            (Token::UnexpectedToken, "@"),
            (Token::UnexpectedToken, "\u{7f}"),
        ],
    );
}

#[test]
fn numbers_in_every_base() {
    expect(
        "0 7 42 0b101 0B1 0o17 0O7 0xff 0XAb9 1_000 0xdead_beef 0_1",
        &[
            (NUMBER, "0"),
            (NUMBER, "7"),
            (NUMBER, "42"),
            (NUMBER, "0b101"),
            (NUMBER, "0B1"),
            (NUMBER, "0o17"),
            (NUMBER, "0O7"),
            (NUMBER, "0xff"),
            (NUMBER, "0XAb9"),
            (NUMBER, "1_000"),
            (NUMBER, "0xdead_beef"),
            (NUMBER, "0_1"),
        ],
    );
}

#[test]
fn fractions_and_exponents() {
    expect(
        "1.5 .5 1. 0.25 1e5 2E+10 3e-7 1.2_3 1e1_0",
        &[
            (NUMBER, "1.5"),
            (NUMBER, ".5"),
            (NUMBER, "1."),
            (NUMBER, "0.25"),
            (NUMBER, "1e5"),
            (NUMBER, "2E+10"),
            (NUMBER, "3e-7"),
            (NUMBER, "1.2_3"),
            (NUMBER, "1e1_0"),
        ],
    );
    expect("1.5e3", &[(NUMBER, "1.5"), (Token::Identifier, "e3")]);
}

#[test]
fn numbers_cut_short() {
    expect("0x", &[(Token::UnexpectedToken, "0x")]);
    expect("0b2", &[(Token::UnexpectedToken, "0b"), (NUMBER, "2")]);
    expect("0o8", &[(Token::UnexpectedToken, "0o"), (NUMBER, "8")]);
    expect("0xg", &[(Token::UnexpectedToken, "0x"), (Token::Identifier, "g")]);
    expect("1_x", &[(Token::UnexpectedToken, "1_"), (Token::Identifier, "x")]);
    expect("1__2", &[(Token::UnexpectedToken, "1_"), (Token::Identifier, "_2")]);
    expect("0b1_2", &[(Token::UnexpectedToken, "0b1_"), (NUMBER, "2")]);
    expect("1e", &[(Token::UnexpectedToken, "1e")]);
    expect("1e+", &[(Token::UnexpectedToken, "1e+")]);
    expect("1.5_", &[(Token::UnexpectedToken, "1.5_")]);
}

#[test]
fn strings() {
    expect(
        "'a' \"b\" 'it\\'s' \"q\\\"\" '\"' \"\" 'two\nlines' 'caf\u{e9} \\\u{e9}'",
        &[
            (STRING, "'a'"),
            (STRING, "\"b\""),
            (STRING, "'it\\'s'"),
            (STRING, "\"q\\\"\""),
            (STRING, "'\"'"),
            (STRING, "\"\""),
            (STRING, "'two\nlines'"),
            (STRING, "'caf\u{e9} \\\u{e9}'"),
        ],
    );
}

#[test]
fn strings_cut_short() {
    expect("\"foo", &[(Token::UnexpectedEndOfProgram, "\"foo")]);
    expect("'foo\\", &[(Token::UnexpectedEndOfProgram, "'foo\\")]);
    expect("'foo\"", &[(Token::UnexpectedEndOfProgram, "'foo\"")]);
}

#[test]
fn comments() {
    expect(
        "a // b\nc /* d\n */ e /**/ /*/ */",
        &[
            (Token::Identifier, "a"),
            (Token::Comment(CommentType::SingleLine), "// b"),
            (Token::Identifier, "c"),
            (Token::Comment(CommentType::MultiLine), "/* d\n */"),
            (Token::Identifier, "e"),
            (Token::Comment(CommentType::MultiLine), "/**/"),
            (Token::Comment(CommentType::MultiLine), "/*/ */"),
        ],
    );
    expect("/* open", &[(Token::UnexpectedEndOfProgram, "/* open")]);
    expect("/* open *", &[(Token::UnexpectedEndOfProgram, "/* open *")]);
    expect("//", &[(Token::Comment(CommentType::SingleLine), "//")]);
}

#[test]
fn line_feed_after_a_line_comment_counts() {
    let arena = Arena::new();
    let mut lex = Lexer::new(&arena, "// a\nb");
    assert_eq!(lex.token_as_str(), "// a");
    lex.consume();
    assert_eq!(lex.token, Token::Identifier);
    assert!(lex.asi() == Asi::ImplicitSemicolon);
}

#[test]
fn templates() {
    let arena = Arena::new();
    let mut lex = Lexer::new(&arena, "`one` `a${b}c$d\\`${ e }`");
    assert_eq!((lex.token, lex.token_as_str(), lex.quasi), (Token::TemplateClosed, "`one`", "one"));
    lex.consume();
    assert_eq!((lex.token, lex.token_as_str(), lex.quasi), (Token::TemplateOpen, "`a${", "a"));
    lex.consume();
    assert_eq!((lex.token, lex.token_as_str()), (Token::Identifier, "b"));
    assert_eq!(lex.quasi, "a");
    lex.consume();
    assert_eq!(lex.token, Token::BraceClose);
    lex.read_template_kind();
    assert_eq!((lex.token, lex.quasi), (Token::TemplateOpen, "c$d\\`"));
    assert_eq!(lex.token_as_str(), "}c$d\\`${");
    lex.consume();
    assert_eq!((lex.token, lex.token_as_str()), (Token::Identifier, "e"));
    lex.consume();
    assert_eq!(lex.token, Token::BraceClose);
    lex.read_template_kind();
    assert_eq!((lex.token, lex.quasi), (Token::TemplateClosed, ""));
    lex.consume();
    assert_eq!(lex.token, Token::EndOfProgram);
}

#[test]
fn templates_cut_short() {
    expect("`abc", &[(Token::UnexpectedEndOfProgram, "`abc")]);
    expect("`abc\\", &[(Token::UnexpectedEndOfProgram, "`abc\\")]);
    expect("`abc$", &[(Token::UnexpectedEndOfProgram, "`abc$")]);
    let arena = Arena::new();
    let lex = Lexer::new(&arena, "`abc");
    assert_eq!(lex.quasi, "");
}

#[test]
fn regular_expressions() {
    let arena = Arena::new();
    let mut lex = Lexer::new(&arena, "/a[/\\]]b\\/c/gi x /=/ /[a]/q");
    assert_eq!(lex.token, Token::ForwardSlash);
    assert_eq!(lex.read_regular_expression(), "/a[/\\]]b\\/c/gi");
    assert_eq!(lex.token, Token::Literal(LiteralType::RegEx));
    assert_eq!(lex.token_as_str(), "/a[/\\]]b\\/c/gi");
    lex.consume();
    assert_eq!(lex.token, Token::Identifier);
    lex.consume();
    assert_eq!(lex.token, Token::ForwardSlash);
    assert_eq!(lex.read_regular_expression(), "/=/");
    lex.consume();
    assert_eq!(lex.token, Token::ForwardSlash);
    assert_eq!(lex.read_regular_expression(), "/[a]/");
    lex.consume();
    assert_eq!((lex.token, lex.token_as_str()), (Token::Identifier, "q"));
}

#[test]
fn regular_expressions_cut_short() {
    let arena = Arena::new();
    let mut lex = Lexer::new(&arena, "/ab\ncd");
    assert_eq!(lex.read_regular_expression(), "");
    assert_eq!(lex.token, Token::UnexpectedToken);
    assert_eq!(lex.loc(), (0, 4));
    lex.consume();
    assert_eq!((lex.token, lex.token_as_str()), (Token::Identifier, "cd"));

    let mut lex = Lexer::new(&arena, "/ab");
    assert_eq!(lex.read_regular_expression(), "");
    assert_eq!(lex.token, Token::UnexpectedEndOfProgram);
    assert_eq!(lex.loc(), (0, 3));

    let mut lex = Lexer::new(&arena, "/ab\\");
    assert_eq!(lex.read_regular_expression(), "");
    assert_eq!(lex.token, Token::UnexpectedEndOfProgram);

    let mut lex = Lexer::new(&arena, "/[/");
    assert_eq!(lex.read_regular_expression(), "");
    assert_eq!(lex.token, Token::UnexpectedEndOfProgram);
}

#[test]
fn names_outside_ascii() {
    expect("\u{e9}", &[(Token::Identifier, "\u{e9}")]);
    expect("\u{e9}t\u{e9}", &[(Token::Identifier, "\u{e9}t"), (Token::Identifier, "\u{e9}")]);
    expect("caf\u{e9}", &[(Token::Identifier, "caf"), (Token::Identifier, "\u{e9}")]);
    expect("\u{65e5}\u{672c}1", &[(Token::Identifier, "\u{65e5}"), (Token::Identifier, "\u{672c}1")]);
    expect("\u{1d7d9}x", &[(Token::Identifier, "\u{1d7d9}x")]);
}

#[test]
fn code_points_that_begin_no_name() {
    expect("\u{20ac}", &[(Token::UnexpectedToken, "\u{20ac}")]);
    expect(
        "a\u{2014}\u{1f600}b",
        &[
            (Token::Identifier, "a"),
            (Token::UnexpectedToken, "\u{2014}"),
            (Token::UnexpectedToken, "\u{1f600}"),
            (Token::Identifier, "b"),
        ],
    );
}

#[test]
fn backslash_belongs_to_a_name() {
    expect("a\\u0041 \\u0062c let\\", &[
        (Token::Identifier, "a\\u0041"),
        (Token::Identifier, "\\u0062c"),
        (Token::Identifier, "let\\"),
    ]);
}

#[test]
fn zero_byte_ends_the_program() {
    let arena = Arena::new();
    let mut lex = Lexer::new(&arena, "a\0b");
    assert_eq!(lex.token, Token::Identifier);
    lex.consume();
    assert_eq!(lex.token, Token::EndOfProgram);
    assert_eq!(lex.loc(), (1, 1));
    lex.consume();
    assert_eq!(lex.token, Token::EndOfProgram);
    assert_eq!(lex.loc(), (1, 1));
}

#[test]
fn empty_source() {
    let arena = Arena::new();
    let lex = Lexer::new(&arena, "");
    assert_eq!(lex.token, Token::EndOfProgram);
    assert_eq!(lex.loc(), (0, 0));
    assert!(lex.asi() == Asi::ImplicitSemicolon);
    assert_eq!(lex.token_as_str(), "");
    assert_eq!(lex.accessor_as_str(), "");
    assert_eq!(lex.quasi, "");
}

#[test]
fn control_bytes_are_blank() {
    expect("\u{1}a\r\n\tb\u{1f}\u{20}c", &[
        (Token::Identifier, "a"),
        (Token::Identifier, "b"),
        (Token::Identifier, "c"),
    ]);
}

#[test]
fn accessor_on_demand() {
    let arena = Arena::new();
    let mut lex = Lexer::new(&arena, "a.  class.\u{e9}x.(");
    lex.consume();
    assert_eq!(lex.token, Token::Dot);
    lex.read_accessor();
    assert_eq!(lex.token, Token::Identifier);
    assert_eq!(lex.accessor_as_str(), "class");
    assert_eq!(lex.token_as_str(), ".  class");
    lex.consume();
    assert_eq!(lex.token, Token::Dot);
    lex.read_accessor();
    assert_eq!((lex.token, lex.accessor_as_str()), (Token::Identifier, "\u{e9}x"));
    lex.consume();
    assert_eq!(lex.token, Token::Dot);
    let at = lex.end();
    lex.read_accessor();
    assert_eq!((lex.token, lex.accessor_as_str()), (Token::UnexpectedToken, ""));
    assert_eq!(lex.end(), at);
    lex.consume();
    assert_eq!(lex.token, Token::ParenOpen);
}

#[test]
fn accessor_at_the_end() {
    let arena = Arena::new();
    let mut lex = Lexer::new(&arena, "a. ");
    lex.consume();
    lex.read_accessor();
    assert_eq!((lex.token, lex.accessor_as_str()), (Token::UnexpectedToken, ""));
    assert_eq!(lex.end(), 3);
    lex.consume();
    assert_eq!(lex.token, Token::EndOfProgram);

    let mut lex = Lexer::new(&arena, "a.\u{20ac}");
    lex.consume();
    lex.read_accessor();
    assert_eq!((lex.token, lex.accessor_as_str()), (Token::UnexpectedToken, "\u{20ac}"));
}

#[test]
fn invalid_token_records_and_moves_on() {
    let arena = Arena::new();
    let mut lex = Lexer::new(&arena, "  #foo bar");
    let error = lex.invalid_token();
    assert_eq!(
        error,
        Error { token: Token::UnexpectedToken, start: 2, end: 3, raw: "#".to_string() }
    );
    assert_eq!((lex.token, lex.token_as_str()), (Token::Identifier, "foo"));
    let error = lex.invalid_token();
    assert_eq!(
        error,
        Error { token: Token::Identifier, start: 3, end: 6, raw: "foo".to_string() }
    );
    assert_eq!(lex.token_as_str(), "bar");
}

#[test]
fn invalid_token_stays_at_the_end() {
    let arena = Arena::new();
    let mut lex = Lexer::new(&arena, "x ");
    lex.consume();
    let error = lex.invalid_token();
    assert_eq!(
        error,
        Error { token: Token::EndOfProgram, start: 2, end: 2, raw: String::new() }
    );
    assert_eq!(lex.token, Token::EndOfProgram);
    assert_eq!(lex.loc(), (2, 2));
}

#[test]
fn positions_then_consume() {
    let arena = Arena::new();
    let mut lex = Lexer::new(&arena, "  ab  cde");
    assert_eq!(lex.loc(), (2, 4));
    assert_eq!(lex.start_then_consume(), 2);
    assert_eq!(lex.loc(), (6, 9));
    assert_eq!(lex.end_then_consume(), 9);
    assert_eq!(lex.token, Token::EndOfProgram);
    assert_eq!(lex.start_then_consume(), 9);
    assert_eq!(lex.end_then_consume(), 9);
}

#[test]
fn getters_agree_with_fields() {
    let arena = Arena::new();
    let mut lex = Lexer::new(&arena, "`q` x");
    assert_eq!(lex.token(), lex.token);
    assert_eq!(lex.quasi(), "q");
    lex.consume();
    assert_eq!(lex.token(), Token::Identifier);
    assert_eq!(lex.quasi(), lex.quasi);
}

#[test]
fn words_and_other_tokens() {
    let words = [
        Token::Identifier,
        Token::New,
        Token::Typeof,
        Token::Void,
        Token::Delete,
        Token::Instanceof,
        Token::In,
        Token::Of,
        Token::As,
        Token::Keyword(KeywordName::Let),
        Token::Keyword(KeywordName::Yield),
        Token::Type(TypeName::Any),
        Token::Type(TypeName::Never),
    ];
    for token in words {
        assert!(token.is_word(), "{:?}", token);
    }
    let others = [
        Token::EndOfProgram,
        Token::Literal(LiteralType::True),
        Token::Literal(LiteralType::Null),
        Token::Comment(CommentType::SingleLine),
        Token::Dot,
        Token::Semicolon,
        Token::At,
        Token::Hash,
        Token::TemplateOpen,
        Token::UnexpectedToken,
        Token::UnexpectedEndOfProgram,
    ];
    for token in others {
        assert!(!token.is_word(), "{:?}", token);
    }
}

#[test]
fn arena_keeps_its_own_copy() {
    let arena = Arena::new();
    let mut lex = {
        let source = String::from("var answer = 42;");
        Lexer::new(&arena, &source)
    };
    let mut found = Vec::new();
    while lex.token != Token::EndOfProgram {
        found.push(lex.token_as_str());
        lex.consume();
    }
    assert_eq!(found, vec!["var", "answer", "=", "42", ";"]);
}

#[test]
fn scanner_over_a_borrowed_source() {
    let source = String::from("x => x");
    let mut lex = Lexer::from_source(&source);
    assert_eq!((lex.token, lex.token_as_str()), (Token::Identifier, "x"));
    lex.consume();
    assert_eq!((lex.token, lex.token_as_str()), (Token::FatArrow, "=>"));
    lex.consume();
    assert_eq!(lex.loc(), (5, 6));
}

#[test]
fn wide_name_goes_by_the_answer_it_is_given() {
    let mut lex = Lexer::from_source(".\u{20ac}x1 y");
    assert_eq!(lex.token, Token::Dot);
    lex.read_wide_name(true);
    assert_eq!(lex.token, Token::Identifier);
    assert_eq!(lex.loc(), (0, 6));

    let mut lex = Lexer::from_source(".\u{e9}x1 y");
    lex.read_wide_name(false);
    assert_eq!(lex.token, Token::UnexpectedToken);
    assert_eq!(lex.loc(), (0, 3));
    lex.consume();
    assert_eq!((lex.token, lex.token_as_str()), (Token::Identifier, "x1"));
}
