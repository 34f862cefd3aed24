//! The reserved words and the token kind of each.

use crate::token::{KeywordName, LiteralType, Token, TypeName};
use vstd::prelude::*;
use vstd::string::*;
use vstd::utf8::*;

verus! {

/// `w` is the spelling of `word`, byte for byte.
#[verifier::opaque]
pub open spec fn spelled(w: Seq<u8>, word: &str) -> bool {
    w =~= word.spec_bytes()
}

/// The token kind of a name: the kind set aside for it where the name is a
/// reserved word, `Identifier` otherwise.
#[verifier::opaque]
pub open spec fn word_token(w: Seq<u8>) -> Token {
    if spelled(w, "async") {
        Token::Keyword(KeywordName::Async)
    } else if spelled(w, "await") {
        Token::Keyword(KeywordName::Await)
    } else if spelled(w, "boolean") {
        Token::Type(TypeName::Boolean)
    } else if spelled(w, "break") {
        Token::Keyword(KeywordName::Break)
    } else if spelled(w, "case") {
        Token::Keyword(KeywordName::Case)
    } else if spelled(w, "catch") {
        Token::Keyword(KeywordName::Catch)
    } else if spelled(w, "class") {
        Token::Keyword(KeywordName::Class)
    } else if spelled(w, "const") {
        Token::Keyword(KeywordName::Const)
    } else if spelled(w, "continue") {
        Token::Keyword(KeywordName::Continue)
    } else if spelled(w, "debugger") {
        Token::Keyword(KeywordName::Debugger)
    } else if spelled(w, "default") {
        Token::Keyword(KeywordName::Default)
    } else if spelled(w, "delete") {
        Token::Delete
    } else if spelled(w, "do") {
        Token::Keyword(KeywordName::Do)
    } else if spelled(w, "else") {
        Token::Keyword(KeywordName::Else)
    } else if spelled(w, "enum") {
        Token::Keyword(KeywordName::Enum)
    } else if spelled(w, "export") {
        Token::Keyword(KeywordName::Export)
    } else if spelled(w, "extends") {
        Token::Keyword(KeywordName::Extends)
    } else if spelled(w, "false") {
        Token::Literal(LiteralType::False)
    } else if spelled(w, "finally") {
        Token::Keyword(KeywordName::Finally)
    } else if spelled(w, "for") {
        Token::Keyword(KeywordName::For)
    } else if spelled(w, "function") {
        Token::Keyword(KeywordName::Function)
    } else if spelled(w, "get") {
        Token::Keyword(KeywordName::Get)
    } else if spelled(w, "if") {
        Token::Keyword(KeywordName::If)
    } else if spelled(w, "implements") {
        Token::Keyword(KeywordName::Implements)
    } else if spelled(w, "import") {
        Token::Keyword(KeywordName::Import)
    } else if spelled(w, "in") {
        Token::In
    } else if spelled(w, "instanceof") {
        Token::Instanceof
    } else if spelled(w, "interface") {
        Token::Keyword(KeywordName::Interface)
    } else if spelled(w, "let") {
        Token::Keyword(KeywordName::Let)
    } else if spelled(w, "new") {
        Token::New
    } else if spelled(w, "null") {
        Token::Literal(LiteralType::Null)
    } else if spelled(w, "number") {
        Token::Type(TypeName::Number)
    } else if spelled(w, "package") {
        Token::Keyword(KeywordName::Package)
    } else if spelled(w, "private") {
        Token::Keyword(KeywordName::Private)
    } else if spelled(w, "protected") {
        Token::Keyword(KeywordName::Protected)
    } else if spelled(w, "public") {
        Token::Keyword(KeywordName::Public)
    } else if spelled(w, "return") {
        Token::Keyword(KeywordName::Return)
    } else if spelled(w, "set") {
        Token::Keyword(KeywordName::Setter)
    } else if spelled(w, "static") {
        Token::Keyword(KeywordName::Static)
    } else if spelled(w, "string") {
        Token::Type(TypeName::String)
    } else if spelled(w, "super") {
        Token::Keyword(KeywordName::Super)
    } else if spelled(w, "switch") {
        Token::Keyword(KeywordName::Switch)
    } else if spelled(w, "this") {
        Token::Keyword(KeywordName::This)
    } else if spelled(w, "throw") {
        Token::Keyword(KeywordName::Throw)
    } else if spelled(w, "true") {
        Token::Literal(LiteralType::True)
    } else if spelled(w, "try") {
        Token::Keyword(KeywordName::Try)
    } else if spelled(w, "typeof") {
        Token::Typeof
    } else if spelled(w, "undefined") {
        Token::Literal(LiteralType::Undefined)
    } else if spelled(w, "var") {
        Token::Keyword(KeywordName::Var)
    } else if spelled(w, "void") {
        Token::Void
    } else if spelled(w, "while") {
        Token::Keyword(KeywordName::While)
    } else if spelled(w, "with") {
        Token::Keyword(KeywordName::With)
    } else if spelled(w, "yield") {
        Token::Keyword(KeywordName::Yield)
    } else {
        Token::Identifier
    }
}

/// Whether `w` is the spelling of a reserved word.
pub open spec fn reserved(w: Seq<u8>) -> bool {
    spelled(w, "async")
        || spelled(w, "await")
        || spelled(w, "boolean")
        || spelled(w, "break")
        || spelled(w, "case")
        || spelled(w, "catch")
        || spelled(w, "class")
        || spelled(w, "const")
        || spelled(w, "continue")
        || spelled(w, "debugger")
        || spelled(w, "default")
        || spelled(w, "delete")
        || spelled(w, "do")
        || spelled(w, "else")
        || spelled(w, "enum")
        || spelled(w, "export")
        || spelled(w, "extends")
        || spelled(w, "false")
        || spelled(w, "finally")
        || spelled(w, "for")
        || spelled(w, "function")
        || spelled(w, "get")
        || spelled(w, "if")
        || spelled(w, "implements")
        || spelled(w, "import")
        || spelled(w, "in")
        || spelled(w, "instanceof")
        || spelled(w, "interface")
        || spelled(w, "let")
        || spelled(w, "new")
        || spelled(w, "null")
        || spelled(w, "number")
        || spelled(w, "package")
        || spelled(w, "private")
        || spelled(w, "protected")
        || spelled(w, "public")
        || spelled(w, "return")
        || spelled(w, "set")
        || spelled(w, "static")
        || spelled(w, "string")
        || spelled(w, "super")
        || spelled(w, "switch")
        || spelled(w, "this")
        || spelled(w, "throw")
        || spelled(w, "true")
        || spelled(w, "try")
        || spelled(w, "typeof")
        || spelled(w, "undefined")
        || spelled(w, "var")
        || spelled(w, "void")
        || spelled(w, "while")
        || spelled(w, "with")
        || spelled(w, "yield")
}

/// A name is an identifier unless it is a reserved word, which is a word
/// or the name of a constant.
pub proof fn lemma_word_kinds(w: Seq<u8>)
    ensures
        word_token(w).word() || word_token(w) is Literal,
        reserved(w) <==> word_token(w) != Token::Identifier,
{
    reveal(word_token);
}

proof fn lemma_initial(w: Seq<u8>, word: &str, c: char)
    requires
        word@.len() > 0,
        word@[0] == c,
        is_ascii_chars(word@),
    ensures
        spelled(w, word) ==> w.len() == word@.len() && w[0] == c as u8,
{
    reveal(spelled);
    is_ascii_chars_encode_utf8(word@);
}

/// The length and the first letter of each reserved word.
pub proof fn lemma_initials(w: Seq<u8>)
    ensures
        spelled(w, "async") ==> w.len() == 5 && w[0] == 'a' as u8,
        spelled(w, "await") ==> w.len() == 5 && w[0] == 'a' as u8,
        spelled(w, "boolean") ==> w.len() == 7 && w[0] == 'b' as u8,
        spelled(w, "break") ==> w.len() == 5 && w[0] == 'b' as u8,
        spelled(w, "case") ==> w.len() == 4 && w[0] == 'c' as u8,
        spelled(w, "catch") ==> w.len() == 5 && w[0] == 'c' as u8,
        spelled(w, "class") ==> w.len() == 5 && w[0] == 'c' as u8,
        spelled(w, "const") ==> w.len() == 5 && w[0] == 'c' as u8,
        spelled(w, "continue") ==> w.len() == 8 && w[0] == 'c' as u8,
        spelled(w, "debugger") ==> w.len() == 8 && w[0] == 'd' as u8,
        spelled(w, "default") ==> w.len() == 7 && w[0] == 'd' as u8,
        spelled(w, "delete") ==> w.len() == 6 && w[0] == 'd' as u8,
        spelled(w, "do") ==> w.len() == 2 && w[0] == 'd' as u8,
        spelled(w, "else") ==> w.len() == 4 && w[0] == 'e' as u8,
        spelled(w, "enum") ==> w.len() == 4 && w[0] == 'e' as u8,
        spelled(w, "export") ==> w.len() == 6 && w[0] == 'e' as u8,
        spelled(w, "extends") ==> w.len() == 7 && w[0] == 'e' as u8,
        spelled(w, "false") ==> w.len() == 5 && w[0] == 'f' as u8,
        spelled(w, "finally") ==> w.len() == 7 && w[0] == 'f' as u8,
        spelled(w, "for") ==> w.len() == 3 && w[0] == 'f' as u8,
        spelled(w, "function") ==> w.len() == 8 && w[0] == 'f' as u8,
        spelled(w, "get") ==> w.len() == 3 && w[0] == 'g' as u8,
        spelled(w, "if") ==> w.len() == 2 && w[0] == 'i' as u8,
        spelled(w, "implements") ==> w.len() == 10 && w[0] == 'i' as u8,
        spelled(w, "import") ==> w.len() == 6 && w[0] == 'i' as u8,
        spelled(w, "in") ==> w.len() == 2 && w[0] == 'i' as u8,
        spelled(w, "instanceof") ==> w.len() == 10 && w[0] == 'i' as u8,
        spelled(w, "interface") ==> w.len() == 9 && w[0] == 'i' as u8,
        spelled(w, "let") ==> w.len() == 3 && w[0] == 'l' as u8,
        spelled(w, "new") ==> w.len() == 3 && w[0] == 'n' as u8,
        spelled(w, "null") ==> w.len() == 4 && w[0] == 'n' as u8,
        spelled(w, "number") ==> w.len() == 6 && w[0] == 'n' as u8,
        spelled(w, "package") ==> w.len() == 7 && w[0] == 'p' as u8,
        spelled(w, "private") ==> w.len() == 7 && w[0] == 'p' as u8,
        spelled(w, "protected") ==> w.len() == 9 && w[0] == 'p' as u8,
        spelled(w, "public") ==> w.len() == 6 && w[0] == 'p' as u8,
        spelled(w, "return") ==> w.len() == 6 && w[0] == 'r' as u8,
        spelled(w, "set") ==> w.len() == 3 && w[0] == 's' as u8,
        spelled(w, "static") ==> w.len() == 6 && w[0] == 's' as u8,
        spelled(w, "string") ==> w.len() == 6 && w[0] == 's' as u8,
        spelled(w, "super") ==> w.len() == 5 && w[0] == 's' as u8,
        spelled(w, "switch") ==> w.len() == 6 && w[0] == 's' as u8,
        spelled(w, "this") ==> w.len() == 4 && w[0] == 't' as u8,
        spelled(w, "throw") ==> w.len() == 5 && w[0] == 't' as u8,
        spelled(w, "true") ==> w.len() == 4 && w[0] == 't' as u8,
        spelled(w, "try") ==> w.len() == 3 && w[0] == 't' as u8,
        spelled(w, "typeof") ==> w.len() == 6 && w[0] == 't' as u8,
        spelled(w, "undefined") ==> w.len() == 9 && w[0] == 'u' as u8,
        spelled(w, "var") ==> w.len() == 3 && w[0] == 'v' as u8,
        spelled(w, "void") ==> w.len() == 4 && w[0] == 'v' as u8,
        spelled(w, "while") ==> w.len() == 5 && w[0] == 'w' as u8,
        spelled(w, "with") ==> w.len() == 4 && w[0] == 'w' as u8,
        spelled(w, "yield") ==> w.len() == 5 && w[0] == 'y' as u8,
{
    reveal_strlit("async");
    lemma_initial(w, "async", 'a');
    reveal_strlit("await");
    lemma_initial(w, "await", 'a');
    reveal_strlit("boolean");
    lemma_initial(w, "boolean", 'b');
    reveal_strlit("break");
    lemma_initial(w, "break", 'b');
    reveal_strlit("case");
    lemma_initial(w, "case", 'c');
    reveal_strlit("catch");
    lemma_initial(w, "catch", 'c');
    reveal_strlit("class");
    lemma_initial(w, "class", 'c');
    reveal_strlit("const");
    lemma_initial(w, "const", 'c');
    reveal_strlit("continue");
    lemma_initial(w, "continue", 'c');
    reveal_strlit("debugger");
    lemma_initial(w, "debugger", 'd');
    reveal_strlit("default");
    lemma_initial(w, "default", 'd');
    reveal_strlit("delete");
    lemma_initial(w, "delete", 'd');
    reveal_strlit("do");
    lemma_initial(w, "do", 'd');
    reveal_strlit("else");
    lemma_initial(w, "else", 'e');
    reveal_strlit("enum");
    lemma_initial(w, "enum", 'e');
    reveal_strlit("export");
    lemma_initial(w, "export", 'e');
    reveal_strlit("extends");
    lemma_initial(w, "extends", 'e');
    reveal_strlit("false");
    lemma_initial(w, "false", 'f');
    reveal_strlit("finally");
    lemma_initial(w, "finally", 'f');
    reveal_strlit("for");
    lemma_initial(w, "for", 'f');
    reveal_strlit("function");
    lemma_initial(w, "function", 'f');
    reveal_strlit("get");
    lemma_initial(w, "get", 'g');
    reveal_strlit("if");
    lemma_initial(w, "if", 'i');
    reveal_strlit("implements");
    lemma_initial(w, "implements", 'i');
    reveal_strlit("import");
    lemma_initial(w, "import", 'i');
    reveal_strlit("in");
    lemma_initial(w, "in", 'i');
    reveal_strlit("instanceof");
    lemma_initial(w, "instanceof", 'i');
    reveal_strlit("interface");
    lemma_initial(w, "interface", 'i');
    reveal_strlit("let");
    lemma_initial(w, "let", 'l');
    reveal_strlit("new");
    lemma_initial(w, "new", 'n');
    reveal_strlit("null");
    lemma_initial(w, "null", 'n');
    reveal_strlit("number");
    lemma_initial(w, "number", 'n');
    reveal_strlit("package");
    lemma_initial(w, "package", 'p');
    reveal_strlit("private");
    lemma_initial(w, "private", 'p');
    reveal_strlit("protected");
    lemma_initial(w, "protected", 'p');
    reveal_strlit("public");
    lemma_initial(w, "public", 'p');
    reveal_strlit("return");
    lemma_initial(w, "return", 'r');
    reveal_strlit("set");
    lemma_initial(w, "set", 's');
    reveal_strlit("static");
    lemma_initial(w, "static", 's');
    reveal_strlit("string");
    lemma_initial(w, "string", 's');
    reveal_strlit("super");
    lemma_initial(w, "super", 's');
    reveal_strlit("switch");
    lemma_initial(w, "switch", 's');
    reveal_strlit("this");
    lemma_initial(w, "this", 't');
    reveal_strlit("throw");
    lemma_initial(w, "throw", 't');
    reveal_strlit("true");
    lemma_initial(w, "true", 't');
    reveal_strlit("try");
    lemma_initial(w, "try", 't');
    reveal_strlit("typeof");
    lemma_initial(w, "typeof", 't');
    reveal_strlit("undefined");
    lemma_initial(w, "undefined", 'u');
    reveal_strlit("var");
    lemma_initial(w, "var", 'v');
    reveal_strlit("void");
    lemma_initial(w, "void", 'v');
    reveal_strlit("while");
    lemma_initial(w, "while", 'w');
    reveal_strlit("with");
    lemma_initial(w, "with", 'w');
    reveal_strlit("yield");
    lemma_initial(w, "yield", 'y');
}

/// Compares the bytes of `src` from `start` to `end` with a word.
fn spells(src: &[u8], start: usize, end: usize, word: &str) -> (r: bool)
    requires
        start <= end <= src@.len(),
    ensures
        r == spelled(src@.subrange(start as int, end as int), word),
{
    reveal(spelled);
    let w = word.as_bytes();
    if end - start != w.len() {
        return false;
    }
    let mut k: usize = 0;
    while k < w.len()
        invariant
            start <= end <= src@.len(),
            end - start == w@.len(),
            w@ == word.spec_bytes(),
            k <= w@.len(),
            forall|j: int| 0 <= j < k ==> src@[start + j] == w@[j],
        decreases w@.len() - k,
    {
        if src[start + k] != w[k] {
            reveal(spelled);
            assert(src@.subrange(start as int, end as int)[k as int] != w@[k as int]);
            return false;
        }
        k += 1;
    }
    true
}

/// Looks a name up among the reserved words, going by its first letter.
pub fn classify(src: &[u8], start: usize, end: usize) -> (t: Token)
    requires
        start < end <= src@.len(),
    ensures
        t == word_token(src@.subrange(start as int, end as int)),
{
    let first = src[start];
    proof {
        reveal(word_token);
        lemma_initials(src@.subrange(start as int, end as int));
        assert(src@.subrange(start as int, end as int)[0] == first);
    }
    if first == 'a' as u8 {
        if spells(src, start, end, "async") {
            Token::Keyword(KeywordName::Async)
        } else if spells(src, start, end, "await") {
            Token::Keyword(KeywordName::Await)
        } else {
            Token::Identifier
        }
    } else if first == 'b' as u8 {
        if spells(src, start, end, "boolean") {
            Token::Type(TypeName::Boolean)
        } else if spells(src, start, end, "break") {
            Token::Keyword(KeywordName::Break)
        } else {
            Token::Identifier
        }
    } else if first == 'c' as u8 {
        if spells(src, start, end, "case") {
            Token::Keyword(KeywordName::Case)
        } else if spells(src, start, end, "catch") {
            Token::Keyword(KeywordName::Catch)
        } else if spells(src, start, end, "class") {
            Token::Keyword(KeywordName::Class)
        } else if spells(src, start, end, "const") {
            Token::Keyword(KeywordName::Const)
        } else if spells(src, start, end, "continue") {
            Token::Keyword(KeywordName::Continue)
        } else {
            Token::Identifier
        }
    } else if first == 'd' as u8 {
        if spells(src, start, end, "debugger") {
            Token::Keyword(KeywordName::Debugger)
        } else if spells(src, start, end, "default") {
            Token::Keyword(KeywordName::Default)
        } else if spells(src, start, end, "delete") {
            Token::Delete
        } else if spells(src, start, end, "do") {
            Token::Keyword(KeywordName::Do)
        } else {
            Token::Identifier
        }
    } else if first == 'e' as u8 {
        if spells(src, start, end, "else") {
            Token::Keyword(KeywordName::Else)
        } else if spells(src, start, end, "enum") {
            Token::Keyword(KeywordName::Enum)
        } else if spells(src, start, end, "export") {
            Token::Keyword(KeywordName::Export)
        } else if spells(src, start, end, "extends") {
            Token::Keyword(KeywordName::Extends)
        } else {
            Token::Identifier
        }
    } else if first == 'f' as u8 {
        if spells(src, start, end, "false") {
            Token::Literal(LiteralType::False)
        } else if spells(src, start, end, "finally") {
            Token::Keyword(KeywordName::Finally)
        } else if spells(src, start, end, "for") {
            Token::Keyword(KeywordName::For)
        } else if spells(src, start, end, "function") {
            Token::Keyword(KeywordName::Function)
        } else {
            Token::Identifier
        }
    } else if first == 'g' as u8 {
        if spells(src, start, end, "get") {
            Token::Keyword(KeywordName::Get)
        } else {
            Token::Identifier
        }
    } else if first == 'i' as u8 {
        if spells(src, start, end, "if") {
            Token::Keyword(KeywordName::If)
        } else if spells(src, start, end, "implements") {
            Token::Keyword(KeywordName::Implements)
        } else if spells(src, start, end, "import") {
            Token::Keyword(KeywordName::Import)
        } else if spells(src, start, end, "in") {
            Token::In
        } else if spells(src, start, end, "instanceof") {
            Token::Instanceof
        } else if spells(src, start, end, "interface") {
            Token::Keyword(KeywordName::Interface)
        } else {
            Token::Identifier
        }
    } else if first == 'l' as u8 {
        if spells(src, start, end, "let") {
            Token::Keyword(KeywordName::Let)
        } else {
            Token::Identifier
        }
    } else if first == 'n' as u8 {
        if spells(src, start, end, "new") {
            Token::New
        } else if spells(src, start, end, "null") {
            Token::Literal(LiteralType::Null)
        } else if spells(src, start, end, "number") {
            Token::Type(TypeName::Number)
        } else {
            Token::Identifier
        }
    } else if first == 'p' as u8 {
        if spells(src, start, end, "package") {
            Token::Keyword(KeywordName::Package)
        } else if spells(src, start, end, "private") {
            Token::Keyword(KeywordName::Private)
        } else if spells(src, start, end, "protected") {
            Token::Keyword(KeywordName::Protected)
        } else if spells(src, start, end, "public") {
            Token::Keyword(KeywordName::Public)
        } else {
            Token::Identifier
        }
    } else if first == 'r' as u8 {
        if spells(src, start, end, "return") {
            Token::Keyword(KeywordName::Return)
        } else {
            Token::Identifier
        }
    } else if first == 's' as u8 {
        if spells(src, start, end, "set") {
            Token::Keyword(KeywordName::Setter)
        } else if spells(src, start, end, "static") {
            Token::Keyword(KeywordName::Static)
        } else if spells(src, start, end, "string") {
            Token::Type(TypeName::String)
        } else if spells(src, start, end, "super") {
            Token::Keyword(KeywordName::Super)
        } else if spells(src, start, end, "switch") {
            Token::Keyword(KeywordName::Switch)
        } else {
            Token::Identifier
        }
    } else if first == 't' as u8 {
        if spells(src, start, end, "this") {
            Token::Keyword(KeywordName::This)
        } else if spells(src, start, end, "throw") {
            Token::Keyword(KeywordName::Throw)
        } else if spells(src, start, end, "true") {
            Token::Literal(LiteralType::True)
        } else if spells(src, start, end, "try") {
            Token::Keyword(KeywordName::Try)
        } else if spells(src, start, end, "typeof") {
            Token::Typeof
        } else {
            Token::Identifier
        }
    } else if first == 'u' as u8 {
        if spells(src, start, end, "undefined") {
            Token::Literal(LiteralType::Undefined)
        } else {
            Token::Identifier
        }
    } else if first == 'v' as u8 {
        if spells(src, start, end, "var") {
            Token::Keyword(KeywordName::Var)
        } else if spells(src, start, end, "void") {
            Token::Void
        } else {
            Token::Identifier
        }
    } else if first == 'w' as u8 {
        if spells(src, start, end, "while") {
            Token::Keyword(KeywordName::While)
        } else if spells(src, start, end, "with") {
            Token::Keyword(KeywordName::With)
        } else {
            Token::Identifier
        }
    } else if first == 'y' as u8 {
        if spells(src, start, end, "yield") {
            Token::Keyword(KeywordName::Yield)
        } else {
            Token::Identifier
        }
    } else {
        Token::Identifier
    }
}

} // verus!
