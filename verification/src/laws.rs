//! What holds of every run of the scanner.

use crate::boundary::lemma_between_boundaries;
use crate::bounds::{
    lemma_blank_end, lemma_label_end, lemma_lexeme, lemma_regex, lemma_template, lemma_wide_name,
    lemma_word,
};
use crate::bytes::{blank, byte_at, label_byte, name_start};
use crate::grammar::{blank_end, char_at, has_newline, label_end};
use crate::outside::alphanumeric;
use crate::state::State;
use crate::token::{Asi, Token};
use crate::words::{lemma_initials, lemma_word_kinds, reserved, word_token};
use vstd::prelude::*;
use vstd::utf8::*;

verus! {

/// Reading a token leaves the scanner between two tokens again: the
/// positions it holds stay in order, inside the source, and on the
/// boundaries of code points.
pub proof fn law_step_keeps_well_formed(s: State)
    requires
        s.well_formed(),
    ensures
        s.step().well_formed(),
        s.index <= s.step().token_start,
{
    let start = s.next_start();
    lemma_blank_end(s.source, s.index);
    lemma_lexeme(s.source, start, s.token, alphanumeric(char_at(s.source, start)));
}

/// However many tokens are read, the scanner stays well formed and never
/// moves back.
pub proof fn law_steps_keep_well_formed(s: State, n: nat)
    requires
        s.well_formed(),
    ensures
        s.steps(n).well_formed(),
        s.steps(n).source == s.source,
        s.index <= s.steps(n).index,
    decreases n,
{
    if n > 0 {
        law_steps_keep_well_formed(s, (n - 1) as nat);
        law_step_keeps_well_formed(s.steps((n - 1) as nat));
    }
}

/// The three scans that the parser asks for keep the scanner well formed
/// too.
pub proof fn law_parser_steps_keep_well_formed(s: State)
    requires
        s.well_formed(),
    ensures
        s.accessor_step().well_formed(),
        s.template_step().well_formed(),
        s.regex_step().well_formed(),
{
    let start = s.next_start();
    lemma_blank_end(s.source, s.index);
    if byte_at(s.source, start) >= 0x80 {
        lemma_wide_name(s.source, start, alphanumeric(char_at(s.source, start)));
    } else {
        lemma_label_end(s.source, start);
    }
    lemma_template(s.source, s.index);
    lemma_regex(s.source, s.index, false);
}

/// The text of the current token and that of the member name read last
/// are UTF-8 of their own.
pub proof fn law_text_is_utf8(s: State)
    requires
        s.well_formed(),
    ensures
        valid_utf8(s.text()),
        valid_utf8(s.accessor_text()),
{
    lemma_between_boundaries(s.source, s.token_start, s.index);
    lemma_between_boundaries(s.source, s.accessor_start, s.index);
}

/// Every token takes at least one byte, but for the end of the program,
/// which takes none and stands at the zero byte that ends the source.
pub proof fn law_progress(s: State)
    requires
        s.well_formed(),
    ensures
        s.step().token != Token::EndOfProgram ==> s.step().token_start < s.step().index,
        s.step().token == Token::EndOfProgram ==> s.step().token_start == s.step().index
            && byte_at(s.source, s.step().index) == 0,
{
    let start = s.next_start();
    lemma_blank_end(s.source, s.index);
    lemma_lexeme(s.source, start, s.token, alphanumeric(char_at(s.source, start)));
}

/// Once the end of the program is read, reading on changes nothing.
pub proof fn law_end_is_fixed(s: State, n: nat)
    requires
        s.well_formed(),
        s.step().token == Token::EndOfProgram,
    ensures
        s.step().steps(n) == s.step(),
    decreases n,
{
    if n > 0 {
        law_end_is_fixed(s, (n - 1) as nat);
        let end = s.step();
        law_progress(s);
        law_step_keeps_well_formed(s);
        lemma_lexeme(end.source, end.index, end.token, alphanumeric(char_at(end.source, end.index)));
        assert(!has_newline(end.source, end.index, end.index));
        assert(end.step() =~= end);
    }
}

/// Only blank bytes stand between two tokens, and no token begins with one.
pub proof fn law_gap_is_blank(s: State)
    requires
        s.well_formed(),
    ensures
        s.gap().len() == s.step().token_start - s.index,
        forall|k: int| 0 <= k < s.gap().len() ==> blank(#[trigger] s.gap()[k]),
        !blank(byte_at(s.source, s.step().token_start)),
{
    lemma_blank_end(s.source, s.index);
    lemma_gap(s.source, s.index);
}

proof fn lemma_gap(src: Seq<u8>, i: int)
    requires
        0 <= i <= src.len(),
    ensures
        i <= blank_end(src, i) <= src.len(),
        forall|k: int| i <= k < blank_end(src, i) ==> blank(#[trigger] src[k]),
        !blank(byte_at(src, blank_end(src, i))),
    decreases src.len() - i,
{
    if blank(byte_at(src, i)) {
        lemma_gap(src, i + 1);
    }
}

/// The bytes passed over while `n` tokens are read: the gap before each
/// token and the text of the token, in turn.
pub open spec fn scanned(s: State, n: nat) -> Seq<u8>
    decreases n,
{
    if n == 0 {
        Seq::empty()
    } else {
        let before = s.steps((n - 1) as nat);
        scanned(s, (n - 1) as nat) + before.gap() + before.step().text()
    }
}

/// The texts of the next `n` tokens, one after the other.
pub open spec fn texts(s: State, n: nat) -> Seq<u8>
    decreases n,
{
    if n == 0 {
        Seq::empty()
    } else {
        texts(s, (n - 1) as nat) + s.steps((n - 1) as nat).step().text()
    }
}

/// The length of the gaps before the next `n` tokens, all together.
pub open spec fn gaps_len(s: State, n: nat) -> int
    decreases n,
{
    if n == 0 {
        0
    } else {
        gaps_len(s, (n - 1) as nat) + s.steps((n - 1) as nat).gap().len()
    }
}

/// The gaps and the texts of the tokens, in turn, are the source from
/// where the scanner stood to where it stands: no byte is read twice and
/// none is left out.
pub proof fn law_source_is_gaps_and_texts(s: State, n: nat)
    requires
        s.well_formed(),
    ensures
        scanned(s, n) == s.source.subrange(s.index, s.steps(n).index),
    decreases n,
{
    law_steps_keep_well_formed(s, n);
    if n == 0 {
        assert(scanned(s, n) =~= s.source.subrange(s.index, s.steps(n).index));
    } else {
        let before = s.steps((n - 1) as nat);
        law_source_is_gaps_and_texts(s, (n - 1) as nat);
        law_steps_keep_well_formed(s, (n - 1) as nat);
        law_step_keeps_well_formed(before);
        assert(scanned(s, n) =~= s.source.subrange(s.index, s.steps(n).index));
    }
}

/// The lengths of the tokens and of the gaps between them add up to the
/// distance the scanner has moved.
pub proof fn law_lengths_add_up(s: State, n: nat)
    requires
        s.well_formed(),
    ensures
        texts(s, n).len() + gaps_len(s, n) == s.steps(n).index - s.index,
    decreases n,
{
    law_steps_keep_well_formed(s, n);
    if n > 0 {
        let before = s.steps((n - 1) as nat);
        law_lengths_add_up(s, (n - 1) as nat);
        law_steps_keep_well_formed(s, (n - 1) as nat);
        law_step_keeps_well_formed(before);
    }
}

/// Read from its beginning to the end of the program, a source without a
/// zero byte is as long as its tokens and the gaps between them together.
pub proof fn law_lengths_add_up_to_source(source: Seq<u8>, n: nat)
    requires
        valid_utf8(source),
        forall|k: int| 0 <= k < source.len() ==> source[k] != 0,
        n > 0,
        State::initial(source).steps(n).token == Token::EndOfProgram,
    ensures
        texts(State::initial(source), n).len() + gaps_len(State::initial(source), n)
            == source.len(),
{
    let s = State::initial(source);
    let end = s.steps(n);
    law_lengths_add_up(s, n);
    law_steps_keep_well_formed(s, n);
    law_steps_keep_well_formed(s, (n - 1) as nat);
    law_progress(s.steps((n - 1) as nat));
    assert(end == s.steps((n - 1) as nat).step());
    assert(byte_at(source, end.index) == 0);
    if end.index < source.len() {
        assert(source[end.index] != 0);
    }
}

/// `short` is `long` with some of its blank bytes left out.
pub open spec fn blanks_dropped(long: Seq<u8>, short: Seq<u8>) -> bool
    decreases long.len(),
{
    if long.len() == 0 {
        short.len() == 0
    } else {
        ||| (short.len() > 0 && long.last() == short.last() && blanks_dropped(
            long.drop_last(),
            short.drop_last(),
        ))
        ||| (blank(long.last()) && blanks_dropped(long.drop_last(), short))
    }
}

proof fn lemma_drop_blanks(long: Seq<u8>, short: Seq<u8>, gap: Seq<u8>)
    requires
        blanks_dropped(long, short),
        forall|k: int| 0 <= k < gap.len() ==> blank(#[trigger] gap[k]),
    ensures
        blanks_dropped(long + gap, short),
    decreases gap.len(),
{
    if gap.len() == 0 {
        assert(long + gap =~= long);
    } else {
        lemma_drop_blanks(long, short, gap.drop_last());
        assert((long + gap).drop_last() =~= long + gap.drop_last());
    }
}

proof fn lemma_keep_text(long: Seq<u8>, short: Seq<u8>, text: Seq<u8>)
    requires
        blanks_dropped(long, short),
    ensures
        blanks_dropped(long + text, short + text),
    decreases text.len(),
{
    if text.len() == 0 {
        assert(long + text =~= long);
        assert(short + text =~= short);
    } else {
        lemma_keep_text(long, short, text.drop_last());
        assert((long + text).drop_last() =~= long + text.drop_last());
        assert((short + text).drop_last() =~= short + text.drop_last());
    }
}

/// The texts of the tokens, one after the other, are the source that was
/// passed over with nothing but blank bytes left out.
pub proof fn law_texts_are_source_without_blanks(s: State, n: nat)
    requires
        s.well_formed(),
    ensures
        blanks_dropped(s.source.subrange(s.index, s.steps(n).index), texts(s, n)),
    decreases n,
{
    law_source_is_gaps_and_texts(s, n);
    lemma_texts_from_scanned(s, n);
}

proof fn lemma_texts_from_scanned(s: State, n: nat)
    requires
        s.well_formed(),
    ensures
        blanks_dropped(scanned(s, n), texts(s, n)),
    decreases n,
{
    if n > 0 {
        let before = s.steps((n - 1) as nat);
        lemma_texts_from_scanned(s, (n - 1) as nat);
        law_steps_keep_well_formed(s, (n - 1) as nat);
        law_gap_is_blank(before);
        lemma_drop_blanks(scanned(s, (n - 1) as nat), texts(s, (n - 1) as nat), before.gap());
        lemma_keep_text(
            scanned(s, (n - 1) as nat) + before.gap(),
            texts(s, (n - 1) as nat),
            before.step().text(),
        );
    }
}

/// A token whose text spells a reserved word has the kind set aside for
/// that word, and is no identifier, unless it follows a `.`: there it names
/// a member.
pub proof fn law_reserved_word_has_its_kind(s: State)
    requires
        s.well_formed(),
        reserved(s.step().text()),
    ensures
        s.token != Token::Dot ==> s.step().token == word_token(s.step().text()) && s.step().token
            != Token::Identifier,
        s.token == Token::Dot ==> s.step().token == Token::Identifier,
{
    let start = s.next_start();
    let text = s.step().text();
    lemma_blank_end(s.source, s.index);
    lemma_lexeme(s.source, start, s.token, alphanumeric(char_at(s.source, start)));
    lemma_initials(text);
    lemma_word_kinds(text);
    assert(text[0] == byte_at(s.source, start));
    assert(name_start(byte_at(s.source, start)));
    lemma_word(s.source, start);
}

proof fn lemma_label(src: Seq<u8>, i: int)
    ensures
        forall|k: int| i <= k < label_end(src, i) ==> label_byte(#[trigger] byte_at(src, k)),
        !label_byte(byte_at(src, label_end(src, i))),
    decreases src.len() - i,
{
    if label_byte(byte_at(src, i)) {
        lemma_label(src, i + 1);
    }
}

/// A name is read whole: a token that begins with a byte that may begin a
/// name is made of label bytes, and no label byte follows it. So a reserved
/// word is found only where it is not part of a longer name.
pub proof fn law_name_is_a_whole_label(s: State)
    requires
        s.well_formed(),
        name_start(byte_at(s.source, s.step().token_start)),
    ensures
        s.step().index == label_end(s.source, s.step().token_start),
        forall|k: int|
            s.step().token_start <= k < s.step().index ==> label_byte(
                #[trigger] byte_at(s.source, k),
            ),
        !label_byte(byte_at(s.source, s.step().index)),
{
    lemma_label(s.source, s.next_start());
}

/// The rule of semicolon insertion at a token: explicit at `;`; implicit
/// at `)`, at `}`, at the end of the program and after a line feed; none
/// otherwise.
pub proof fn law_semicolon_insertion(s: State)
    ensures
        s.step().asi == Asi::ExplicitSemicolon <==> s.step().token == Token::Semicolon,
        s.step().asi == Asi::ImplicitSemicolon <==> s.step().token != Token::Semicolon && (
        has_newline(s.source, s.index, s.step().token_start) || s.step().token == Token::ParenClose
            || s.step().token == Token::BraceClose || s.step().token == Token::EndOfProgram),
        s.step().asi == Asi::NoSemicolon <==> s.step().token != Token::Semicolon && s.step().token
            != Token::ParenClose && s.step().token != Token::BraceClose && s.step().token
            != Token::EndOfProgram && !has_newline(s.source, s.index, s.step().token_start),
{
}

} // verus!
