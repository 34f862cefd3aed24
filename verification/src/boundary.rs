//! Positions at which a UTF-8 buffer may be cut.

use crate::bytes::{byte_at, continuation};
use vstd::prelude::*;
use vstd::utf8::*;

verus! {

/// A position of `s` that does not fall inside the encoding of a code point:
/// the end of the buffer, or a byte that continues nothing.
pub open spec fn on_boundary(s: Seq<u8>, i: int) -> bool {
    0 <= i <= s.len() && !continuation(byte_at(s, i))
}

/// In valid UTF-8, [`on_boundary`] is the character boundary of `vstd`.
pub proof fn lemma_char_boundary(s: Seq<u8>, i: int)
    requires
        valid_utf8(s),
        0 <= i <= s.len(),
    ensures
        on_boundary(s, i) == is_char_boundary(s, i),
{
    if i == s.len() {
        is_char_boundary_start_end_of_seq(s);
    } else {
        is_char_boundary_iff_not_is_continuation_byte(s, i);
    }
}

proof fn lemma_step_over_ascii(s: Seq<u8>, i: int)
    requires
        valid_utf8(s),
        0 <= i < s.len(),
        is_char_boundary(s, i),
        s[i] < 0x80,
    ensures
        is_char_boundary(s, i + 1),
    decreases s.len(),
{
    reveal_with_fuel(is_char_boundary, 2);
    reveal_with_fuel(valid_utf8, 2);
    if i == 0 {
        assert(length_of_first_scalar(s) == 1);
        assert(is_char_boundary(pop_first_scalar(s), 0));
    } else {
        let width = length_of_first_scalar(s);
        let rest = pop_first_scalar(s);
        assert(is_char_boundary(rest, i - width));
        assert(0 <= i - width);
        assert(i - width < rest.len());
        assert(rest[i - width] == s[i]);
        lemma_step_over_ascii(rest, i - width);
        assert(is_char_boundary(rest, i + 1 - width));
    }
}

/// The position after an ASCII byte is a boundary.
pub proof fn lemma_after_ascii(s: Seq<u8>, i: int)
    requires
        valid_utf8(s),
        0 <= i < s.len(),
        s[i] < 0x80,
    ensures
        on_boundary(s, i + 1),
{
    lemma_char_boundary(s, i);
    lemma_step_over_ascii(s, i);
    lemma_char_boundary(s, i + 1);
}

/// A boundary of the buffer is a boundary of each prefix that reaches it.
pub proof fn lemma_prefix_boundary(s: Seq<u8>, a: int, b: int)
    requires
        valid_utf8(s),
        on_boundary(s, a),
        on_boundary(s, b),
        a <= b,
    ensures
        valid_utf8(s.subrange(0, b)),
        is_char_boundary(s.subrange(0, b), a),
{
    lemma_char_boundary(s, b);
    valid_utf8_split(s, b);
    let head = s.subrange(0, b);
    lemma_char_boundary(head, a);
}

/// The bytes between two boundaries are UTF-8 of their own.
pub proof fn lemma_between_boundaries(s: Seq<u8>, a: int, b: int)
    requires
        valid_utf8(s),
        on_boundary(s, a),
        on_boundary(s, b),
        a <= b,
    ensures
        valid_utf8(s.subrange(a, b)),
{
    lemma_prefix_boundary(s, a, b);
    let head = s.subrange(0, b);
    valid_utf8_split(head, a);
    assert(head.subrange(a, head.len() as int) =~= s.subrange(a, b));
}

} // verus!
