//! What the scanner takes from other crates and from `std` without proof.

use vstd::prelude::*;

verus! {

/// `toolshed::Arena`, of which nothing is claimed: a scanner only hands it
/// the text to keep.
#[verifier::external_type_specification]
#[verifier::external_body]
pub struct ExArena(toolshed::Arena);

/// Calls `toolshed::Arena::alloc_nul_term_str`, which copies the text onto
/// a page of the arena, and takes the copy as a string slice. The contract
/// claims that the copy holds the characters of `source`, and nothing else
/// of the arena.
#[verifier::external_body]
pub(crate) fn copy_to_arena<'arena>(arena: &'arena toolshed::Arena, source: &str) -> (copy:
    &'arena str)
    ensures
        copy@ == source@,
{
    arena.alloc_nul_term_str(source).into()
}

/// What `char::is_alphanumeric` of `std` answers for a code point.
pub uninterp spec fn alphanumeric(c: char) -> bool;

/// Calls `char::is_alphanumeric`. The contract only gives the answer its
/// name: which code points are letters or digits is left to `std`.
#[verifier::external_body]
pub(crate) fn is_alphanumeric(c: char) -> (r: bool)
    ensures
        r == alphanumeric(c),
{
    c.is_alphanumeric()
}

} // verus!
