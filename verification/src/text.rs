//! Trusted bridge to the two std string operations the engine needs: Unicode
//! case folding and single-character append. Everything else the engine does
//! with text is verified code over `Seq<char>`.

use vstd::prelude::*;

verus! {

/// The character sequence that std's `str::to_lowercase` returns for a given
/// character sequence. Case folding is a function of the characters alone,
/// so it only gets a name here; contracts speak of that name and nothing is
/// assumed about its value on any particular input.
pub uninterp spec fn lower_of(s: Seq<char>) -> Seq<char>;

/// Relies on `str::to_lowercase`: the result depends on the characters of the
/// input alone, and an empty string stays empty.
#[verifier::external_body]
pub(crate) fn lowercase(s: &str) -> (r: String)
    ensures
        r@ == lower_of(s@),
        s@.len() == 0 ==> r@.len() == 0,
{
    s.to_lowercase()
}

/// Relies on `String::push`: appends exactly the given character.
#[verifier::external_body]
pub(crate) fn push_char(s: &mut String, c: char)
    ensures
        final(s)@ == old(s)@.push(c),
{
    s.push(c);
}

} // verus!
