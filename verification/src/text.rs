//! String functions of the standard library that the map and the
//! certificate settings are read with.
//!
//! Nothing in this file is proved. What each function returns depends on its
//! argument alone and is given a name; the contracts say no more of it.

use vstd::prelude::*;

verus! {

/// What `str::trim` leaves of a text: the text without the white space at
/// its start and at its end.
pub uninterp spec fn trimmed(text: Seq<char>) -> Seq<char>;

/// The lines that `str::lines` finds in a text, without their line endings.
pub uninterp spec fn lines_of(text: Seq<char>) -> Seq<Seq<char>>;

/// The pieces that `str::split` finds in a text between its commas.
pub uninterp spec fn comma_separated(text: Seq<char>) -> Seq<Seq<char>>;

/// `str::trim`: the part of `text` between its leading and its trailing
/// white space.
#[verifier::external_body]
pub(crate) fn str_trim(text: &str) -> (inner: &str)
    ensures
        inner@ == trimmed(text@),
{
    text.trim()
}

/// `str::lines`: the lines of `text`, in order.
#[verifier::external_body]
pub(crate) fn str_lines(text: &str) -> (lines: Vec<&str>)
    ensures
        lines@.len() == lines_of(text@).len(),
        forall|i: int| 0 <= i < lines@.len() ==> (#[trigger] lines@[i])@ == lines_of(text@)[i],
{
    text.lines().collect()
}

/// `str::split` with a comma as the separator: the pieces of `text`, in
/// order.
#[verifier::external_body]
pub(crate) fn str_split_commas(text: &str) -> (pieces: Vec<&str>)
    ensures
        pieces@.len() == comma_separated(text@).len(),
        forall|i: int|
            0 <= i < pieces@.len() ==> (#[trigger] pieces@[i])@ == comma_separated(text@)[i],
{
    text.split(',').collect()
}

} // verus!
