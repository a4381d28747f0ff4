//! ASCII case-insensitive matching of property and component names.

use vstd::prelude::*;

verus! {

/// The lower-case form of an ASCII upper-case letter; every other character
/// stands for itself.
pub open spec fn ascii_fold(c: char) -> char {
    if 'A' <= c && c <= 'Z' {
        ((c as u32) + 32) as char
    } else {
        c
    }
}

/// Two names match when they have the same length and agree character by
/// character after folding ASCII letters to lower case.
pub open spec fn names_match(a: Seq<char>, b: Seq<char>) -> bool {
    &&& a.len() == b.len()
    &&& forall|i: int| 0 <= i < a.len() ==> ascii_fold(#[trigger] a[i]) == ascii_fold(b[i])
}

/// Whether `name` matches one of `names`.
pub open spec fn name_in(names: Seq<Seq<char>>, name: Seq<char>) -> bool {
    exists|i: int| 0 <= i < names.len() && names_match(#[trigger] names[i], name)
}

/// `str::eq_ignore_ascii_case` of the standard library: true exactly when
/// the two strings are equal once ASCII letters are folded to one case.
#[verifier::external_body]
pub(crate) fn eq_ignore_ascii_case(a: &str, b: &str) -> (r: bool)
    ensures
        r == names_match(a@, b@),
{
    a.eq_ignore_ascii_case(b)
}

/// The character sequences that a list of strings stands for.
pub open spec fn text_views(names: Seq<String>) -> Seq<Seq<char>> {
    names.map_values(|s: String| s@)
}

/// Whether `name` matches one of `names`, ignoring ASCII case.
pub fn matches_any(names: &Vec<String>, name: &str) -> (r: bool)
    ensures
        r == name_in(text_views(names@), name@),
{
    let mut i: usize = 0;
    while i < names.len()
        invariant
            i <= names.len(),
            forall|j: int| 0 <= j < i ==> !names_match(#[trigger] text_views(names@)[j], name@),
        decreases names.len() - i,
    {
        if eq_ignore_ascii_case(names[i].as_str(), name) {
            assert(names_match(text_views(names@)[i as int], name@));
            return true;
        }
        i += 1;
    }
    false
}

} // verus!
