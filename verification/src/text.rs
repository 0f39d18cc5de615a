//! Small helpers on strings.

use vstd::prelude::*;

verus! {

/// What a value of `Option<String>` holds, as a sequence of characters.
pub open spec fn text_of(s: Option<String>) -> Option<Seq<char>> {
    match s {
        Some(t) => Some(t@),
        None => None,
    }
}

/// Whether two strings hold the same characters.
pub fn same_text(a: &str, b: &str) -> (same: bool)
    ensures
        same == (a@ == b@),
{
    let left: String = a.to_owned();
    let right: String = b.to_owned();
    left == right
}

/// Whether `field` is present and holds exactly the characters of `word`.
pub fn holds(field: &Option<String>, word: &str) -> (yes: bool)
    ensures
        yes == (text_of(*field) == Some(word@)),
{
    match field {
        Some(s) => same_text(s.as_str(), word),
        None => false,
    }
}

} // verus!
