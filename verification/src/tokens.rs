//! Token lists and the shell-style tokenizer.

use vstd::prelude::*;

verus! {

/// The texts of a list of strings.
pub open spec fn texts(v: Seq<String>) -> Seq<Seq<char>> {
    v.map_values(|s: String| s@)
}

/// The texts of an optional token list.
pub open spec fn optional_texts(r: Option<Vec<String>>) -> Option<Seq<Seq<char>>> {
    match r {
        Some(v) => Some(texts(v@)),
        None => None,
    }
}

/// The tokens that shell-style quoting rules split a line into, or `None`
/// where the quoting of the line is invalid.
pub uninterp spec fn shell_split(line: Seq<char>) -> Option<Seq<Seq<char>>>;

/// `shlex::split` reads nothing but the line: its result is the line's token
/// list under that name.
pub assume_specification[ shlex::split ](in_str: &str) -> (r: Option<Vec<String>>)
    ensures
        optional_texts(r) == shell_split(in_str@),
;

/// Whether two texts are the same.
pub fn same_text(a: &str, b: &str) -> (r: bool)
    ensures
        r == (a@ == b@),
{
    let x = String::from_str(a);
    let y = String::from_str(b);
    x == y
}

} // verus!
