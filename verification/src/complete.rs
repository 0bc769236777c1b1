//! Completion of a query against a set of candidates.
//!
//! The candidates are kept and searched by a trie of the line editor's crate.
//! The trie is opaque here: what is said of it is the set of texts registered
//! in it, and which of them its search finds.

use promkit::grapheme::Graphemes;
use promkit::register::Register;
use promkit::suggest::Suggest;
use vstd::prelude::*;

use crate::tokens::texts;

verus! {

/// `promkit::suggest::Suggest`, a trie of suggestions: carried through, never
/// looked into.
#[verifier::external_type_specification]
#[verifier::external_body]
pub struct ExSuggest(Suggest);

/// The texts registered in a trie of suggestions.
pub uninterp spec fn suggestions(s: Suggest) -> Set<Seq<char>>;

/// Whether one text stands before another, or is the same: character by
/// character by code point, a text before its extensions.
pub open spec fn text_le(a: Seq<char>, b: Seq<char>) -> bool
    decreases a.len(),
{
    if a.len() == 0 {
        true
    } else if b.len() == 0 {
        false
    } else if a[0] != b[0] {
        (a[0] as u32) < (b[0] as u32)
    } else {
        text_le(a.drop_first(), b.drop_first())
    }
}

/// Whether a text is what completion makes of a query: where some candidate
/// begins with the query, the first of those candidates; where none does, the
/// query itself.
pub open spec fn completes_to(candidates: Set<Seq<char>>, query: Seq<char>, r: Seq<char>) -> bool {
    if exists|c: Seq<char>| candidates.contains(c) && query.is_prefix_of(c) {
        &&& candidates.contains(r)
        &&& query.is_prefix_of(r)
        &&& forall|c: Seq<char>| #[trigger]
            candidates.contains(c) && query.is_prefix_of(c) ==> text_le(r, c)
    } else {
        r == query
    }
}

/// `Suggest::default`: a trie in which nothing is registered.
#[verifier::external_body]
fn no_suggestions() -> (s: Suggest)
    ensures
        suggestions(s) == Set::<Seq<char>>::empty(),
{
    Suggest::default()
}

/// `Register::register_all` on a `Suggest`: every item is inserted as a key
/// of the trie, so the texts of the items join the registered ones.
#[verifier::external_body]
fn register_all(s: &mut Suggest, items: Vec<String>)
    ensures
        suggestions(*final(s)) == suggestions(*old(s)).union(texts(items@).to_set()),
{
    s.register_all(items)
}

/// `Suggest::search`: the search descends to the subtrie of the keys that
/// begin with the query and takes the first key of that subtrie, the
/// subtrie's own root before its children. So the result is a registered text
/// that begins with the query; it is the query itself where that is
/// registered; and there is none exactly when no registered text begins with
/// the query. The subtrie is walked in the order of the keys' bytes, which is
/// that of their code points: the result stands before every other registered
/// text that begins with the query.
#[verifier::external_body]
fn search(s: &Suggest, query: &str) -> (r: Option<String>)
    ensures
        r is Some ==> suggestions(*s).contains(r.unwrap()@) && query@.is_prefix_of(r.unwrap()@),
        r is None ==> forall|c: Seq<char>| #[trigger]
            suggestions(*s).contains(c) ==> !query@.is_prefix_of(c),
        suggestions(*s).contains(query@) ==> r is Some && r.unwrap()@ == query@,
        r is Some ==> forall|c: Seq<char>| #[trigger]
            suggestions(*s).contains(c) && query@.is_prefix_of(c) ==> text_le(r.unwrap()@, c),
{
    s.search(&Graphemes::from(query)).map(|g| g.to_string())
}

/// Completes `text` against the candidates `l`: the candidate that the prefix
/// search finds, or `text` unchanged where it finds none.
///
/// The result begins with `text`, and is `text` or a candidate. A text that is
/// itself a candidate is returned unchanged, and so is a text with which no
/// candidate begins; where some candidate begins with `text`, the result is
/// the first of those candidates in the order of their characters' code
/// points, a text before its extensions.
pub fn complete(l: Vec<String>, text: &str) -> (r: String)
    ensures
        completes_to(texts(l@).to_set(), text@, r@),
        text@.is_prefix_of(r@),
        r@ == text@ || texts(l@).contains(r@),
        texts(l@).contains(text@) ==> r@ == text@,
        (forall|c: Seq<char>| #[trigger] texts(l@).contains(c) ==> !text@.is_prefix_of(c)) ==> r@
            == text@,
        (exists|c: Seq<char>| texts(l@).contains(c) && text@.is_prefix_of(c)) ==> texts(
            l@,
        ).contains(r@),
        forall|c: Seq<char>| #[trigger]
            texts(l@).contains(c) && text@.is_prefix_of(c) ==> text_le(r@, c),
{
    let ghost candidates = texts(l@).to_set();
    let mut s = no_suggestions();
    register_all(&mut s, l);
    assert(suggestions(s) =~= candidates);
    assert(forall|c: Seq<char>| candidates.contains(c) <==> texts(l@).contains(c));
    match search(&s, text) {
        Some(found) => {
            assert forall|c: Seq<char>| #[trigger]
                texts(l@).contains(c) && text@.is_prefix_of(c) implies text_le(found@, c) by {
                assert(suggestions(s).contains(c));
            }
            found
        },
        None => {
            assert forall|c: Seq<char>| #[trigger] texts(l@).contains(c) implies !text@.is_prefix_of(
                c,
            ) by {
                assert(suggestions(s).contains(c));
            }
            String::from_str(text)
        },
    }
}

} // verus!
