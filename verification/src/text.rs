//! Cutting text into pieces: the commands of a batch, the words of a line.

use vstd::prelude::*;
use vstd::string::{StrSliceExecFns, StringExecFns};

use crate::tokens::texts;

verus! {

/// Where a text is cut.
#[derive(Debug, PartialEq, Eq, Structural, Clone, Copy)]
pub enum Cut {
    /// At every line break and every semicolon.
    Breaks,
    /// At every line break.
    Lines,
    /// At every semicolon.
    Semicolons,
    /// At every whitespace character.
    Spaces,
}

/// Whether a character is whitespace: the characters of the Unicode property
/// `White_Space`.
pub open spec fn is_space(c: char) -> bool {
    let n = c as u32;
    ||| 0x09 <= n <= 0x0D
    ||| n == 0x20
    ||| n == 0x85
    ||| n == 0xA0
    ||| n == 0x1680
    ||| 0x2000 <= n <= 0x200A
    ||| n == 0x2028
    ||| n == 0x2029
    ||| n == 0x202F
    ||| n == 0x205F
    ||| n == 0x3000
}

/// Whether a character ends a command of a batch.
pub open spec fn is_break(c: char) -> bool {
    c == '\n' || c == ';'
}

/// Whether a text is cut at a character.
pub open spec fn cuts(cut: Cut, c: char) -> bool {
    match cut {
        Cut::Breaks => is_break(c),
        Cut::Lines => c == '\n',
        Cut::Semicolons => c == ';',
        Cut::Spaces => is_space(c),
    }
}

/// The pieces between the cuts of a text, empty ones included: one more than
/// there are cuts.
pub open spec fn pieces(s: Seq<char>, cut: Cut) -> Seq<Seq<char>>
    decreases s.len(),
{
    if s.len() == 0 {
        seq![Seq::<char>::empty()]
    } else {
        let before = pieces(s.drop_last(), cut);
        if cuts(cut, s.last()) {
            before.push(Seq::<char>::empty())
        } else {
            before.drop_last().push(before.last().push(s.last()))
        }
    }
}

/// A text without the whitespace it begins with.
pub open spec fn trimmed_start(s: Seq<char>) -> Seq<char>
    decreases s.len(),
{
    if s.len() > 0 && is_space(s[0]) {
        trimmed_start(s.drop_first())
    } else {
        s
    }
}

/// A text without the whitespace it ends with.
pub open spec fn trimmed_end(s: Seq<char>) -> Seq<char>
    decreases s.len(),
{
    if s.len() > 0 && is_space(s.last()) {
        trimmed_end(s.drop_last())
    } else {
        s
    }
}

/// A text without the whitespace around it.
pub open spec fn trimmed(s: Seq<char>) -> Seq<char> {
    trimmed_end(trimmed_start(s))
}

/// The commands of a batch: the pieces between line breaks and semicolons,
/// each without the whitespace around it. Cutting at line breaks first and at
/// semicolons within each trimmed line gives the same commands in the same
/// order: see `fragments_go_line_by_line`.
pub open spec fn batch_fragments(text: Seq<char>) -> Seq<Seq<char>> {
    pieces(text, Cut::Breaks).map_values(|p: Seq<char>| trimmed(p))
}

/// The commands of one line: the pieces between the semicolons of the line
/// without the whitespace around it, each without the whitespace around it.
pub open spec fn line_fragments(line: Seq<char>) -> Seq<Seq<char>> {
    pieces(trimmed(line), Cut::Semicolons).map_values(|p: Seq<char>| trimmed(p))
}

/// The commands of a list of lines: those of the first line, then those of
/// the second, and so on.
pub open spec fn fragments_by_line(lines: Seq<Seq<char>>) -> Seq<Seq<char>>
    decreases lines.len(),
{
    if lines.len() == 0 {
        Seq::<Seq<char>>::empty()
    } else {
        fragments_by_line(lines.drop_last()) + line_fragments(lines.last())
    }
}

/// The words of a line: the pieces between whitespace that are not empty.
pub open spec fn line_words(line: Seq<char>) -> Seq<Seq<char>> {
    pieces(line, Cut::Spaces).filter(|p: Seq<char>| p.len() > 0)
}

/// Whether a character is whitespace.
pub fn is_whitespace(c: char) -> (r: bool)
    ensures
        r == is_space(c),
{
    let n: u32 = c as u32;
    (0x09 <= n && n <= 0x0D) || n == 0x20 || n == 0x85 || n == 0xA0 || n == 0x1680 || (0x2000 <= n
        && n <= 0x200A) || n == 0x2028 || n == 0x2029 || n == 0x202F || n == 0x205F || n == 0x3000
}

/// Whether a text is cut at a character.
pub fn is_cut(cut: Cut, c: char) -> (r: bool)
    ensures
        r == cuts(cut, c),
{
    match cut {
        Cut::Breaks => c == '\n' || c == ';',
        Cut::Lines => c == '\n',
        Cut::Semicolons => c == ';',
        Cut::Spaces => is_whitespace(c),
    }
}

/// Cuts a text into its pieces.
pub fn split(s: &str, cut: Cut) -> (r: Vec<String>)
    ensures
        texts(r@) == pieces(s@, cut),
{
    let n = s.unicode_len();
    let mut done: Vec<String> = Vec::new();
    let mut start: usize = 0;
    let mut i: usize = 0;
    assert(s@.take(0) =~= Seq::<char>::empty());
    assert(texts(done@).push(s@.subrange(0, 0)) =~= pieces(s@.take(0), cut));
    while i < n
        invariant
            n == s@.len(),
            start <= i <= n,
            pieces(s@.take(i as int), cut) == texts(done@).push(s@.subrange(start as int, i as int)),
        decreases n - i,
    {
        let c = s.get_char(i);
        let ghost before = done@;
        let ghost open = s@.subrange(start as int, i as int);
        assert(s@.take(i + 1).drop_last() =~= s@.take(i as int));
        assert(s@.take(i + 1).last() == c);
        assert(texts(before).push(open).drop_last() =~= texts(before));
        if is_cut(cut, c) {
            done.push(String::from_str(s.substring_char(start, i)));
            start = i + 1;
            assert(texts(done@) =~= texts(before).push(open));
            assert(s@.subrange(start as int, i + 1) =~= Seq::<char>::empty());
        } else {
            assert(s@.subrange(start as int, i + 1) =~= open.push(c));
        }
        i += 1;
    }
    assert(s@.take(n as int) =~= s@);
    let ghost before = done@;
    done.push(String::from_str(s.substring_char(start, n)));
    assert(texts(done@) =~= texts(before).push(s@.subrange(start as int, n as int)));
    done
}

/// A text without the whitespace around it.
pub fn trim(s: &str) -> (r: String)
    ensures
        r@ == trimmed(s@),
{
    let n = s.unicode_len();
    let mut a: usize = 0;
    assert(s@.subrange(0, n as int) =~= s@);
    while a < n && is_whitespace(s.get_char(a))
        invariant
            n == s@.len(),
            a <= n,
            trimmed_start(s@) == trimmed_start(s@.subrange(a as int, n as int)),
        decreases n - a,
    {
        assert(s@.subrange(a as int, n as int).drop_first() =~= s@.subrange(a + 1, n as int));
        a += 1;
    }
    assert(trimmed_start(s@) == s@.subrange(a as int, n as int));
    let mut b: usize = n;
    while a < b && is_whitespace(s.get_char(b - 1))
        invariant
            n == s@.len(),
            a <= b <= n,
            trimmed(s@) == trimmed_end(s@.subrange(a as int, b as int)),
        decreases b - a,
    {
        assert(s@.subrange(a as int, b as int).drop_last() =~= s@.subrange(a as int, b - 1));
        b -= 1;
    }
    String::from_str(s.substring_char(a, b))
}

/// The commands of a batch, in order.
pub fn fragments(text: &str) -> (r: Vec<String>)
    ensures
        texts(r@) == batch_fragments(text@),
{
    let raw = split(text, Cut::Breaks);
    let mut out: Vec<String> = Vec::new();
    let mut i: usize = 0;
    while i < raw.len()
        invariant
            i <= raw.len(),
            texts(raw@) == pieces(text@, Cut::Breaks),
            out.len() == i,
            forall|k: int| 0 <= k < i ==> (#[trigger] out[k])@ == trimmed(raw[k]@),
        decreases raw.len() - i,
    {
        out.push(trim(raw[i].as_str()));
        i += 1;
    }
    assert forall|k: int| 0 <= k < out.len() implies texts(out@)[k] == batch_fragments(text@)[k] by {
        assert(texts(raw@)[k] == raw[k]@);
    }
    assert(texts(out@) =~= batch_fragments(text@));
    out
}

/// The words of a line, in order.
pub fn words(line: &str) -> (r: Vec<String>)
    ensures
        texts(r@) == line_words(line@),
{
    let raw = split(line, Cut::Spaces);
    let ghost keep = |p: Seq<char>| p.len() > 0;
    let mut out: Vec<String> = Vec::new();
    let mut i: usize = 0;
    assert(texts(raw@).take(0).filter(keep) =~= Seq::<Seq<char>>::empty()) by {
        reveal(Seq::filter);
    }
    assert(texts(out@) =~= Seq::<Seq<char>>::empty());
    while i < raw.len()
        invariant
            i <= raw.len(),
            keep == (|p: Seq<char>| p.len() > 0),
            texts(out@) == texts(raw@).take(i as int).filter(keep),
        decreases raw.len() - i,
    {
        let ghost before = out@;
        let ghost seen = texts(raw@).take(i as int);
        assert(texts(raw@).take(i + 1).drop_last() =~= seen);
        assert(texts(raw@).take(i + 1).last() == raw[i as int]@);
        assert(texts(raw@).take(i + 1).filter(keep) == if keep(raw[i as int]@) {
            seen.filter(keep).push(raw[i as int]@)
        } else {
            seen.filter(keep)
        }) by {
            reveal(Seq::filter);
        }
        if raw[i].as_str().unicode_len() > 0 {
            out.push(raw[i].clone());
            assert(texts(out@) =~= texts(before).push(raw[i as int]@));
        }
        i += 1;
    }
    assert(texts(raw@).take(raw.len() as int) =~= texts(raw@));
    out
}

/// What trimming at the start leaves is the end of the text; what it removes
/// is whitespace, and what is left does not begin with whitespace.
pub proof fn trimmed_start_is_a_tail(s: Seq<char>)
    ensures
        ({
            let t = trimmed_start(s);
            let a = s.len() - t.len();
            &&& 0 <= a <= s.len()
            &&& t == s.subrange(a, s.len() as int)
            &&& forall|k: int| 0 <= k < a ==> is_space(#[trigger] s[k])
            &&& t.len() > 0 ==> !is_space(t[0])
        }),
    decreases s.len(),
{
    if s.len() > 0 && is_space(s[0]) {
        let rest = s.drop_first();
        trimmed_start_is_a_tail(rest);
        let t = trimmed_start(rest);
        let a = rest.len() - t.len();
        assert(rest.subrange(a, rest.len() as int) =~= s.subrange(a + 1, s.len() as int));
        assert forall|k: int| 0 <= k < a + 1 implies is_space(#[trigger] s[k]) by {
            if k > 0 {
                assert(s[k] == rest[k - 1]);
            }
        }
    } else {
        assert(s.subrange(0, s.len() as int) =~= s);
    }
}

/// What trimming at the end leaves is the start of the text; what it removes
/// is whitespace, and what is left does not end with whitespace.
pub proof fn trimmed_end_is_a_head(s: Seq<char>)
    ensures
        ({
            let t = trimmed_end(s);
            &&& t.len() <= s.len()
            &&& t == s.subrange(0, t.len() as int)
            &&& forall|k: int| t.len() <= k < s.len() ==> is_space(#[trigger] s[k])
            &&& t.len() > 0 ==> !is_space(t.last())
        }),
    decreases s.len(),
{
    if s.len() > 0 && is_space(s.last()) {
        let rest = s.drop_last();
        trimmed_end_is_a_head(rest);
        let t = trimmed_end(rest);
        assert(rest.subrange(0, t.len() as int) =~= s.subrange(0, t.len() as int));
        assert forall|k: int| t.len() <= k < s.len() implies is_space(#[trigger] s[k]) by {
            if k < s.len() - 1 {
                assert(s[k] == rest[k]);
            }
        }
    } else {
        assert(s.subrange(0, s.len() as int) =~= s);
    }
}

/// Trimming removes the whitespace around a text and nothing else: what is
/// left is a stretch of the text, all that stands before and after it is
/// whitespace, and it neither begins nor ends with whitespace.
pub proof fn trimmed_is_the_core(s: Seq<char>)
    ensures
        exists|a: int, b: int|
            {
                &&& 0 <= a <= b <= s.len()
                &&& #[trigger] s.subrange(a, b) == trimmed(s)
                &&& forall|k: int| 0 <= k < a || b <= k < s.len() ==> is_space(#[trigger] s[k])
            },
        trimmed(s).len() > 0 ==> !is_space(trimmed(s)[0]) && !is_space(trimmed(s).last()),
{
    trimmed_start_is_a_tail(s);
    let t = trimmed_start(s);
    trimmed_end_is_a_head(t);
    let u = trimmed_end(t);
    let a = s.len() - t.len();
    let b = a + u.len();
    assert(s.subrange(a, b) =~= u);
    assert forall|k: int| 0 <= k < a || b <= k < s.len() implies is_space(#[trigger] s[k]) by {
        if k >= b {
            assert(s[k] == t[k - a]);
        }
    }
    if u.len() > 0 {
        assert(u[0] == t[0]);
    }
}

/// A text has at least one piece, and no piece holds a character at which
/// the text is cut.
pub proof fn pieces_hold_no_cut(s: Seq<char>, cut: Cut)
    ensures
        pieces(s, cut).len() >= 1,
        forall|i: int, k: int|
            0 <= i < pieces(s, cut).len() && 0 <= k < pieces(s, cut)[i].len() ==> !cuts(
                cut,
                #[trigger] pieces(s, cut)[i][k],
            ),
    decreases s.len(),
{
    if s.len() > 0 {
        pieces_hold_no_cut(s.drop_last(), cut);
    }
}

/// A text without cuts is its own single piece.
pub proof fn uncut_text_is_one_piece(s: Seq<char>, cut: Cut)
    requires
        forall|k: int| 0 <= k < s.len() ==> !cuts(cut, #[trigger] s[k]),
    ensures
        pieces(s, cut) == seq![s],
    decreases s.len(),
{
    if s.len() > 0 {
        uncut_text_is_one_piece(s.drop_last(), cut);
        assert(s.drop_last().push(s.last()) =~= s);
        assert(seq![s.drop_last()].drop_last().push(s) =~= seq![s]);
    } else {
        assert(Seq::<char>::empty() =~= s);
    }
}

/// Every command of a batch is bare: it holds no line break and no
/// semicolon, and it neither begins nor ends with whitespace.
pub proof fn fragments_are_bare(text: Seq<char>, i: int)
    requires
        0 <= i < batch_fragments(text).len(),
    ensures
        forall|k: int|
            0 <= k < batch_fragments(text)[i].len() ==> !is_break(
                #[trigger] batch_fragments(text)[i][k],
            ),
        batch_fragments(text)[i].len() > 0 ==> !is_space(batch_fragments(text)[i][0]) && !is_space(
            batch_fragments(text)[i].last(),
        ),
{
    let piece = pieces(text, Cut::Breaks)[i];
    pieces_hold_no_cut(text, Cut::Breaks);
    trimmed_is_the_core(piece);
    let (a, b) = choose|a: int, b: int|
        {
            &&& 0 <= a <= b <= piece.len()
            &&& #[trigger] piece.subrange(a, b) == trimmed(piece)
            &&& forall|k: int| 0 <= k < a || b <= k < piece.len() ==> is_space(#[trigger] piece[k])
        };
    assert forall|k: int| 0 <= k < batch_fragments(text)[i].len() implies !is_break(
        #[trigger] batch_fragments(text)[i][k],
    ) by {
        assert(trimmed(piece)[k] == piece[a + k]);
        assert(!cuts(Cut::Breaks, pieces(text, Cut::Breaks)[i][a + k]));
    }
}

/// Every word of a line is bare: it is not empty and holds no whitespace.
pub proof fn words_are_bare(line: Seq<char>, i: int)
    requires
        0 <= i < line_words(line).len(),
    ensures
        line_words(line)[i].len() > 0,
        forall|k: int| 0 <= k < line_words(line)[i].len() ==> !is_space(#[trigger] line_words(line)[i][k]),
{
    let keep = |p: Seq<char>| p.len() > 0;
    let all = pieces(line, Cut::Spaces);
    all.lemma_filter_pred(keep, i);
    pieces_hold_no_cut(line, Cut::Spaces);
    let word = line_words(line)[i];
    assert(all.filter(keep).contains(word));
    all.lemma_filter_contains_rev(keep, word);
}

/// The pieces between the semicolons of each line, line after line.
spec fn pieces_by_line(lines: Seq<Seq<char>>) -> Seq<Seq<char>>
    decreases lines.len(),
{
    if lines.len() == 0 {
        Seq::<Seq<char>>::empty()
    } else {
        pieces_by_line(lines.drop_last()) + pieces(lines.last(), Cut::Semicolons)
    }
}

/// Cutting at line breaks and semicolons at once gives the pieces that
/// cutting each line at its semicolons gives.
proof fn lemma_pieces_go_line_by_line(text: Seq<char>)
    ensures
        pieces(text, Cut::Breaks) == pieces_by_line(pieces(text, Cut::Lines)),
    decreases text.len(),
{
    let none = Seq::<char>::empty();
    if text.len() == 0 {
        let lines = pieces(text, Cut::Lines);
        assert(lines.drop_last() =~= Seq::<Seq<char>>::empty());
        assert(pieces_by_line(lines.drop_last()) =~= Seq::<Seq<char>>::empty());
        assert(pieces_by_line(lines) =~= pieces(text, Cut::Breaks));
    } else {
        let t = text.drop_last();
        let c = text.last();
        lemma_pieces_go_line_by_line(t);
        pieces_hold_no_cut(t, Cut::Lines);
        let before = pieces(t, Cut::Lines);
        let l = before.last();
        let earlier = before.drop_last();
        let p = pieces(l, Cut::Semicolons);
        pieces_hold_no_cut(l, Cut::Semicolons);
        let lines = pieces(text, Cut::Lines);
        if c == '\n' {
            assert(lines.drop_last() =~= before);
            assert(pieces(none, Cut::Semicolons) =~= seq![none]);
            assert(pieces_by_line(lines) =~= pieces_by_line(before).push(none));
        } else if c == ';' {
            assert(lines.drop_last() =~= earlier);
            assert(lines.last() == l.push(c));
            assert(l.push(c).drop_last() =~= l);
            assert(pieces(l.push(c), Cut::Semicolons) == p.push(none));
            assert(pieces_by_line(lines) =~= pieces_by_line(before).push(none));
        } else {
            assert(lines.drop_last() =~= earlier);
            assert(lines.last() == l.push(c));
            assert(l.push(c).drop_last() =~= l);
            assert(pieces(l.push(c), Cut::Semicolons) == p.drop_last().push(p.last().push(c)));
            let b = pieces_by_line(before);
            assert(b == pieces_by_line(earlier) + p);
            assert(b.last() == p.last());
            assert(b.drop_last() =~= pieces_by_line(earlier) + p.drop_last());
            assert(pieces_by_line(lines) =~= b.drop_last().push(b.last().push(c)));
        }
    }
}

/// A character that is no cut, put before a text, joins the first piece.
proof fn lemma_pieces_front(c: char, s: Seq<char>, cut: Cut)
    requires
        !cuts(cut, c),
    ensures
        pieces(s, cut).len() >= 1,
        pieces(seq![c] + s, cut) == pieces(s, cut).update(0, seq![c] + pieces(s, cut)[0]),
    decreases s.len(),
{
    let whole = seq![c] + s;
    pieces_hold_no_cut(s, cut);
    if s.len() == 0 {
        assert(whole.drop_last() =~= s);
        assert(pieces(whole, cut) =~= pieces(s, cut).update(0, seq![c] + pieces(s, cut)[0]));
    } else {
        let rest = s.drop_last();
        let d = s.last();
        lemma_pieces_front(c, rest, cut);
        assert(whole.drop_last() =~= seq![c] + rest);
        assert(whole.last() == d);
        let q = pieces(rest, cut);
        let first = seq![c] + q[0];
        if cuts(cut, d) {
            assert(pieces(whole, cut) =~= pieces(s, cut).update(0, seq![c] + pieces(s, cut)[0]));
        } else {
            if q.len() == 1 {
                assert(first.push(d) =~= seq![c] + q[0].push(d));
            }
            assert(pieces(whole, cut) =~= pieces(s, cut).update(0, seq![c] + pieces(s, cut)[0]));
        }
    }
}

/// Whitespace behind a text does not change what trimming leaves of it.
proof fn lemma_trimmed_push_space(x: Seq<char>, w: char)
    requires
        is_space(w),
    ensures
        trimmed(x.push(w)) == trimmed(x),
    decreases x.len(),
{
    let y = x.push(w);
    if x.len() == 0 {
        assert(y.drop_first() =~= x);
    } else if is_space(x[0]) {
        assert(y.drop_first() =~= x.drop_first().push(w));
        lemma_trimmed_push_space(x.drop_first(), w);
    } else {
        assert(y.drop_last() =~= x);
    }
}

/// Whitespace before a text does not change what trimming leaves of it.
proof fn lemma_trimmed_front_space(w: char, x: Seq<char>)
    requires
        is_space(w),
    ensures
        trimmed(seq![w] + x) == trimmed(x),
{
    assert((seq![w] + x).drop_first() =~= x);
}

/// Trimming a line at its start does not change its commands.
proof fn lemma_fragments_of_trimmed_start(l: Seq<char>)
    ensures
        pieces(trimmed_start(l), Cut::Semicolons).map_values(|p: Seq<char>| trimmed(p)) == pieces(
            l,
            Cut::Semicolons,
        ).map_values(|p: Seq<char>| trimmed(p)),
    decreases l.len(),
{
    if l.len() > 0 && is_space(l[0]) {
        let rest = l.drop_first();
        lemma_fragments_of_trimmed_start(rest);
        assert(seq![l[0]] + rest =~= l);
        lemma_pieces_front(l[0], rest, Cut::Semicolons);
        let q = pieces(rest, Cut::Semicolons);
        lemma_trimmed_front_space(l[0], q[0]);
        assert(pieces(l, Cut::Semicolons).map_values(|p: Seq<char>| trimmed(p)) =~= q.map_values(
            |p: Seq<char>| trimmed(p),
        ));
    }
}

/// Trimming a line at its end does not change its commands.
proof fn lemma_fragments_of_trimmed_end(l: Seq<char>)
    ensures
        pieces(trimmed_end(l), Cut::Semicolons).map_values(|p: Seq<char>| trimmed(p)) == pieces(
            l,
            Cut::Semicolons,
        ).map_values(|p: Seq<char>| trimmed(p)),
    decreases l.len(),
{
    if l.len() > 0 && is_space(l.last()) {
        let rest = l.drop_last();
        lemma_fragments_of_trimmed_end(rest);
        pieces_hold_no_cut(rest, Cut::Semicolons);
        let q = pieces(rest, Cut::Semicolons);
        lemma_trimmed_push_space(q.last(), l.last());
        assert(pieces(l, Cut::Semicolons).map_values(|p: Seq<char>| trimmed(p)) =~= q.map_values(
            |p: Seq<char>| trimmed(p),
        ));
    }
}

/// The commands of the lines are the trimmed pieces of the lines.
proof fn lemma_fragments_are_trimmed_pieces(lines: Seq<Seq<char>>)
    ensures
        fragments_by_line(lines) == pieces_by_line(lines).map_values(|p: Seq<char>| trimmed(p)),
    decreases lines.len(),
{
    if lines.len() == 0 {
        assert(fragments_by_line(lines) =~= pieces_by_line(lines).map_values(
            |p: Seq<char>| trimmed(p),
        ));
    } else {
        let l = lines.last();
        lemma_fragments_are_trimmed_pieces(lines.drop_last());
        lemma_fragments_of_trimmed_start(l);
        lemma_fragments_of_trimmed_end(trimmed_start(l));
        assert(line_fragments(l) == pieces(l, Cut::Semicolons).map_values(
            |p: Seq<char>| trimmed(p),
        ));
        assert(fragments_by_line(lines) =~= pieces_by_line(lines).map_values(
            |p: Seq<char>| trimmed(p),
        ));
    }
}

/// The commands of a batch are the commands of its lines, line after line:
/// cutting the text at its line breaks, trimming each line, cutting it at its
/// semicolons and trimming each piece gives the same commands in the same
/// order as cutting at line breaks and semicolons at once and trimming.
pub proof fn fragments_go_line_by_line(text: Seq<char>)
    ensures
        batch_fragments(text) == fragments_by_line(pieces(text, Cut::Lines)),
{
    lemma_pieces_go_line_by_line(text);
    lemma_fragments_are_trimmed_pieces(pieces(text, Cut::Lines));
}

} // verus!
