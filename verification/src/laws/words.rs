//! Text: trimming and splitting.
use crate::text;
use vstd::prelude::*;

verus! {

pub open spec fn all_white(s: Seq<char>) -> bool {
    forall|i: int| 0 <= i < s.len() ==> text::is_white(#[trigger] s[i])
}

proof fn lemma_trim_front(s: Seq<char>) -> (k: int)
    ensures
        0 <= k <= s.len(),
        text::trim_front(s) == s.skip(k),
        all_white(s.take(k)),
        k < s.len() ==> !text::is_white(s[k]),
    decreases s.len(),
{
    if s.len() > 0 && text::is_white(s.first()) {
        let j = lemma_trim_front(s.drop_first());
        assert(s.drop_first().skip(j) =~= s.skip(j + 1));
        assert forall|i: int| 0 <= i < s.take(j + 1).len() implies text::is_white(
            #[trigger] s.take(j + 1)[i],
        ) by {
            if i > 0 {
                assert(s.drop_first().take(j)[i - 1] == s[i]);
            }
        }
        j + 1
    } else {
        assert(s.skip(0) =~= s);
        0
    }
}

proof fn lemma_trim_back(s: Seq<char>) -> (k: int)
    ensures
        0 <= k <= s.len(),
        text::trim_back(s) == s.take(k),
        all_white(s.skip(k)),
        k > 0 ==> !text::is_white(s[k - 1]),
    decreases s.len(),
{
    if s.len() > 0 && text::is_white(s.last()) {
        let j = lemma_trim_back(s.drop_last());
        assert(s.drop_last().take(j) =~= s.take(j));
        assert forall|i: int| 0 <= i < s.skip(j).len() implies text::is_white(
            #[trigger] s.skip(j)[i],
        ) by {
            if i < s.len() - 1 - j {
                assert(s.drop_last().skip(j)[i] == s[i + j]);
            }
        }
        j
    } else {
        assert(s.take(s.len() as int) =~= s);
        s.len() as int
    }
}

/// Trimming takes white space off both ends, all of it and nothing else.
pub proof fn lemma_trimmed(s: Seq<char>)
    ensures
        exists|a: Seq<char>, b: Seq<char>|
            #![trigger a + text::trim(s) + b]
            s == a + text::trim(s) + b && all_white(a) && all_white(b),
        text::trim(s).len() > 0 ==> !text::is_white(text::trim(s).first()) && !text::is_white(
            text::trim(s).last(),
        ),
{
    let k = lemma_trim_front(s);
    let t = s.skip(k);
    let j = lemma_trim_back(t);
    let a = s.take(k);
    let b = t.skip(j);
    assert(s =~= a + t.take(j) + b);
    assert(s == a + text::trim(s) + b);
}

/// Trimming twice is trimming once, and a text without white space at its ends stays as it is.
pub proof fn lemma_trim_settles(s: Seq<char>)
    ensures
        text::trim(text::trim(s)) == text::trim(s),
        s.len() == 0 || (!text::is_white(s.first()) && !text::is_white(s.last())) ==> text::trim(s)
            == s,
{
    lemma_trimmed(s);
    let t = text::trim(s);
    reveal_with_fuel(text::trim_front, 2);
    reveal_with_fuel(text::trim_back, 2);
    assert(text::trim_front(t) == t);
    assert(text::trim_back(t) == t);
}

/// Joining undoes splitting, and no piece holds the separator.
pub proof fn lemma_join_split(s: Seq<char>, c: char)
    ensures
        text::join(text::split(s, c), seq![c]) == s,
        text::split(s, c).len() > 0,
        forall|i: int|
            0 <= i < text::split(s, c).len() ==> text::free_of(#[trigger] text::split(s, c)[i], c),
    decreases s.len(),
{
    text::lemma_first_index(s, c);
    let k = text::first_index(s, c) as int;
    if k >= s.len() {
        assert(text::split(s, c) =~= seq![s]);
    } else {
        let rest = s.skip(k + 1);
        let tail = text::split(rest, c);
        lemma_join_split(rest, c);
        lemma_join_front(s.take(k), tail, seq![c]);
        assert(s =~= s.take(k) + seq![c] + rest);
        let all = seq![s.take(k)] + tail;
        assert forall|i: int| 0 <= i < all.len() implies text::free_of(#[trigger] all[i], c) by {
            if i > 0 {
                assert(all[i] == tail[i - 1]);
            }
        }
    }
}

proof fn lemma_join_front(a: Seq<char>, parts: Seq<Seq<char>>, sep: Seq<char>)
    requires
        parts.len() > 0,
    ensures
        text::join(seq![a] + parts, sep) == a + sep + text::join(parts, sep),
    decreases parts.len(),
{
    let all = seq![a] + parts;
    assert(all.last() == parts.last());
    assert(all.drop_last() =~= seq![a] + parts.drop_last());
    if parts.len() == 1 {
        assert(all.drop_last() =~= seq![a]);
        assert(text::join(seq![a], sep) == a);
        assert(text::join(parts, sep) == parts.last());
    } else {
        lemma_join_front(a, parts.drop_last(), sep);
        assert(a + sep + text::join(parts.drop_last(), sep) + sep + parts.last() =~= a + sep + (
        text::join(parts.drop_last(), sep) + sep + parts.last()));
    }
}

/// White space is the space and the five controls from the tab to the carriage return, and beyond the
/// first 128 characters what Unicode counts as such.
pub proof fn lemma_white_space(c: char)
    ensures
        (c as u32) < 128 ==> (text::is_white(c) <==> c == ' ' || c == '\t' || c == '\n' || c as u32
            == 11 || c as u32 == 12 || c == '\r'),
        (c as u32) >= 128 ==> (text::is_white(c) <==> c == '\u{85}' || c == '\u{a0}' || c
            == '\u{1680}' || ('\u{2000}' <= c && c <= '\u{200a}') || c == '\u{2028}' || c
            == '\u{2029}' || c == '\u{202f}' || c == '\u{205f}' || c == '\u{3000}'),
{
}

} // verus!
