//! What holds of the operations on texts.

use vstd::prelude::*;
use crate::render_laws::has_part;
use crate::text::{
    find_text, has_text, is_alnum, is_white, is_word, lemma_find_text, lemma_first_where,
    lemma_next_char, lemma_trimmed_end_bound, lower, next_char, next_nonwhite, next_white, replaced,
    split_once, stands_at, starts, trim, trim_left, trimmed_end, words_from,
};

verus! {

/// The white space of Unicode, by its numbers.
pub proof fn law_white(c: char)
    ensures
        is_white(c) <==> {
            let n = c as u32;
            ||| 9 <= n <= 13
            ||| n == 32 || n == 133 || n == 160 || n == 5760
            ||| 8192 <= n <= 8202
            ||| n == 8232 || n == 8233 || n == 8239 || n == 8287 || n == 12288
        },
{
}

/// Letters and digits of ASCII, by their numbers.
pub proof fn law_alnum(c: char)
    ensures
        is_alnum(c) <==> {
            let n = c as u32;
            48 <= n <= 57 || 65 <= n <= 90 || 97 <= n <= 122
        },
{
}

/// Capitals of ASCII are lowered by 32; every other character stays.
pub proof fn law_lower(c: char)
    ensures
        65 <= c as u32 <= 90 ==> lower(c) as u32 == c as u32 + 32,
        !(65 <= c as u32 <= 90) ==> lower(c) == c,
{
}

/// Trimming takes the white space at both ends, all of it and nothing else.
pub proof fn law_trim(s: Seq<char>)
    ensures
        ({
            let t = trim(s);
            let a = next_nonwhite(s, 0);
            &&& 0 <= a && a + t.len() <= s.len()
            &&& t.len() > 0 ==> s.subrange(a, a + t.len()) == t
            &&& t.len() > 0 ==> !is_white(t[0]) && !is_white(t.last())
            &&& forall|i: int| 0 <= i < a ==> is_white(#[trigger] s[i])
            &&& forall|i: int| a + t.len() <= i < s.len() ==> is_white(#[trigger] s[i])
        }),
{
    let a = next_nonwhite(s, 0);
    lemma_first_where(s, |x: char| !is_white(x), 0);
    let l = trim_left(s);
    let e = trimmed_end(l, l.len() as int);
    lemma_trimmed_end_bound(l, l.len() as int);
    lemma_trimmed_white(l, l.len() as int);
    let t = trim(s);
    assert(t.len() == e);
    if e > 0 {
        assert(s.subrange(a, a + e) =~= t);
        assert(t[0] == s[a]);
        assert(!is_white(s[a]));
        assert(t.last() == l[e - 1]);
    }
    assert forall|i: int| a + e <= i < s.len() implies is_white(#[trigger] s[i]) by {
        assert(l[i - a] == s[i]);
    }
    assert forall|i: int| 0 <= i < a implies is_white(#[trigger] s[i]) by {
        let p = |x: char| !is_white(x);
        assert(!p(s[i]));
    }
}

proof fn lemma_trimmed_white(s: Seq<char>, end: int)
    requires
        0 <= end <= s.len(),
    ensures
        ({
            let e = trimmed_end(s, end);
            &&& 0 <= e <= end
            &&& e > 0 ==> !is_white(s[e - 1])
            &&& forall|i: int| e <= i < end ==> is_white(#[trigger] s[i])
        }),
    decreases end,
{
    if end > 0 && is_white(s[end - 1]) {
        lemma_trimmed_white(s, end - 1);
    }
}

/// Each word of a text stands in it, between white space or its ends.
pub proof fn law_word_stands(s: Seq<char>, from: int, k: int) -> (i: int)
    requires
        0 <= from <= s.len(),
        0 <= k < words_from(s, from).len(),
    ensures
        from <= i,
        stands_at(s, words_from(s, from)[k], i),
        is_word(words_from(s, from)[k]),
        i == from || is_white(s[i - 1]),
        ({
            let e = i + words_from(s, from)[k].len();
            e == s.len() || is_white(s[e])
        }),
    decreases s.len() - from,
{
    let a = next_nonwhite(s, from);
    lemma_first_where(s, |x: char| !is_white(x), from);
    let b = next_white(s, a);
    lemma_first_where(s, |x: char| is_white(x), a);
    let all = words_from(s, from);
    let rest = words_from(s, b);
    crate::text::law_words(s, from);
    assert(all == seq![s.subrange(a, b)] + rest);
    if k == 0 {
        assert(all[0] == s.subrange(a, b));
        if a > from {
            let p = |x: char| !is_white(x);
            assert(!p(s[a - 1]));
        }
        a
    } else {
        assert(all[k] == rest[k - 1]);
        let i = law_word_stands(s, b, k - 1);
        if i == b {
            // A word does not begin where white space does.
            assert(is_word(rest[k - 1]));
            assert(s.subrange(i, i + rest[k - 1].len())[0] == s[i]);
            assert(false);
        }
        i
    }
}

/// What stands in a text is found in it, at its first place.
pub proof fn law_found_first(s: Seq<char>, t: Seq<char>)
    ensures
        has_text(s, t) <==> has_part(s, t),
        find_text(s, t, 0) matches Some(i) ==> stands_at(s, t, i) && forall|j: int|
            0 <= j < i ==> !stands_at(s, t, j),
{
    lemma_find_text(s, t, 0);
    if has_part(s, t) {
        let i = choose|i: int| stands_at(s, t, i);
        assert(stands_at(s, t, i));
    }
}

/// A text begins with another where that stands at its beginning.
pub proof fn law_starts(a: Seq<char>, b: Seq<char>)
    ensures
        starts(a + b, a),
{
    assert((a + b).take(a.len() as int) =~= a);
}

/// A text is cut at the first place of a character, into what is before and behind it.
pub proof fn law_cut(a: Seq<char>, c: char, b: Seq<char>)
    requires
        !a.contains(c),
    ensures
        split_once(a + seq![c] + b, c) == Some((a, b)),
        split_once(a, c) is None,
{
    let s = a + seq![c] + b;
    lemma_next_char(s, c, 0);
    lemma_next_char(a, c, 0);
    let e = next_char(s, c, 0);
    let f = next_char(a, c, 0);
    assert(s[a.len() as int] == c);
    assert(e == a.len()) by {
        if e < a.len() {
            assert(a[e] == c);
        }
    }
    assert(f == a.len()) by {
        if f < a.len() {
            assert(a[f] == c);
        }
    }
    assert(s.take(e) =~= a);
    assert(s.skip(e + 1) =~= b);
}

/// Replacing a character replaces each one of it, and no other.
pub proof fn law_replaced(a: Seq<char>, x: char, c: char, by: Seq<char>)
    ensures
        replaced(a.push(x), c, by) == replaced(a, c, by) + (if x == c {
            by
        } else {
            seq![x]
        }),
        replaced(Seq::empty(), c, by).len() == 0,
{
    assert(a.push(x).drop_last() =~= a);
}

} // verus!
