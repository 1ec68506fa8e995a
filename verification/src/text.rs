//! Text primitives over sequences of characters.
//!
//! Everything above this module speaks of text as `Seq<char>`. Positions count
//! characters. A search that fails answers with the length of the text.

use vstd::prelude::*;
use vstd::utf8::{encode_scalar, encode_utf8};

verus! {

broadcast use vstd::string::group_string_axioms;

/// `String::push` puts `c` behind the characters the string already holds.
pub assume_specification[ String::push ](s: &mut String, c: char)
    ensures
        final(s)@ == old(s)@.push(c),
;

// --- Predicates on characters ---

/// The characters of Unicode's `White_Space` property.
pub open spec fn is_white(c: char) -> bool {
    ||| '\u{9}' <= c <= '\u{d}'
    ||| c == '\u{20}'
    ||| c == '\u{85}'
    ||| c == '\u{a0}'
    ||| c == '\u{1680}'
    ||| '\u{2000}' <= c <= '\u{200a}'
    ||| c == '\u{2028}'
    ||| c == '\u{2029}'
    ||| c == '\u{202f}'
    ||| c == '\u{205f}'
    ||| c == '\u{3000}'
}

pub fn white(c: char) -> (b: bool)
    ensures
        b == is_white(c),
{
    ('\u{9}' <= c && c <= '\u{d}') || c == '\u{20}' || c == '\u{85}' || c == '\u{a0}' || c
        == '\u{1680}' || ('\u{2000}' <= c && c <= '\u{200a}') || c == '\u{2028}' || c == '\u{2029}'
        || c == '\u{202f}' || c == '\u{205f}' || c == '\u{3000}'
}

pub open spec fn is_digit(c: char) -> bool {
    '0' <= c <= '9'
}

pub open spec fn is_upper(c: char) -> bool {
    'A' <= c <= 'Z'
}

pub open spec fn is_letter(c: char) -> bool {
    is_upper(c) || 'a' <= c <= 'z'
}

pub open spec fn is_alnum(c: char) -> bool {
    is_letter(c) || is_digit(c)
}

pub fn letter(c: char) -> (b: bool)
    ensures
        b == is_letter(c),
{
    ('A' <= c && c <= 'Z') || ('a' <= c && c <= 'z')
}

pub fn alnum(c: char) -> (b: bool)
    ensures
        b == is_alnum(c),
{
    letter(c) || ('0' <= c && c <= '9')
}

/// The lower-case form of an ASCII capital; any other character as it is.
pub open spec fn lower(c: char) -> char {
    if is_upper(c) {
        (c as u32 + 32) as char
    } else {
        c
    }
}

pub fn lower_char(c: char) -> (r: char)
    ensures
        r == lower(c),
{
    if 'A' <= c && c <= 'Z' {
        let code: u8 = c as u8;
        (code + 32) as char
    } else {
        c
    }
}

pub open spec fn lowered(s: Seq<char>) -> Seq<char> {
    s.map_values(|c: char| lower(c))
}

// --- Between strings and characters ---

pub fn chars_of(s: &str) -> (r: Vec<char>)
    ensures
        r@ == s@,
{
    let mut out: Vec<char> = Vec::new();
    for c in it: s.chars()
        invariant
            out@ == s@.take(it.index() as int),
            it.seq() == s@,
    {
        out.push(c);
        assert(s@.take(it.index() as int).push(c) =~= s@.take(it.index() as int + 1));
    }
    assert(s@.take(s@.len() as int) =~= s@);
    out
}

pub fn string_of(v: &[char]) -> (r: String)
    ensures
        r@ == v@,
{
    let mut out = String::new();
    for i in 0..v.len()
        invariant
            out@ == v@.take(i as int),
    {
        out.push(v[i]);
        assert(v@.take(i as int).push(v@[i as int]) =~= v@.take(i as int + 1));
    }
    assert(v@.take(v@.len() as int) =~= v@);
    out
}

pub open spec fn texts(v: Seq<String>) -> Seq<Seq<char>> {
    v.map_values(|s: String| s@)
}

pub fn same(a: &str, b: &str) -> (r: bool)
    ensures
        r == (a@ == b@),
{
    let x: &[u8] = a.as_bytes();
    let y: &[u8] = b.as_bytes();
    proof {
        vstd::utf8::encode_utf8_decode_utf8(a@);
        vstd::utf8::encode_utf8_decode_utf8(b@);
    }
    if x.len() != y.len() {
        return false;
    }
    for i in 0..x.len()
        invariant
            x@.len() == y@.len(),
            x@ == vstd::utf8::encode_utf8(a@),
            y@ == vstd::utf8::encode_utf8(b@),
            forall|j: int| 0 <= j < i ==> x@[j] == y@[j],
    {
        if x[i] != y[i] {
            return false;
        }
    }
    assert(x@ =~= y@);
    true
}

/// The copy of `a[from..to]`.
pub fn part(a: &[char], from: usize, to: usize) -> (r: Vec<char>)
    requires
        from <= to <= a@.len(),
    ensures
        r@ == a@.subrange(from as int, to as int),
{
    let mut out: Vec<char> = Vec::new();
    for i in from..to
        invariant
            from <= to <= a@.len(),
            out@ == a@.subrange(from as int, i as int),
    {
        out.push(a[i]);
        assert(a@.subrange(from as int, i as int).push(a@[i as int]) =~= a@.subrange(
            from as int,
            i as int + 1,
        ));
    }
    out
}

/// The same as `part`, as a string.
pub fn part_string(a: &[char], from: usize, to: usize) -> (r: String)
    requires
        from <= to <= a@.len(),
    ensures
        r@ == a@.subrange(from as int, to as int),
{
    let v = part(a, from, to);
    string_of(&v)
}

// --- Searching ---

/// The first position at or after `from` that `p` accepts, or the length.
pub open spec fn first_where(s: Seq<char>, p: spec_fn(char) -> bool, from: int) -> int
    decreases s.len() - from,
{
    if from < 0 || from >= s.len() {
        s.len() as int
    } else if p(s[from]) {
        from
    } else {
        first_where(s, p, from + 1)
    }
}

pub proof fn lemma_first_where(s: Seq<char>, p: spec_fn(char) -> bool, from: int)
    requires
        0 <= from <= s.len(),
    ensures
        from <= first_where(s, p, from) <= s.len(),
        first_where(s, p, from) < s.len() ==> p(s[first_where(s, p, from)]),
        forall|i: int| from <= i < first_where(s, p, from) ==> !p(#[trigger] s[i]),
    decreases s.len() - from,
{
    if from < s.len() && !p(s[from]) {
        lemma_first_where(s, p, from + 1);
    }
}

pub open spec fn equals(c: char) -> spec_fn(char) -> bool {
    |x: char| x == c
}

pub open spec fn next_char(s: Seq<char>, c: char, from: int) -> int {
    first_where(s, equals(c), from)
}

pub open spec fn next_in(s: Seq<char>, set: Seq<char>, from: int) -> int {
    first_where(s, |x: char| set.contains(x), from)
}

pub open spec fn next_white(s: Seq<char>, from: int) -> int {
    first_where(s, |x: char| is_white(x), from)
}

pub open spec fn next_nonwhite(s: Seq<char>, from: int) -> int {
    first_where(s, |x: char| !is_white(x), from)
}

pub proof fn lemma_next_char(s: Seq<char>, c: char, from: int)
    requires
        0 <= from <= s.len(),
    ensures
        from <= next_char(s, c, from) <= s.len(),
        next_char(s, c, from) < s.len() ==> s[next_char(s, c, from)] == c,
        forall|i: int| from <= i < next_char(s, c, from) ==> #[trigger] s[i] != c,
{
    lemma_first_where(s, equals(c), from);
}

pub fn find_char(s: &[char], c: char, from: usize) -> (r: usize)
    requires
        from <= s@.len(),
    ensures
        r == next_char(s@, c, from as int),
        from <= r <= s@.len(),
        r < s@.len() ==> s@[r as int] == c,
{
    let mut i: usize = from;
    while i < s.len() && s[i] != c
        invariant
            from <= i <= s@.len(),
            next_char(s@, c, i as int) == next_char(s@, c, from as int),
        decreases s@.len() - i,
    {
        i += 1;
    }
    i
}

pub fn member(c: char, set: &[char]) -> (r: bool)
    ensures
        r == set@.contains(c),
{
    for i in 0..set.len()
        invariant
            forall|j: int| 0 <= j < i ==> set@[j] != c,
    {
        if set[i] == c {
            return true;
        }
    }
    false
}

pub fn find_in(s: &[char], set: &[char], from: usize) -> (r: usize)
    requires
        from <= s@.len(),
    ensures
        r == next_in(s@, set@, from as int),
        from <= r <= s@.len(),
{
    let mut i: usize = from;
    while i < s.len() && !member(s[i], set)
        invariant
            from <= i <= s@.len(),
            next_in(s@, set@, i as int) == next_in(s@, set@, from as int),
        decreases s@.len() - i,
    {
        i += 1;
    }
    i
}

pub fn find_white(s: &[char], from: usize) -> (r: usize)
    requires
        from <= s@.len(),
    ensures
        r == next_white(s@, from as int),
        from <= r <= s@.len(),
        from < s@.len() && !is_white(s@[from as int]) ==> from < r,
{
    let mut i: usize = from;
    while i < s.len() && !white(s[i])
        invariant
            from <= i <= s@.len(),
            next_white(s@, i as int) == next_white(s@, from as int),
        decreases s@.len() - i,
    {
        i += 1;
    }
    i
}

pub fn find_nonwhite(s: &[char], from: usize) -> (r: usize)
    requires
        from <= s@.len(),
    ensures
        r == next_nonwhite(s@, from as int),
        from <= r <= s@.len(),
        r < s@.len() ==> !is_white(s@[r as int]),
{
    let mut i: usize = from;
    while i < s.len() && white(s[i])
        invariant
            from <= i <= s@.len(),
            next_nonwhite(s@, i as int) == next_nonwhite(s@, from as int),
        decreases s@.len() - i,
    {
        i += 1;
    }
    i
}

/// `p` stands in `s` at position `i`.
pub open spec fn stands_at(s: Seq<char>, p: Seq<char>, i: int) -> bool {
    0 <= i && i + p.len() <= s.len() && s.subrange(i, i + p.len()) == p
}

/// The first position at or after `from` at which `p` stands.
pub open spec fn find_text(s: Seq<char>, p: Seq<char>, from: int) -> Option<int>
    decreases s.len() + 1 - from,
{
    if from < 0 || from + p.len() > s.len() {
        None
    } else if stands_at(s, p, from) {
        Some(from)
    } else {
        find_text(s, p, from + 1)
    }
}

pub proof fn lemma_find_text(s: Seq<char>, p: Seq<char>, from: int)
    requires
        0 <= from,
    ensures
        match find_text(s, p, from) {
            Some(i) => from <= i && stands_at(s, p, i) && forall|j: int|
                from <= j < i ==> !#[trigger] stands_at(s, p, j),
            None => forall|j: int| from <= j ==> !#[trigger] stands_at(s, p, j),
        },
    decreases s.len() + 1 - from,
{
    if from + p.len() <= s.len() && !stands_at(s, p, from) {
        lemma_find_text(s, p, from + 1);
    }
}

pub open spec fn has_text(s: Seq<char>, p: Seq<char>) -> bool {
    find_text(s, p, 0) is Some
}

pub open spec fn starts(s: Seq<char>, p: Seq<char>) -> bool {
    stands_at(s, p, 0)
}

pub open spec fn ends(s: Seq<char>, p: Seq<char>) -> bool {
    stands_at(s, p, s.len() - p.len())
}

pub fn at(s: &[char], p: &[char], i: usize) -> (r: bool)
    ensures
        r == stands_at(s@, p@, i as int),
{
    if i > s.len() || s.len() - i < p.len() {
        return false;
    }
    let n: usize = s.len();
    for j in 0..p.len()
        invariant
            n == s@.len(),
            i + p@.len() <= n,
            forall|k: int| 0 <= k < j ==> s@[i + k] == p@[k],
    {
        if s[i + j] != p[j] {
            assert(s@.subrange(i as int, i + p@.len())[j as int] != p@[j as int]);
            return false;
        }
    }
    assert(s@.subrange(i as int, i + p@.len()) =~= p@);
    true
}

pub fn find(s: &[char], p: &[char], from: usize) -> (r: Option<usize>)
    ensures
        match r {
            Some(i) => find_text(s@, p@, from as int) == Some(i as int) && from <= i && i + p@.len()
                <= s@.len() && stands_at(s@, p@, i as int),
            None => find_text(s@, p@, from as int) is None,
        },
{
    let mut i: usize = from;
    while i <= s.len() && s.len() - i >= p.len()
        invariant
            from <= i,
            find_text(s@, p@, i as int) == find_text(s@, p@, from as int),
        decreases s@.len() + 1 - i,
    {
        if at(s, p, i) {
            return Some(i);
        }
        if i == s.len() {
            assert(find_text(s@, p@, i + 1) is None);
            return None;
        }
        i += 1;
    }
    None
}

pub fn contains(s: &str, p: &str) -> (r: bool)
    ensures
        r == has_text(s@, p@),
{
    find(&chars_of(s), &chars_of(p), 0).is_some()
}

pub fn starts_with(s: &str, p: &str) -> (r: bool)
    ensures
        r == starts(s@, p@),
{
    at(&chars_of(s), &chars_of(p), 0)
}

pub fn has_char(s: &str, c: char) -> (r: bool)
    ensures
        r == s@.contains(c),
{
    member(c, &chars_of(s))
}

// --- Trimming ---

/// The end of `s[..end]` once the white space at its end is gone.
pub open spec fn trimmed_end(s: Seq<char>, end: int) -> int
    decreases end,
{
    if end <= 0 {
        0
    } else if is_white(s[end - 1]) {
        trimmed_end(s, end - 1)
    } else {
        end
    }
}

pub proof fn lemma_trimmed_end_bound(s: Seq<char>, end: int)
    requires
        0 <= end,
    ensures
        0 <= trimmed_end(s, end) <= end,
    decreases end,
{
    if end > 0 && is_white(s[end - 1]) {
        lemma_trimmed_end_bound(s, end - 1);
    }
}

pub open spec fn trim_left(s: Seq<char>) -> Seq<char> {
    s.skip(next_nonwhite(s, 0))
}

pub open spec fn trim_right(s: Seq<char>) -> Seq<char> {
    s.take(trimmed_end(s, s.len() as int))
}

pub open spec fn trim(s: Seq<char>) -> Seq<char> {
    trim_right(trim_left(s))
}

pub fn trim_left_chars(s: &[char]) -> (r: Vec<char>)
    ensures
        r@ == trim_left(s@),
{
    let i = find_nonwhite(s, 0);
    let r = part(s, i, s.len());
    assert(s@.subrange(i as int, s@.len() as int) =~= s@.skip(i as int));
    r
}

pub fn trim_right_chars(s: &[char]) -> (r: Vec<char>)
    ensures
        r@ == trim_right(s@),
{
    let mut e: usize = s.len();
    while e > 0 && white(s[e - 1])
        invariant
            e <= s@.len(),
            trimmed_end(s@, e as int) == trimmed_end(s@, s@.len() as int),
        decreases e,
    {
        e -= 1;
    }
    let r = part(s, 0, e);
    assert(s@.subrange(0, e as int) =~= s@.take(e as int));
    r
}

pub fn trim_chars(s: &[char]) -> (r: Vec<char>)
    ensures
        r@ == trim(s@),
{
    let a = trim_left_chars(s);
    trim_right_chars(&a)
}

pub fn trimmed(s: &str) -> (r: String)
    ensures
        r@ == trim(s@),
{
    string_of(&trim_chars(&chars_of(s)))
}

// --- Splitting and joining ---

/// The pieces of `s[from..]` between the occurrences of `c`.
pub open spec fn split_from(s: Seq<char>, c: char, from: int) -> Seq<Seq<char>>
    decreases s.len() - from,
    when 0 <= from <= s.len()
{
    let e = next_char(s, c, from);
    if from <= e < s.len() {
        seq![s.subrange(from, e)] + split_from(s, c, e + 1)
    } else {
        seq![s.skip(from)]
    }
}

pub open spec fn split(s: Seq<char>, c: char) -> Seq<Seq<char>> {
    split_from(s, c, 0)
}

pub open spec fn chars2(v: Seq<Vec<char>>) -> Seq<Seq<char>> {
    v.map_values(|x: Vec<char>| x@)
}

pub fn split_chars(s: &[char], c: char) -> (r: Vec<Vec<char>>)
    ensures
        chars2(r@) == split(s@, c),
{
    let mut out: Vec<Vec<char>> = Vec::new();
    let mut from: usize = 0;
    assert(chars2(out@) + split_from(s@, c, 0) =~= split(s@, c));
    loop
        invariant
            from <= s@.len(),
            chars2(out@) + split_from(s@, c, from as int) == split(s@, c),
        decreases s@.len() - from,
    {
        let e = find_char(s, c, from);
        let ghost before = chars2(out@);
        if e >= s.len() {
            out.push(part(s, from, e));
            assert(s@.subrange(from as int, e as int) =~= s@.skip(from as int));
            assert(chars2(out@) =~= before + seq![s@.skip(from as int)]);
            return out;
        }
        out.push(part(s, from, e));
        assert(chars2(out@) =~= before.push(s@.subrange(from as int, e as int)));
        assert(before.push(s@.subrange(from as int, e as int)) + split_from(s@, c, e + 1) =~= before
            + split_from(s@, c, from as int));
        from = e + 1;
    }
}

/// What stands before and after the first `c`.
pub open spec fn split_once(s: Seq<char>, c: char) -> Option<(Seq<char>, Seq<char>)> {
    let e = next_char(s, c, 0);
    if e < s.len() {
        Some((s.take(e), s.skip(e + 1)))
    } else {
        None
    }
}

pub fn cut(s: &[char], c: char) -> (r: Option<(Vec<char>, Vec<char>)>)
    ensures
        match r {
            Some((a, b)) => split_once(s@, c) == Some((a@, b@)),
            None => split_once(s@, c) is None,
        },
{
    let e = find_char(s, c, 0);
    if e < s.len() {
        let a = part(s, 0, e);
        let b = part(s, e + 1, s.len());
        assert(a@ =~= s@.take(e as int));
        assert(b@ =~= s@.skip(e + 1));
        Some((a, b))
    } else {
        None
    }
}

/// A line without the carriage return that its line feed came with.
pub open spec fn chomp(s: Seq<char>) -> Seq<char> {
    if s.len() > 0 && s.last() == '\r' {
        s.drop_last()
    } else {
        s
    }
}

/// The lines of `s[from..]`: each ends in a line feed, or a carriage return and
/// a line feed, which do not belong to it; the last may end with the text.
pub open spec fn lines_from(s: Seq<char>, from: int) -> Seq<Seq<char>>
    decreases s.len() - from,
    when 0 <= from <= s.len()
{
    if from == s.len() {
        Seq::empty()
    } else {
        let e = next_char(s, '\n', from);
        if from <= e < s.len() {
            seq![chomp(s.subrange(from, e))] + lines_from(s, e + 1)
        } else {
            seq![s.skip(from)]
        }
    }
}

pub open spec fn lines(s: Seq<char>) -> Seq<Seq<char>> {
    lines_from(s, 0)
}

pub fn lines_chars(s: &[char]) -> (r: Vec<Vec<char>>)
    ensures
        chars2(r@) == lines(s@),
{
    let mut out: Vec<Vec<char>> = Vec::new();
    let mut from: usize = 0;
    assert(chars2(out@) + lines_from(s@, 0) =~= lines(s@));
    while from < s.len()
        invariant
            from <= s@.len(),
            chars2(out@) + lines_from(s@, from as int) == lines(s@),
        decreases s@.len() - from,
    {
        let e = find_char(s, '\n', from);
        let ghost before = chars2(out@);
        if e >= s.len() {
            out.push(part(s, from, e));
            assert(s@.subrange(from as int, e as int) =~= s@.skip(from as int));
            assert(chars2(out@) =~= before + seq![s@.skip(from as int)]);
            return out;
        }
        let ghost line = s@.subrange(from as int, e as int);
        if e > from && s[e - 1] == '\r' {
            assert(line.last() == '\r');
            out.push(part(s, from, e - 1));
            assert(s@.subrange(from as int, e - 1) =~= chomp(line));
        } else {
            out.push(part(s, from, e));
            assert(line.len() > 0 ==> line.last() == s@[e - 1]);
        }
        assert(chars2(out@) =~= before.push(chomp(line)));
        assert(before.push(chomp(line)) + lines_from(s@, e + 1) =~= before + lines_from(
            s@,
            from as int,
        ));
        from = e + 1;
    }
    assert(lines_from(s@, from as int) =~= Seq::empty());
    out
}

/// The runs of characters in `s[from..]` that are not white space.
pub open spec fn words_from(s: Seq<char>, from: int) -> Seq<Seq<char>>
    decreases s.len() - from,
    when 0 <= from <= s.len()
    via words_from_ends
{
    let a = next_nonwhite(s, from);
    if a >= s.len() {
        Seq::empty()
    } else {
        seq![s.subrange(a, next_white(s, a))] + words_from(s, next_white(s, a))
    }
}

#[via_fn]
proof fn words_from_ends(s: Seq<char>, from: int) {
    lemma_first_where(s, |x: char| !is_white(x), from);
    let a = next_nonwhite(s, from);
    if a < s.len() {
        lemma_first_where(s, |x: char| is_white(x), a);
    }
}

pub open spec fn words(s: Seq<char>) -> Seq<Seq<char>> {
    words_from(s, 0)
}

/// A text that is not empty and holds no white space.
pub open spec fn is_word(s: Seq<char>) -> bool {
    s.len() > 0 && forall|i: int| 0 <= i < s.len() ==> !is_white(#[trigger] s[i])
}

/// The words of a text are words.
pub proof fn law_words(s: Seq<char>, from: int)
    requires
        0 <= from <= s.len(),
    ensures
        forall|k: int| 0 <= k < words_from(s, from).len() ==> is_word(#[trigger] words_from(s, from)[k]),
    decreases s.len() - from,
{
    lemma_first_where(s, |x: char| !is_white(x), from);
    let a = next_nonwhite(s, from);
    if a < s.len() {
        lemma_first_where(s, |x: char| is_white(x), a);
        let b = next_white(s, a);
        let word = s.subrange(a, b);
        let rest = words_from(s, b);
        assert(a < b);
        law_words(s, b);
        assert(is_word(word)) by {
            assert forall|i: int| 0 <= i < word.len() implies !is_white(#[trigger] word[i]) by {
                assert(word[i] == s[a + i]);
            }
        }
        let all = words_from(s, from);
        assert(all == seq![word] + rest);
        assert forall|k: int| 0 <= k < all.len() implies is_word(#[trigger] all[k]) by {
            if k > 0 {
                assert(all[k] == rest[k - 1]);
            }
        }
    }
}

/// Trimming leaves a word as it is.
pub proof fn lemma_trim_word(s: Seq<char>)
    requires
        is_word(s),
    ensures
        trim(s) == s,
{
    assert(!is_white(s[0]));
    assert(next_nonwhite(s, 0) == 0);
    assert(trim_left(s) =~= s);
    assert(!is_white(s[s.len() - 1]));
    assert(trimmed_end(s, s.len() as int) == s.len());
    assert(s.take(s.len() as int) =~= s);
}

pub fn words_chars(s: &[char]) -> (r: Vec<Vec<char>>)
    ensures
        chars2(r@) == words(s@),
{
    let mut out: Vec<Vec<char>> = Vec::new();
    let mut from: usize = 0;
    assert(chars2(out@) + words_from(s@, 0) =~= words(s@));
    loop
        invariant
            from <= s@.len(),
            chars2(out@) + words_from(s@, from as int) == words(s@),
        decreases s@.len() - from,
    {
        let a = find_nonwhite(s, from);
        if a >= s.len() {
            assert(chars2(out@) + Seq::<Seq<char>>::empty() =~= chars2(out@));
            return out;
        }
        let b = find_white(s, a);
        let ghost before = chars2(out@);
        let ghost word = s@.subrange(a as int, b as int);
        out.push(part(s, a, b));
        assert(chars2(out@) =~= before.push(word));
        assert(before.push(word) + words_from(s@, b as int) =~= before + words_from(
            s@,
            from as int,
        ));
        from = b;
    }
}

/// The pieces with `sep` between them.
pub open spec fn join(v: Seq<Seq<char>>, sep: Seq<char>) -> Seq<char>
    decreases v.len(),
{
    if v.len() == 0 {
        Seq::empty()
    } else if v.len() == 1 {
        v[0]
    } else {
        join(v.drop_last(), sep) + sep + v.last()
    }
}

pub fn join_strings(v: &Vec<String>, sep: &str) -> (r: String)
    ensures
        r@ == join(texts(v@), sep@),
{
    let mut out = String::new();
    for i in 0..v.len()
        invariant
            out@ == join(texts(v@).take(i as int), sep@),
    {
        let ghost t = texts(v@).take(i as int + 1);
        assert(t.drop_last() =~= texts(v@).take(i as int));
        assert(t.last() == v@[i as int]@);
        if i > 0 {
            out.append(sep);
        } else {
            assert(out@ =~= Seq::empty());
            assert(out@ + v@[0]@ =~= v@[0]@);
        }
        out.append(v[i].as_str());
    }
    assert(texts(v@).take(v@.len() as int) =~= texts(v@));
    out
}

/// The place of the `i`-th piece in the joined text.
pub open spec fn line_start(v: Seq<Seq<char>>, i: int) -> int
    decreases i,
{
    if i <= 0 {
        0
    } else {
        line_start(v, i - 1) + v[i - 1].len() + 1
    }
}

proof fn lemma_line_start(v: Seq<Seq<char>>, i: int)
    requires
        0 <= i < v.len(),
    ensures
        line_start(v.drop_last(), i) == line_start(v, i),
        0 <= line_start(v, i),
    decreases i,
{
    if i > 0 {
        lemma_line_start(v, i - 1);
        assert(v.drop_last()[i - 1] == v[i - 1]);
    }
}

proof fn lemma_joined_piece(v: Seq<Seq<char>>, sep: Seq<char>, i: int)
    requires
        0 <= i < v.len(),
        sep.len() == 1,
    ensures
        ({
            let s = join(v, sep);
            let a = line_start(v, i);
            &&& s.len() == line_start(v, v.len() as int) - 1
            &&& 0 <= a
            &&& a + v[i].len() <= s.len()
            &&& s.subrange(a, a + v[i].len()) == v[i]
            &&& i + 1 < v.len() ==> a + v[i].len() < s.len() && s[a + v[i].len()] == sep[0]
        }),
    decreases v.len(),
{
    let s = join(v, sep);
    let n = v.len() as int;
    lemma_line_start(v, n - 1);
    if n == 1 {
        assert(s.subrange(0, v[0].len() as int) =~= v[0]);
    } else {
        let d = v.drop_last();
        let t = join(d, sep);
        lemma_joined_piece(d, sep, n - 2);
        lemma_line_start(v, n - 2);
        assert(d[n - 2] == v[n - 2]);
        assert(s == t + sep + v.last());
        assert(t.len() == line_start(v, n - 1) - 1);
        if i < n - 1 {
            lemma_joined_piece(d, sep, i);
            lemma_line_start(v, i);
            let a = line_start(v, i);
            assert(d[i] == v[i]);
            assert(s.subrange(a, a + v[i].len()) =~= t.subrange(a, a + v[i].len()));
            if i + 1 < n - 1 {
                assert(s[a + v[i].len()] == t[a + v[i].len()]);
            } else {
                assert(s[t.len() as int] == sep[0]);
            }
        } else {
            let a = line_start(v, i);
            assert(a == t.len() + 1);
            assert(s.subrange(a, a + v[i].len()) =~= v[i]);
        }
    }
}

/// In the joined text, the separator that follows the `i`-th piece is the next one.
proof fn lemma_piece_end(v: Seq<Seq<char>>, c: char, i: int)
    requires
        0 <= i < v.len(),
        !v[i].contains(c),
    ensures
        ({
            let s = join(v, seq![c]);
            let a = line_start(v, i);
            &&& 0 <= a
            &&& next_char(s, c, a) == (if i + 1 < v.len() {
                a + v[i].len()
            } else {
                s.len() as int
            })
            &&& i + 1 < v.len() ==> a + v[i].len() < s.len()
            &&& i + 1 == v.len() ==> a + v[i].len() == s.len()
            &&& a + v[i].len() <= s.len()
            &&& s.subrange(a, a + v[i].len()) == v[i]
        }),
{
    let s = join(v, seq![c]);
    let a = line_start(v, i);
    let b = a + v[i].len();
    lemma_joined_piece(v, seq![c], i);
    lemma_next_char(s, c, a);
    assert forall|k: int| a <= k < b implies s[k] != c by {
        assert(s[k] == s.subrange(a, b)[k - a]);
        assert(v[i].contains(v[i][k - a]));
    }
}

proof fn lemma_split_joined(v: Seq<Seq<char>>, c: char, i: int)
    requires
        0 <= i < v.len(),
        forall|k: int| 0 <= k < v.len() ==> !(#[trigger] v[k]).contains(c),
    ensures
        split_from(join(v, seq![c]), c, line_start(v, i)) == v.skip(i),
    decreases v.len() - i,
{
    let s = join(v, seq![c]);
    let a = line_start(v, i);
    lemma_piece_end(v, c, i);
    if i + 1 < v.len() {
        lemma_split_joined(v, c, i + 1);
        assert(seq![v[i]] + v.skip(i + 1) =~= v.skip(i));
    } else {
        assert(s.skip(a) =~= s.subrange(a, a + v[i].len()));
        assert(v.skip(i) =~= seq![v[i]]);
    }
}

/// Pieces that are joined by a character that none of them holds are the pieces into which
/// the text splits.
pub proof fn law_split_joined(v: Seq<Seq<char>>, c: char)
    requires
        v.len() > 0,
        forall|k: int| 0 <= k < v.len() ==> !(#[trigger] v[k]).contains(c),
    ensures
        split(join(v, seq![c]), c) == v,
{
    lemma_split_joined(v, c, 0);
    assert(v.skip(0) =~= v);
}

/// Pieces that can be lines: none holds a line feed or ends in a carriage return, and the
/// last is not empty.
pub open spec fn are_lines(v: Seq<Seq<char>>) -> bool {
    &&& v.len() > 0 ==> v.last().len() > 0
    &&& forall|i: int|
        0 <= i < v.len() ==> !(#[trigger] v[i]).contains('\n') && (v[i].len() > 0 ==> v[i].last()
            != '\r')
}

proof fn lemma_lines_joined(v: Seq<Seq<char>>, i: int)
    requires
        are_lines(v),
        0 <= i < v.len(),
    ensures
        lines_from(join(v, seq!['\n']), line_start(v, i)) == v.skip(i),
    decreases v.len() - i,
{
    let s = join(v, seq!['\n']);
    let a = line_start(v, i);
    lemma_piece_end(v, '\n', i);
    if i + 1 < v.len() {
        lemma_lines_joined(v, i + 1);
        assert(chomp(s.subrange(a, a + v[i].len())) == v[i]);
        assert(seq![v[i]] + v.skip(i + 1) =~= v.skip(i));
    } else {
        assert(v[i] == v.last());
        assert(s.skip(a) =~= s.subrange(a, a + v[i].len()));
        assert(v.skip(i) =~= seq![v[i]]);
    }
}

/// Lines that are joined by line feeds read back as they were.
pub proof fn law_joined_lines(v: Seq<Seq<char>>)
    requires
        are_lines(v),
    ensures
        lines(join(v, "\n"@)) == v,
{
    reveal_strlit("\n");
    assert("\n"@ =~= seq!['\n']);
    if v.len() > 0 {
        lemma_lines_joined(v, 0);
        assert(v.skip(0) =~= v);
    } else {
        assert(v =~= Seq::empty());
    }
}

// --- Building ---

pub open spec fn repeated(c: char, n: nat) -> Seq<char> {
    Seq::new(n, |i: int| c)
}

pub fn repeat_char(c: char, n: usize) -> (r: String)
    ensures
        r@ == repeated(c, n as nat),
{
    let mut out = String::new();
    for i in 0..n
        invariant
            out@ == repeated(c, i as nat),
    {
        out.push(c);
        assert(repeated(c, i as nat).push(c) =~= repeated(c, i as nat + 1));
    }
    out
}

pub fn concat(a: &str, b: &str) -> (r: String)
    ensures
        r@ == a@ + b@,
{
    let mut out = a.to_string();
    out.append(b);
    out
}

pub fn concat3(a: &str, b: &str, c: &str) -> (r: String)
    ensures
        r@ == a@ + b@ + c@,
{
    let mut out = concat(a, b);
    out.append(c);
    out
}

/// Every `c` in `s` gives way to `by`.
pub open spec fn replaced(s: Seq<char>, c: char, by: Seq<char>) -> Seq<char>
    decreases s.len(),
{
    if s.len() == 0 {
        Seq::empty()
    } else {
        replaced(s.drop_last(), c, by) + (if s.last() == c {
            by
        } else {
            seq![s.last()]
        })
    }
}

/// A character that is replaced, or was not there, and that the replacement does not
/// hold, is not in the result.
pub proof fn lemma_replaced_lacks(s: Seq<char>, c: char, by: Seq<char>, d: char)
    requires
        d == c || !s.contains(d),
        !by.contains(d),
    ensures
        !replaced(s, c, by).contains(d),
    decreases s.len(),
{
    if s.len() > 0 {
        let t = s.drop_last();
        assert forall|i: int| 0 <= i < t.len() implies t[i] == s[i] by {}
        if d != c {
            assert(!t.contains(d));
            assert(s.contains(s.last()));
        }
        lemma_replaced_lacks(t, c, by, d);
        let a = replaced(t, c, by);
        let b = if s.last() == c {
            by
        } else {
            seq![s.last()]
        };
        let r = replaced(s, c, by);
        assert forall|i: int| 0 <= i < r.len() implies r[i] != d by {
            if i < a.len() {
                assert(r[i] == a[i]);
                assert(a.contains(a[i]));
            } else {
                assert(r[i] == b[i - a.len()]);
                assert(b.contains(b[i - a.len()]));
            }
        }
    }
}

pub fn replace_char(s: &str, c: char, by: &str) -> (r: String)
    ensures
        r@ == replaced(s@, c, by@),
{
    let v = chars_of(s);
    let mut out = String::new();
    for i in 0..v.len()
        invariant
            v@ == s@,
            out@ == replaced(s@.take(i as int), c, by@),
    {
        let ghost t = s@.take(i as int + 1);
        assert(t.drop_last() =~= s@.take(i as int));
        assert(t.last() == v@[i as int]);
        if v[i] == c {
            out.append(by);
        } else {
            let ghost before = out@;
            out.push(v[i]);
            assert(out@ =~= before + seq![v@[i as int]]);
        }
    }
    assert(s@.take(s@.len() as int) =~= s@);
    out
}

pub fn lower_chars(s: &[char]) -> (r: Vec<char>)
    ensures
        r@ == lowered(s@),
{
    let mut out: Vec<char> = Vec::new();
    for i in 0..s.len()
        invariant
            out@ == lowered(s@.take(i as int)),
    {
        out.push(lower_char(s[i]));
        assert(lowered(s@.take(i as int + 1)) =~= lowered(s@.take(i as int)).push(
            lower(s@[i as int]),
        ));
    }
    assert(s@.take(s@.len() as int) =~= s@);
    out
}

/// What stands behind the last `c`, all of `s` where there is none.
pub open spec fn after_last(s: Seq<char>, c: char) -> Seq<char>
    decreases s.len(),
{
    if s.len() == 0 || s.last() == c {
        Seq::empty()
    } else {
        after_last(s.drop_last(), c).push(s.last())
    }
}

pub fn behind_last(s: &str, c: char) -> (r: String)
    ensures
        r@ == after_last(s@, c),
{
    let v = chars_of(s);
    let n: usize = v.len();
    let mut i: usize = n;
    assert(v@.take(n as int) =~= v@);
    while i > 0 && v[i - 1] != c
        invariant
            n == v@.len(),
            i <= n,
            v@ == s@,
            after_last(s@, c) == after_last(v@.take(i as int), c) + v@.skip(i as int),
        decreases i,
    {
        let ghost t = v@.take(i as int);
        assert(t.drop_last() =~= v@.take(i - 1));
        assert(after_last(v@.take(i - 1), c).push(t.last()) + v@.skip(i as int) =~= after_last(
            v@.take(i - 1),
            c,
        ) + v@.skip(i - 1));
        i -= 1;
    }
    let r = part_string(&v, i, n);
    assert(r@ =~= v@.skip(i as int));
    assert(after_last(v@.take(i as int), c) =~= Seq::empty());
    assert(Seq::<char>::empty() + v@.skip(i as int) =~= v@.skip(i as int));
    r
}

// --- Bytes ---

/// The number of bytes that a character takes.
pub open spec fn char_size(c: char) -> int {
    encode_scalar(c as u32).len() as int
}

fn size_of_char(c: char) -> (r: usize)
    ensures
        r == char_size(c),
        1 <= r <= 4,
{
    let v: u32 = c as u32;
    if v <= 0x7F {
        1
    } else if v <= 0x7FF {
        2
    } else if v <= 0xFFFF {
        3
    } else {
        4
    }
}

/// The longest beginning of `s` that takes at most `max` bytes.
pub open spec fn fitting(s: Seq<char>, max: int) -> Seq<char>
    decreases s.len(),
{
    if s.len() == 0 || char_size(s[0]) > max {
        Seq::empty()
    } else {
        seq![s[0]] + fitting(s.drop_first(), max - char_size(s[0]))
    }
}

pub fn fit(s: &str, max: usize) -> (r: String)
    ensures
        r@ == fitting(s@, max as int),
{
    let v = chars_of(s);
    let mut out = String::new();
    let mut left: usize = max;
    let mut i: usize = 0;
    assert(s@.skip(0) =~= s@);
    assert(out@ + fitting(s@, max as int) =~= fitting(s@, max as int));
    while i < v.len()
        invariant
            i <= v@.len(),
            v@ == s@,
            out@ + fitting(s@.skip(i as int), left as int) == fitting(s@, max as int),
        decreases v@.len() - i,
    {
        let c: char = v[i];
        let w = size_of_char(c);
        let ghost rest = s@.skip(i as int);
        assert(rest[0] == c);
        assert(rest.drop_first() =~= s@.skip(i + 1));
        if w > left {
            assert(out@ + Seq::<char>::empty() =~= out@);
            return out;
        }
        let ghost before = out@;
        out.push(c);
        left -= w;
        assert(out@ + fitting(s@.skip(i + 1), left as int) =~= before + (seq![c] + fitting(
            s@.skip(i + 1),
            left as int,
        )));
        i += 1;
    }
    assert(out@ + Seq::<char>::empty() =~= out@);
    out
}

/// What fits is a beginning of the text and takes no more bytes than allowed; a text that
/// fits as a whole is left whole.
pub proof fn law_fitting(s: Seq<char>, max: int)
    requires
        0 <= max,
    ensures
        encode_utf8(fitting(s, max)).len() <= max,
        fitting(s, max).len() <= s.len(),
        fitting(s, max) == s.take(fitting(s, max).len() as int),
        encode_utf8(s).len() <= max ==> fitting(s, max) == s,
    decreases s.len(),
{
    if s.len() > 0 && char_size(s[0]) <= max {
        let rest = fitting(s.drop_first(), max - char_size(s[0]));
        law_fitting(s.drop_first(), max - char_size(s[0]));
        let f = fitting(s, max);
        assert(f.drop_first() =~= rest);
        assert(f =~= s.take(f.len() as int)) by {
            assert forall|i: int| 0 < i < f.len() implies f[i] == s[i] by {
                assert(f[i] == rest[i - 1]);
                assert(rest[i - 1] == s.drop_first().take(rest.len() as int)[i - 1]);
            }
        }
        if encode_utf8(s).len() <= max {
            assert(f =~= s);
        }
    } else if s.len() > 0 {
        assert(encode_utf8(s).len() >= char_size(s[0]));
        assert(s.take(0) =~= Seq::empty());
    } else {
        assert(s =~= Seq::empty());
        assert(s.take(0) =~= Seq::empty());
    }
}

// --- Case ---

pub open spec fn is_ascii_text(s: Seq<char>) -> bool {
    forall|i: int| 0 <= i < s.len() ==> (#[trigger] s[i]) <= '\u{7f}'
}

/// What `str::to_lowercase` makes of a text.
pub uninterp spec fn lowercase_of(s: Seq<char>) -> Seq<char>;

/// `str::to_lowercase` maps a text by Unicode's rules; of ASCII text, letter by letter.
pub assume_specification[ str::to_lowercase ](s: &str) -> (r: String)
    ensures
        r@ == lowercase_of(s@),
        is_ascii_text(s@) ==> r@ == lowered(s@),
;

pub open spec fn upper(c: char) -> char {
    if 'a' <= c <= 'z' {
        (c as u8 - 32) as char
    } else {
        c
    }
}

pub open spec fn uppered(s: Seq<char>) -> Seq<char> {
    s.map_values(|c: char| upper(c))
}

/// What `str::to_uppercase` makes of a text.
pub uninterp spec fn uppercase_of(s: Seq<char>) -> Seq<char>;

/// `str::to_uppercase` maps a text by Unicode's rules; of ASCII text, letter by letter.
pub assume_specification[ str::to_uppercase ](s: &str) -> (r: String)
    ensures
        r@ == uppercase_of(s@),
        is_ascii_text(s@) ==> r@ == uppered(s@),
;

} // verus!
