//! Reverse-video marks on a rendered page.
//!
//! A mark covers characters that are seen; the escape sequences between them stay.

use vstd::prelude::*;
use crate::number::{decimal, number};
use crate::renderer::bracketed;
use crate::style::{plain_text, reversed};
use crate::tab::{views, Link, LinkView};
use crate::text::{
    chars_of, chomp, concat, concat3, find, find_char, find_text, is_letter, lemma_find_text,
    lemma_next_char, letter, lines, lines_from, next_char, part_string, string_of,
};

verus! {

broadcast use vstd::string::group_string_axioms;

// --- Characters that are seen ---

/// Whether an escape sequence is open behind the first `i` characters: it begins with the
/// escape character and ends with a letter.
pub open spec fn escaping(line: Seq<char>, i: int) -> bool
    decreases i,
{
    i > 0 && (escaping(line, i - 1) || line[i - 1] == '\x1b') && !is_letter(line[i - 1])
}

pub open spec fn is_hidden(line: Seq<char>, i: int) -> bool {
    escaping(line, i) || line[i] == '\x1b'
}

/// The position of the `k`-th character seen at or after `i`, counted from zero, or the
/// length of the line.
pub open spec fn seen_at(line: Seq<char>, k: int, i: int) -> int
    decreases line.len() - i,
{
    if i < 0 || i >= line.len() {
        line.len() as int
    } else if is_hidden(line, i) {
        seen_at(line, k, i + 1)
    } else if k <= 0 {
        i
    } else {
        seen_at(line, k - 1, i + 1)
    }
}

fn locate(line: &[char], k: usize) -> (r: usize)
    ensures
        r == seen_at(line@, k as int, 0),
        r <= line@.len(),
{
    let mut left: usize = k;
    let mut in_escape = false;
    let mut i: usize = 0;
    while i < line.len()
        invariant
            i <= line@.len(),
            in_escape == escaping(line@, i as int),
            seen_at(line@, left as int, i as int) == seen_at(line@, k as int, 0),
        decreases line@.len() - i,
    {
        if line[i] == '\x1b' {
            in_escape = true;
        }
        if in_escape {
            if letter(line[i]) {
                in_escape = false;
            }
        } else if left == 0 {
            return i;
        } else {
            left -= 1;
        }
        i += 1;
    }
    i
}

/// The line with the characters seen from number `from` up to number `to` reversed.
pub open spec fn marked(line: Seq<char>, from: int, to: int) -> Seq<char> {
    let a = seen_at(line, from, 0);
    let last = seen_at(line, to - 1, 0);
    let b = if last < line.len() {
        last + 1
    } else {
        line.len() as int
    };
    if to <= from || a >= line.len() {
        line
    } else {
        line.take(a) + reversed(line.subrange(a, b)) + line.skip(b)
    }
}

proof fn lemma_seen_at(line: Seq<char>, k: int, i: int)
    requires
        0 <= i <= line.len(),
    ensures
        i <= seen_at(line, k, i) <= line.len(),
    decreases line.len() - i,
{
    if i < line.len() {
        if is_hidden(line, i) {
            lemma_seen_at(line, k, i + 1);
        } else if k > 0 {
            lemma_seen_at(line, k - 1, i + 1);
        }
    }
}

proof fn lemma_seen_order(line: Seq<char>, j: int, k: int, i: int)
    requires
        0 <= i <= line.len(),
        j <= k,
    ensures
        seen_at(line, j, i) <= seen_at(line, k, i),
    decreases line.len() - i,
{
    lemma_seen_at(line, j, i);
    lemma_seen_at(line, k, i);
    if i < line.len() {
        if is_hidden(line, i) {
            lemma_seen_order(line, j, k, i + 1);
        } else if j > 0 {
            lemma_seen_order(line, j - 1, k - 1, i + 1);
        }
    }
}

/// A mark adds nothing to a line but the sequences that switch reverse video on and off.
pub proof fn law_mark_keeps_text(line: Seq<char>, from: int, to: int)
    ensures
        marked(line, from, to) == line || exists|x: Seq<char>, y: Seq<char>, z: Seq<char>|
            line == x + y + z && marked(line, from, to) == #[trigger] (x + reversed(y) + z),
{
    let a = seen_at(line, from, 0);
    let last = seen_at(line, to - 1, 0);
    lemma_seen_at(line, from, 0);
    lemma_seen_at(line, to - 1, 0);
    if to > from {
        lemma_seen_order(line, from, to - 1, 0);
    }
    if to > from && a < line.len() {
        let b = if last < line.len() {
            last + 1
        } else {
            line.len() as int
        };
        let x = line.take(a);
        let y = line.subrange(a, b);
        let z = line.skip(b);
        assert(line =~= x + y + z);
        assert(marked(line, from, to) == x + reversed(y) + z);
    }
}

/// The characters seen in positions `i` to `j` of a line.
pub open spec fn seen_in(line: Seq<char>, i: int, j: int) -> Seq<char>
    decreases j - i,
{
    if j <= i {
        Seq::empty()
    } else if is_hidden(line, j - 1) {
        seen_in(line, i, j - 1)
    } else {
        seen_in(line, i, j - 1).push(line[j - 1])
    }
}

/// What a line reads.
pub open spec fn seen_text(line: Seq<char>) -> Seq<char> {
    seen_in(line, 0, line.len() as int)
}

proof fn lemma_seen_split(line: Seq<char>, i: int, m: int, j: int)
    requires
        i <= m <= j,
    ensures
        seen_in(line, i, j) == seen_in(line, i, m) + seen_in(line, m, j),
    decreases j - m,
{
    if m == j {
        assert(seen_in(line, i, m) + Seq::<char>::empty() =~= seen_in(line, i, m));
    } else {
        lemma_seen_split(line, i, m, j - 1);
        if !is_hidden(line, j - 1) {
            assert(seen_in(line, i, m) + seen_in(line, m, j - 1).push(line[j - 1]) =~= (seen_in(
                line,
                i,
                m,
            ) + seen_in(line, m, j - 1)).push(line[j - 1]));
        }
    }
}

proof fn lemma_seen_before(line: Seq<char>, k: int, i: int)
    requires
        0 <= i <= line.len(),
        0 <= k,
    ensures
        ({
            let p = seen_at(line, k, i);
            &&& i <= p <= line.len()
            &&& p < line.len() ==> !is_hidden(line, p) && seen_in(line, i, p).len() == k
            &&& p == line.len() ==> seen_in(line, i, p).len() <= k
        }),
    decreases line.len() - i,
{
    let p = seen_at(line, k, i);
    if i < line.len() {
        assert(seen_in(line, i, i + 1) == (if is_hidden(line, i) {
            Seq::<char>::empty()
        } else {
            Seq::<char>::empty().push(line[i])
        })) by {
            assert(seen_in(line, i, i) == Seq::<char>::empty());
        }
        if is_hidden(line, i) {
            lemma_seen_before(line, k, i + 1);
            lemma_seen_split(line, i, i + 1, p);
        } else if k > 0 {
            lemma_seen_before(line, k - 1, i + 1);
            lemma_seen_split(line, i, i + 1, p);
        }
    }
}

/// The place at which a mark begins, and the place behind its end.
pub open spec fn mark_bounds(line: Seq<char>, from: int, to: int) -> (int, int) {
    (seen_at(line, from, 0), seen_at(line, to - 1, 0) + 1)
}

/// A mark covers exactly the characters that it is meant for: those seen from number
/// `from` up to number `to`.
pub proof fn law_mark_covers(line: Seq<char>, from: int, to: int)
    requires
        0 <= from < to <= seen_text(line).len(),
    ensures
        ({
            let (a, b) = mark_bounds(line, from, to);
            &&& 0 <= a < b <= line.len()
            &&& marked(line, from, to) == line.take(a) + reversed(line.subrange(a, b))
                + line.skip(b)
            &&& seen_in(line, a, b) == seen_text(line).subrange(from, to)
        }),
{
    let n = line.len() as int;
    let (a, b) = mark_bounds(line, from, to);
    lemma_seen_before(line, from, 0);
    lemma_seen_before(line, to - 1, 0);
    lemma_seen_order(line, from, to - 1, 0);
    let last = b - 1;
    assert(last < n) by {
        if last == n {
            assert(seen_text(line).len() <= to - 1);
        }
    }
    lemma_seen_split(line, 0, a, n);
    lemma_seen_split(line, a, b, n);
    lemma_seen_split(line, 0, a, b);
    assert(seen_in(line, 0, b) == seen_in(line, 0, last).push(line[last]));
    let x = seen_in(line, 0, a);
    let y = seen_in(line, a, b);
    let z = seen_in(line, b, n);
    assert(seen_text(line) == x + (y + z));
    assert(x.len() == from);
    assert(y.len() == to - from);
    assert(seen_text(line).subrange(from, to) =~= y);
}

/// Where a line reads as its plain text, marking a token on it covers that token and
/// nothing else.
pub proof fn law_token_covered(line: Seq<char>, token: Seq<char>, pos: int)
    requires
        token.len() > 0,
        find_text(seen_text(line), token, 0) == Some(pos),
    ensures
        ({
            let (a, b) = mark_bounds(line, pos, pos + token.len());
            &&& token_marked(line, seen_text(line), token) == line.take(a) + reversed(
                line.subrange(a, b),
            ) + line.skip(b)
            &&& seen_in(line, a, b) == token
        }),
{
    lemma_find_text(seen_text(line), token, 0);
    law_mark_covers(line, pos, pos + token.len());
}

fn mark(line: &[char], from: usize, to: usize) -> (r: String)
    ensures
        r@ == marked(line@, from as int, to as int),
{
    let a = locate(line, from);
    if to <= from || a >= line.len() {
        return string_of(line);
    }
    proof {
        lemma_seen_order(line@, from as int, to - 1, 0);
    }
    let last = locate(line, to - 1);
    let b: usize = if last < line.len() {
        last + 1
    } else {
        line.len()
    };
    let head = part_string(line, 0, a);
    let body = part_string(line, a, b);
    let tail = part_string(line, b, line.len());
    assert(head@ =~= line@.take(a as int));
    assert(tail@ =~= line@.skip(b as int));
    concat3(head.as_str(), crust::style::reverse(body.as_str()).as_str(), tail.as_str())
}

// --- One line ---

/// A line that reads `plain`, with the first `token` on it marked.
pub open spec fn token_marked(line: Seq<char>, plain: Seq<char>, token: Seq<char>) -> Seq<char> {
    match find_text(plain, token, 0) {
        Some(pos) => marked(line, pos, pos + token.len()),
        None => line,
    }
}

pub fn mark_token(line: &str, plain: &str, token: &str) -> (r: String)
    ensures
        r@ == token_marked(line@, plain@, token@),
{
    let t = chars_of(token);
    let p = chars_of(plain);
    match find(&p, &t, 0) {
        Some(pos) => {
            let n: usize = p.len();
            mark(&chars_of(line), pos, pos + t.len())
        },
        None => line.to_string(),
    }
}

/// The place of a link on a line that reads `plain`: its text with its number directly
/// behind, or else its first text, up to and with its number where that follows.
pub open spec fn link_place(plain: Seq<char>, text: Seq<char>, index: int) -> Option<(int, int)> {
    let number = bracketed(decimal(index as nat));
    match find_text(plain, text + number, 0) {
        Some(pos) => Some((pos, pos + text.len() + number.len())),
        None => match find_text(plain, text, 0) {
            Some(pos) => match find_text(plain, number, pos) {
                Some(m) => Some((pos, m + number.len())),
                None => Some((pos, pos + text.len())),
            },
            None => None,
        },
    }
}

fn place_link(plain: &[char], text: &str, index: usize) -> (r: Option<(usize, usize)>)
    ensures
        match r {
            Some((from, to)) => link_place(plain@, text@, index as int) == Some(
                (from as int, to as int),
            ),
            None => link_place(plain@, text@, index as int) is None,
        },
{
    let n: usize = plain.len();
    let number = concat3("[", number(index).as_str(), "]");
    let t = chars_of(text);
    let m = chars_of(number.as_str());
    let both = chars_of(concat(text, number.as_str()).as_str());
    match find(plain, &both, 0) {
        Some(pos) => Some((pos, pos + both.len())),
        None => match find(plain, &t, 0) {
            Some(pos) => match find(plain, &m, pos) {
                Some(k) => Some((pos, k + m.len())),
                None => Some((pos, pos + t.len())),
            },
            None => None,
        },
    }
}

/// A line that reads `plain`, with a link on it marked.
pub open spec fn link_marked(
    line: Seq<char>,
    plain: Seq<char>,
    text: Seq<char>,
    index: int,
) -> Seq<char> {
    match link_place(plain, text, index) {
        Some((from, to)) => marked(line, from, to),
        None => line,
    }
}

pub fn mark_link(line: &str, plain: &str, text: &str, index: usize) -> (r: String)
    ensures
        r@ == link_marked(line@, plain@, text@, index as int),
{
    match place_link(&chars_of(plain), text, index) {
        Some((from, to)) => mark(&chars_of(line), from, to),
        None => line.to_string(),
    }
}

/// Where a line reads as its plain text and holds a link's text with its number directly
/// behind, marking the link covers just these.
pub proof fn law_link_covered(line: Seq<char>, text: Seq<char>, index: int, pos: int)
    requires
        find_text(seen_text(line), text + bracketed(decimal(index as nat)), 0) == Some(pos),
    ensures
        ({
            let whole = text + bracketed(decimal(index as nat));
            let (a, b) = mark_bounds(line, pos, pos + whole.len());
            &&& link_marked(line, seen_text(line), text, index) == line.take(a) + reversed(
                line.subrange(a, b),
            ) + line.skip(b)
            &&& seen_in(line, a, b) == whole
        }),
{
    let whole = text + bracketed(decimal(index as nat));
    reveal_strlit("[");
    lemma_find_text(seen_text(line), whole, 0);
    law_mark_covers(line, pos, pos + whole.len());
}

// --- Whole pages ---

/// The place at which line number `k` of `s[from..]` begins, counted from zero.
pub open spec fn line_begin(s: Seq<char>, k: int, from: int) -> Option<int>
    decreases s.len() - from,
    when 0 <= from <= s.len()
{
    let e = next_char(s, '\n', from);
    if from == s.len() {
        None
    } else if k <= 0 {
        Some(from)
    } else if from <= e < s.len() {
        line_begin(s, k - 1, e + 1)
    } else {
        None
    }
}

/// The place behind the line that begins at `a`: before the line feed, or the carriage
/// return and the line feed, that end it.
pub open spec fn line_end(s: Seq<char>, a: int) -> int {
    let e = next_char(s, '\n', a);
    if a < e < s.len() && s[e - 1] == '\r' {
        e - 1
    } else {
        e
    }
}

proof fn lemma_line_begin(s: Seq<char>, k: int, from: int)
    requires
        0 <= k,
        0 <= from <= s.len(),
    ensures
        match line_begin(s, k, from) {
            Some(a) => {
                &&& 0 <= a <= line_end(s, a) <= s.len()
                &&& k < lines_from(s, from).len()
                &&& s.subrange(a, line_end(s, a)) == lines_from(s, from)[k]
            },
            None => k >= lines_from(s, from).len(),
        },
    decreases s.len() - from,
{
    if from < s.len() {
        lemma_next_char(s, '\n', from);
        let e = next_char(s, '\n', from);
        let line = s.subrange(from, e);
        if k > 0 && e < s.len() {
            lemma_line_begin(s, k - 1, e + 1);
        }
        if e < s.len() {
            assert(line.len() > 0 ==> line.last() == s[e - 1]);
            assert(s.subrange(from, line_end(s, from)) =~= chomp(line));
        } else {
            assert(line =~= s.skip(from));
        }
    }
}

/// The lines of a text lie in it where they are looked for.
pub proof fn law_line_found(s: Seq<char>, k: int)
    requires
        0 <= k,
    ensures
        line_begin(s, k, 0) is Some <==> k < lines(s).len(),
        line_begin(s, k, 0) matches Some(a) ==> 0 <= a <= line_end(s, a) <= s.len()
            && s.subrange(a, line_end(s, a)) == lines(s)[k],
{
    lemma_line_begin(s, k, 0);
}

fn find_line(s: &[char], k: usize) -> (r: Option<(usize, usize)>)
    ensures
        match r {
            Some((a, b)) => line_begin(s@, k as int, 0) == Some(a as int) && b == line_end(
                s@,
                a as int,
            ) && a <= b <= s@.len(),
            None => line_begin(s@, k as int, 0) is None,
        },
{
    let mut left: usize = k;
    let mut from: usize = 0;
    while from < s.len()
        invariant
            from <= s@.len(),
            line_begin(s@, left as int, from as int) == line_begin(s@, k as int, 0),
        decreases s@.len() - from,
    {
        let e = find_char(s, '\n', from);
        if left == 0 {
            if from < e && e < s.len() && s[e - 1] == '\r' {
                return Some((from, e - 1));
            }
            return Some((from, e));
        }
        if e >= s.len() {
            return None;
        }
        left -= 1;
        from = e + 1;
    }
    None
}

/// `content` with `line` in place of what lies between `a` and `b`.
pub open spec fn line_replaced(content: Seq<char>, a: int, b: int, line: Seq<char>) -> Seq<char> {
    content.take(a) + line + content.skip(b)
}

fn replace_line(content: &[char], a: usize, b: usize, line: &str) -> (r: String)
    requires
        a <= b <= content@.len(),
    ensures
        r@ == line_replaced(content@, a as int, b as int, line@),
{
    let head = part_string(content, 0, a);
    let tail = part_string(content, b, content.len());
    assert(head@ =~= content@.take(a as int));
    assert(tail@ =~= content@.skip(b as int));
    concat3(head.as_str(), line, tail.as_str())
}

pub open spec fn token_highlighted(content: Seq<char>, target: int, token: Seq<char>) -> Seq<char> {
    match line_begin(content, target, 0) {
        Some(a) if token.len() > 0 => {
            let b = line_end(content, a);
            let line = content.subrange(a, b);
            line_replaced(content, a, b, token_marked(line, plain_text(line), token))
        },
        _ => content,
    }
}

/// Marks `token` on one line of a page, which stays as it is where the token is not on
/// that line.
pub fn highlight_token(content: &str, target_line: usize, token: &str) -> (r: String)
    ensures
        r@ == token_highlighted(content@, target_line as int, token@),
{
    if token.is_empty() {
        return content.to_string();
    }
    let s = chars_of(content);
    match find_line(&s, target_line) {
        Some((a, b)) => {
            let line = part_string(&s, a, b);
            let plain = crust::strip_ansi(line.as_str());
            let marked = mark_token(line.as_str(), plain.as_str(), token);
            replace_line(&s, a, b, marked.as_str())
        },
        None => content.to_string(),
    }
}

pub open spec fn link_highlighted(content: Seq<char>, links: Seq<LinkView>, focus: int) -> Seq<
    char,
> {
    if 0 <= focus < links.len() {
        let link = links[focus];
        match line_begin(content, link.line, 0) {
            Some(a) => {
                let b = line_end(content, a);
                let line = content.subrange(a, b);
                line_replaced(
                    content,
                    a,
                    b,
                    link_marked(line, plain_text(line), link.text, link.index),
                )
            },
            None => content,
        }
    } else {
        content
    }
}

/// Marks one link of a page, which stays as it is where the link is not on its line.
pub fn highlight_link(content: &str, links: &[Link], focus_idx: usize) -> (r: String)
    ensures
        r@ == link_highlighted(content@, views(links@), focus_idx as int),
{
    if focus_idx >= links.len() {
        return content.to_string();
    }
    let link = &links[focus_idx];
    assert(views(links@)[focus_idx as int] == link@);
    let s = chars_of(content);
    match find_line(&s, link.line) {
        Some((a, b)) => {
            let line = part_string(&s, a, b);
            let plain = crust::strip_ansi(line.as_str());
            let marked = mark_link(line.as_str(), plain.as_str(), link.text.as_str(), link.index);
            replace_line(&s, a, b, marked.as_str())
        },
        None => content.to_string(),
    }
}

proof fn lemma_same_line(content: Seq<char>, a: int, b: int)
    requires
        0 <= a <= b <= content.len(),
    ensures
        line_replaced(content, a, b, content.subrange(a, b)) == content,
{
    assert(line_replaced(content, a, b, content.subrange(a, b)) =~= content);
}

/// Where the token is not on the line, the page stays as it is, to the last character.
pub proof fn law_absent_token(content: Seq<char>, target: int, token: Seq<char>)
    requires
        0 <= target,
        target < lines(content).len() ==> find_text(
            plain_text(lines(content)[target]),
            token,
            0,
        ) is None,
    ensures
        token_highlighted(content, target, token) == content,
{
    law_line_found(content, target);
    if let Some(a) = line_begin(content, target, 0) {
        lemma_same_line(content, a, line_end(content, a));
    }
}

/// Where a link's text is not on its line, the page stays as it is, to the last character.
pub proof fn law_absent_link(content: Seq<char>, links: Seq<LinkView>, focus: int)
    requires
        0 <= focus < links.len() ==> 0 <= links[focus].line,
        0 <= focus < links.len() && links[focus].line < lines(content).len() ==> link_place(
            plain_text(lines(content)[links[focus].line]),
            links[focus].text,
            links[focus].index,
        ) is None,
    ensures
        link_highlighted(content, links, focus) == content,
{
    if 0 <= focus < links.len() {
        law_line_found(content, links[focus].line);
        if let Some(a) = line_begin(content, links[focus].line, 0) {
            lemma_same_line(content, a, line_end(content, a));
        }
    }
}

} // verus!
