//! The scripts of a page, in document order.

use vstd::prelude::*;
use crate::strmap::StrMap;
use crate::tab::{lemma_views_push, views};
use crate::table::byte_len;
use crate::text::{
    chars_of, find, find_char, find_text, first_where, is_white, lemma_find_text,
    lemma_next_char, lower_chars, lowered, next_char, part, part_string, string_of, trim,
    trim_left, trim_left_chars, trimmed, white,
};

verus! {

broadcast use vstd::string::group_string_axioms;

/// The position at which an attribute value without quotes ends.
pub open spec fn bare_end(s: Seq<char>) -> int {
    first_where(s, |c: char| c == '>' || is_white(c), 0)
}

fn find_bare_end(s: &[char]) -> (r: usize)
    ensures
        r == bare_end(s@),
        r <= s@.len(),
{
    let ghost p = |c: char| c == '>' || is_white(c);
    let mut i: usize = 0;
    while i < s.len()
        invariant
            i <= s@.len(),
            p == (|c: char| c == '>' || is_white(c)),
            first_where(s@, p, i as int) == first_where(s@, p, 0),
        decreases s@.len() - i,
    {
        assert(p(s@[i as int]) == (s@[i as int] == '>' || is_white(s@[i as int])));
        if s[i] == '>' || white(s[i]) {
            return i;
        }
        i += 1;
    }
    i
}

/// An attribute value that begins the text, in quotes or bare.
pub open spec fn leading_value(rest: Seq<char>) -> Seq<char> {
    if rest.len() > 0 && (rest[0] == '"' || rest[0] == '\'') {
        let tail = rest.skip(1);
        tail.take(next_char(tail, rest[0], 0))
    } else {
        rest.take(bare_end(rest))
    }
}

/// What may stand before the name of an attribute.
pub open spec fn is_gap(c: char) -> bool {
    is_white(c) || c == '"' || c == '\'' || c == '/'
}

/// The place at or after `from` of an attribute with the name `src` and its sign of
/// equality; a longer name that ends so is another attribute.
pub open spec fn src_at(lower: Seq<char>, from: int) -> Option<int>
    decreases lower.len() + 1 - from,
    when 0 <= from
{
    match find_text(lower, "src="@, from) {
        Some(pos) => if pos == 0 || is_gap(lower[pos - 1]) {
            Some(pos)
        } else if from <= pos < lower.len() {
            src_at(lower, pos + 1)
        } else {
            None
        },
        None => None,
    }
}

fn find_src(lower: &[char]) -> (r: Option<usize>)
    ensures
        match r {
            Some(pos) => src_at(lower@, 0) == Some(pos as int) && pos + 4 <= lower@.len(),
            None => src_at(lower@, 0) is None,
        },
{
    let key = chars_of("src=");
    proof {
        reveal_strlit("src=");
    }
    let mut from: usize = 0;
    while from < lower.len()
        invariant
            from <= lower@.len(),
            key@ == "src="@,
            "src="@.len() == 4,
            src_at(lower@, from as int) == src_at(lower@, 0),
        decreases lower@.len() - from,
    {
        match find(lower, &key, from) {
            Some(pos) => {
                proof {
                    lemma_find_text(lower@, key@, from as int);
                }
                if pos == 0 || white(lower[pos - 1]) || lower[pos - 1] == '"' || lower[pos - 1]
                    == '\'' || lower[pos - 1] == '/' {
                    return Some(pos);
                }
                from = pos + 1;
            },
            None => {
                return None;
            },
        }
    }
    proof {
        lemma_find_text(lower@, key@, from as int);
    }
    None
}

/// The source that an opening tag names; an empty one counts as none.
pub open spec fn src_attr(tag: Seq<char>) -> Option<Seq<char>> {
    match src_at(lowered(tag), 0) {
        Some(pos) => {
            let value = leading_value(trim_left(tag.skip(pos + 4)));
            if value.len() == 0 {
                None
            } else {
                Some(value)
            }
        },
        None => None,
    }
}

pub fn parse_src_attr(opening_tag: &str) -> (r: Option<String>)
    ensures
        match r {
            Some(v) => src_attr(opening_tag@) == Some(v@),
            None => src_attr(opening_tag@) is None,
        },
{
    let tag = chars_of(opening_tag);
    let lower = lower_chars(&tag);
    match find_src(&lower) {
        Some(pos) => {
            let n: usize = tag.len();
            let after = part(&tag, pos + 4, n);
            assert(after@ =~= opening_tag@.skip(pos + 4));
            let rest = trim_left_chars(&after);
            let value = if rest.len() > 0 && (rest[0] == '"' || rest[0] == '\'') {
                let tail = part(&rest, 1, rest.len());
                assert(tail@ =~= rest@.skip(1));
                let end = find_char(&tail, rest[0], 0);
                let v = part(&tail, 0, end);
                assert(v@ =~= tail@.take(end as int));
                v
            } else {
                let end = find_bare_end(&rest);
                let v = part(&rest, 0, end);
                assert(v@ =~= rest@.take(end as int));
                v
            };
            if value.len() == 0 {
                None
            } else {
                Some(string_of(&value))
            }
        },
        None => None,
    }
}

/// The most bytes of script that a page may bring.
pub const MAX_TOTAL_BYTES: usize = 4194304;

/// The first script element at or after `i`: the bounds of its opening tag and of its body.
pub open spec fn next_script(html: Seq<char>, i: int) -> Option<(int, int, int)> {
    let lower = lowered(html);
    match find_text(lower, "<script"@, i) {
        Some(s) => {
            let tag_end = next_char(lower, '>', s);
            if tag_end >= html.len() {
                None
            } else {
                match find_text(lower, "</script>"@, tag_end + 1) {
                    Some(close) => Some((s, tag_end + 1, close)),
                    None => None,
                }
            }
        },
        None => None,
    }
}

pub proof fn lemma_next_script(html: Seq<char>, i: int)
    requires
        0 <= i,
    ensures
        next_script(html, i) matches Some((s, b, c)) ==> i <= s < b <= c && c + 9 <= html.len(),
{
    reveal_strlit("</script>");
    reveal_strlit("<script");
    let lower = lowered(html);
    if i <= lower.len() {
        lemma_find_text(lower, "<script"@, i);
        if let Some(s) = find_text(lower, "<script"@, i) {
            lemma_next_char(lower, '>', s);
            let t = next_char(lower, '>', s);
            if t < html.len() {
                lemma_find_text(lower, "</script>"@, t + 1);
            }
        }
    }
}

/// The bodies of the scripts at or after `i`, where `total` bytes came before: those that
/// name no source and are not blank, up to the first that would exceed the limit.
pub open spec fn scripts_from(html: Seq<char>, i: int, total: int) -> Seq<Seq<char>>
    decreases html.len() - i,
    when 0 <= i
{
    proof {
        lemma_next_script(html, i);
    }
    match next_script(html, i) {
        Some((s, b, c)) => {
            let body = html.subrange(b, c);
            if src_attr(html.subrange(s, b)) is Some || trim(body).len() == 0 {
                scripts_from(html, c + 9, total)
            } else if total + byte_len(body) > MAX_TOTAL_BYTES {
                Seq::empty()
            } else {
                seq![body] + scripts_from(html, c + 9, total + byte_len(body))
            }
        },
        None => Seq::empty(),
    }
}

fn find_script(html: &[char], lower: &[char], i: usize) -> (r: Option<(usize, usize, usize)>)
    requires
        lower@ == lowered(html@),
    ensures
        match r {
            Some((s, b, c)) => next_script(html@, i as int) == Some((s as int, b as int, c as int))
                && i <= s < b <= c && c + 9 <= html@.len(),
            None => next_script(html@, i as int) is None,
        },
{
    proof {
        lemma_next_script(html@, i as int);
        reveal_strlit("<script");
    }
    let s = match find(lower, &chars_of("<script"), i) {
        Some(s) => s,
        None => {
            return None;
        },
    };
    let n: usize = lower.len();
    let tag_end = find_char(lower, '>', s);
    if tag_end >= n {
        return None;
    }
    match find(lower, &chars_of("</script>"), tag_end + 1) {
        Some(close) => Some((s, tag_end + 1, close)),
        None => None,
    }
}

/// The bodies of a page's inline scripts.
pub fn extract_scripts_in_order(
    html: &str,
    _page_url: &str,
    _cookies: &StrMap<String>,
) -> (r: Vec<String>)
    ensures
        views(r@) == scripts_from(html@, 0, 0),
{
    let h = chars_of(html);
    let lower = lower_chars(&h);
    let n: usize = h.len();
    let mut out: Vec<String> = Vec::new();
    let mut total: usize = 0;
    let mut i: usize = 0;
    assert(views(out@) =~= Seq::empty());
    assert(views(out@) + scripts_from(html@, 0, 0) =~= scripts_from(html@, 0, 0));
    loop
        invariant
            h@ == html@,
            n == h@.len(),
            lower@ == lowered(html@),
            total <= MAX_TOTAL_BYTES,
            views(out@) + scripts_from(html@, i as int, total as int) == scripts_from(html@, 0, 0),
            i <= html@.len(),
        decreases html@.len() - i,
    {
        let (s, b, c) = match find_script(&h, &lower, i) {
            Some(bounds) => bounds,
            None => {
                assert(views(out@) + Seq::<Seq<char>>::empty() =~= views(out@));
                return out;
            },
        };
        let opening = part_string(&h, s, b);
        let body = part_string(&h, b, c);
        if parse_src_attr(opening.as_str()).is_none() && !trimmed(body.as_str()).as_str().is_empty() {
            let size: usize = body.as_str().len();
            if size > MAX_TOTAL_BYTES - total {
                assert(views(out@) + Seq::<Seq<char>>::empty() =~= views(out@));
                return out;
            }
            let ghost before = views(out@);
            proof {
                lemma_views_push(out@, body);
            }
            let ghost text = body@;
            out.push(body);
            assert(before.push(text) + scripts_from(html@, c + 9, total + size) =~= before + (
            seq![text] + scripts_from(html@, c + 9, total + size)));
            total = total + size;
        }
        i = c + 9;
    }
}

pub open spec fn total_bytes(scripts: Seq<Seq<char>>) -> int
    decreases scripts.len(),
{
    if scripts.len() == 0 {
        0
    } else {
        byte_len(scripts[0]) + total_bytes(scripts.drop_first())
    }
}

/// A page brings no more script than the limit, and no blank script.
pub proof fn law_scripts_bounded(html: Seq<char>, i: int, total: int)
    requires
        0 <= i,
        0 <= total <= MAX_TOTAL_BYTES,
    ensures
        total + total_bytes(scripts_from(html, i, total)) <= MAX_TOTAL_BYTES,
        forall|k: int|
            0 <= k < scripts_from(html, i, total).len() ==> trim(
                #[trigger] scripts_from(html, i, total)[k],
            ).len() > 0,
    decreases html.len() - i,
{
    lemma_next_script(html, i);
    if let Some((s, b, c)) = next_script(html, i) {
        let body = html.subrange(b, c);
        if src_attr(html.subrange(s, b)) is Some || trim(body).len() == 0 {
            law_scripts_bounded(html, c + 9, total);
        } else if total + byte_len(body) <= MAX_TOTAL_BYTES {
            let rest = scripts_from(html, c + 9, total + byte_len(body));
            law_scripts_bounded(html, c + 9, total + byte_len(body));
            let all = scripts_from(html, i, total);
            assert(all.drop_first() =~= rest);
            assert forall|k: int| 0 <= k < all.len() implies trim(#[trigger] all[k]).len() > 0 by {
                if k > 0 {
                    assert(all[k] == rest[k - 1]);
                }
            }
        }
    }
}

} // verus!
