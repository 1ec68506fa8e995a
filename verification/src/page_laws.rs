//! What a page shows of its elements.

use vstd::prelude::*;
use crate::address::{resolved, url_joined};
use crate::canvas::{appended, blanked, newlined, word_added, words_added, ListType, PageView};
use crate::config::ConfigView;
use crate::dom::{
    attr_of, attr_or, end_of, holds, is_named, lemma_rise, text_in, text_of, ItemView, NodeView,
};
use crate::number::decimal;
use crate::render_laws::{
    begins, carried, forms_kept, found, has_part, law_text_shown, law_walk_keeps,
    lemma_anchor_images, lemma_appended, lemma_blanked, lemma_children, lemma_form_begun,
    lemma_mark, lemma_newlined, lemma_painted, lemma_part_in, lemma_part_of_part,
    lemma_pieces_read, lemma_reads, lemma_words_read, parts_of, reads,
};
use crate::renderer::{
    anchor_images, attr_number, bracketed, button_label, children_shown, element_shown, form_begun,
    heading_color, image_lines, image_shown, item_begun, kind_of, leads, link_mark, list_closed,
    list_opened, options_in, or_text, page_shown, pieces_shown, rendered, spaced, squeezed, tag_at,
    text_shown, walked, Kind, ParsedPage,
};
use crate::style::{emboldened, painted, slanted, underlined, width_of};
use crate::tab::FieldView;
use crate::table::{
    border, box_width, cells_in, cells_listed, collapsed, column_widths, has_content, line_added,
    padded, row_to, rows_drawn, rows_in, rows_listed,
};
use crate::text::{
    find_text, is_white, is_word, join, lemma_first_where, lemma_next_char, lowercase_of,
    next_char, next_in, next_nonwhite, next_white, repeated, split, split_from, stands_at, starts,
    trim, trim_left, trimmed_end, uppercase_of, words, words_from,
};

verus! {

broadcast use vstd::string::group_string_axioms;

// --- Words in texts ---

/// White space around a text does not touch its words.
pub proof fn lemma_trim_part(s: Seq<char>, w: Seq<char>)
    requires
        is_word(w),
        has_part(s, w),
    ensures
        has_part(trim(s), w),
{
    let i = choose|i: int| stands_at(s, w, i);
    let a = next_nonwhite(s, 0);
    let l = trim_left(s);
    lemma_first_where(s, |x: char| !is_white(x), 0);
    assert(s[i] == w[0]) by {
        assert(s.subrange(i, i + w.len())[0] == s[i]);
    }
    assert(a <= i);
    assert(l.subrange(i - a, i - a + w.len()) =~= s.subrange(i, i + w.len()));
    assert(stands_at(l, w, i - a));
    let n = w.len() as int;
    let last = i - a + n - 1;
    assert(l[last] == w[n - 1]) by {
        assert(l.subrange(i - a, i - a + n)[n - 1] == l[last]);
    }
    lemma_trimmed_end(l, l.len() as int, last);
    let r = trim(s);
    assert(r.subrange(i - a, i - a + n) =~= l.subrange(i - a, i - a + n));
    assert(stands_at(r, w, i - a));
}

proof fn lemma_trimmed_end(s: Seq<char>, end: int, k: int)
    requires
        0 <= k < end <= s.len(),
        !is_white(s[k]),
    ensures
        k < trimmed_end(s, end) <= end,
    decreases end,
{
    if is_white(s[end - 1]) {
        lemma_trimmed_end(s, end - 1, k);
    }
}

proof fn lemma_words_part_from(s: Seq<char>, w: Seq<char>, i: int, from: int) -> (k: int)
    requires
        is_word(w),
        stands_at(s, w, i),
        0 <= from <= i,
    ensures
        0 <= k < words_from(s, from).len(),
        has_part(words_from(s, from)[k], w),
    decreases s.len() - from,
{
    let n = w.len() as int;
    let a = next_nonwhite(s, from);
    lemma_first_where(s, |x: char| !is_white(x), from);
    assert forall|j: int| 0 <= j < n implies s[i + j] == #[trigger] w[j] by {
        assert(s.subrange(i, i + n)[j] == s[i + j]);
    }
    assert(s[i + 0] == w[0]);
    assert(a <= i);
    let b = next_white(s, a);
    lemma_first_where(s, |x: char| is_white(x), a);
    let all = words_from(s, from);
    assert(all == seq![s.subrange(a, b)] + words_from(s, b));
    if i < b {
        assert(i + n <= b) by {
            if b < i + n {
                assert(s[i + (b - i)] == w[b - i]);
            }
        }
        let word = s.subrange(a, b);
        assert(word.subrange(i - a, i - a + n) =~= s.subrange(i, i + n));
        assert(stands_at(word, w, i - a));
        assert(all[0] == word);
        0
    } else {
        let k = lemma_words_part_from(s, w, i, b);
        assert(all[k + 1] == words_from(s, b)[k]);
        k + 1
    }
}

/// What stands in a text without white space stands in one of its words.
pub proof fn lemma_words_part(s: Seq<char>, w: Seq<char>) -> (k: int)
    requires
        is_word(w),
        has_part(s, w),
    ensures
        0 <= k < words(s).len(),
        has_part(words(s)[k], w),
{
    let i = choose|i: int| stands_at(s, w, i);
    lemma_words_part_from(s, w, i, 0)
}

proof fn lemma_split_part_from(s: Seq<char>, w: Seq<char>, c: char, i: int, from: int) -> (k: int)
    requires
        w.len() > 0,
        !w.contains(c),
        stands_at(s, w, i),
        0 <= from <= i,
    ensures
        0 <= k < split_from(s, c, from).len(),
        has_part(split_from(s, c, from)[k], w),
    decreases s.len() - from,
{
    let n = w.len() as int;
    let e = next_char(s, c, from);
    lemma_next_char(s, c, from);
    let all = split_from(s, c, from);
    if e < s.len() && e < i + n {
        if e >= i {
            assert(s.subrange(i, i + n)[e - i] == s[e]);
            assert(w[e - i] == c);
            assert(w.contains(c));
        }
        let k = lemma_split_part_from(s, w, c, i, e + 1);
        assert(all[k + 1] == split_from(s, c, e + 1)[k]);
        k + 1
    } else {
        let piece = all[0];
        assert(piece.subrange(i - from, i - from + n) =~= s.subrange(i, i + n));
        assert(stands_at(piece, w, i - from));
        0
    }
}

/// What stands in a text without the character `c` stands in one of the pieces between
/// those characters.
pub proof fn lemma_split_part(s: Seq<char>, w: Seq<char>, c: char) -> (k: int)
    requires
        w.len() > 0,
        !w.contains(c),
        has_part(s, w),
    ensures
        0 <= k < split(s, c).len(),
        has_part(split(s, c)[k], w),
{
    let i = choose|i: int| stands_at(s, w, i);
    lemma_split_part_from(s, w, c, i, 0)
}

proof fn lemma_word_at_end(s: Seq<char>, w: Seq<char>)
    requires
        is_word(w),
        w.len() <= s.len(),
        s.skip(s.len() - w.len()) == w,
    ensures
        w.len() <= collapsed(s).len(),
        collapsed(s).skip(collapsed(s).len() - w.len()) == w,
    decreases w.len(),
{
    let n = w.len() as int;
    assert(s.last() == w[n - 1]) by {
        assert(s.skip(s.len() - n)[n - 1] == s.last());
    }
    let d = s.drop_last();
    let v = w.drop_last();
    let c = collapsed(s);
    assert(c == collapsed(d).push(s.last()));
    if n > 1 {
        assert(d.skip(d.len() - v.len()) =~= v) by {
            assert forall|j: int| 0 <= j < v.len() implies d[d.len() - v.len() + j]
                == #[trigger] v[j] by {
                assert(s.skip(s.len() - n)[j] == w[j]);
            }
        }
        assert forall|j: int| 0 <= j < v.len() implies !is_white(#[trigger] v[j]) by {
            assert(v[j] == w[j]);
        }
        lemma_word_at_end(d, v);
        let e = collapsed(d);
        assert forall|j: int| 0 <= j < n implies c[c.len() - n + j] == #[trigger] w[j] by {
            if j < n - 1 {
                assert(e.skip(e.len() - v.len())[j] == v[j]);
            }
        }
    }
    assert(c.skip(c.len() - n) =~= w);
}

/// Collapsing white space does not touch words.
pub proof fn lemma_collapsed_part(s: Seq<char>, w: Seq<char>)
    requires
        is_word(w),
        has_part(s, w),
    ensures
        has_part(collapsed(s), w),
    decreases s.len(),
{
    let i = choose|i: int| stands_at(s, w, i);
    let n = w.len() as int;
    let c = collapsed(s);
    if i + n == s.len() {
        assert(s.skip(s.len() - n) =~= s.subrange(i, i + n));
        lemma_word_at_end(s, w);
        assert(c.subrange(c.len() - n, c.len() as int) =~= c.skip(c.len() - n));
        assert(stands_at(c, w, c.len() - n));
    } else {
        let d = s.drop_last();
        assert(d.subrange(i, i + n) =~= s.subrange(i, i + n));
        assert(stands_at(d, w, i));
        lemma_collapsed_part(d, w);
        let e = collapsed(d);
        let j = choose|j: int| stands_at(e, w, j);
        assert(c.subrange(j, j + n) =~= e.subrange(j, j + n));
        assert(stands_at(c, w, j));
    }
}

pub proof fn lemma_joined_part(v: Seq<Seq<char>>, sep: Seq<char>, k: int)
    requires
        0 <= k < v.len(),
    ensures
        has_part(join(v, sep), v[k]),
    decreases v.len(),
{
    let j = join(v, sep);
    if v.len() == 1 {
        assert(j.subrange(0, j.len() as int) =~= j);
        assert(stands_at(j, v[k], 0));
    } else {
        let d = v.drop_last();
        if k == v.len() - 1 {
            lemma_part_in(join(d, sep) + sep, v[k], Seq::empty());
            assert(join(d, sep) + sep + v[k] + Seq::<char>::empty() =~= j);
        } else {
            lemma_joined_part(d, sep, k);
            lemma_part_in(Seq::empty(), join(d, sep), sep + v.last());
            assert(Seq::<char>::empty() + join(d, sep) + (sep + v.last()) =~= j);
            lemma_part_of_part(j, join(d, sep), v[k]);
        }
    }
}

proof fn lemma_text_in_part(d: Seq<ItemView>, a: int, b: int, k: int)
    requires
        a <= k < b,
        d[k].node is Text,
    ensures
        has_part(text_in(d, a, b), d[k].node->Text_0),
    decreases b - a,
{
    let t = d[k].node->Text_0;
    let s = text_in(d, a, b);
    if k == b - 1 {
        lemma_part_in(text_in(d, a, b - 1), t, Seq::empty());
        assert(text_in(d, a, b - 1) + t + Seq::<char>::empty() =~= s);
    } else {
        lemma_text_in_part(d, a, b - 1, k);
        let before = text_in(d, a, b - 1);
        let after = match d[b - 1].node {
            NodeView::Text(x) => x,
            _ => Seq::empty(),
        };
        lemma_part_in(Seq::empty(), before, after);
        assert(Seq::<char>::empty() + before + after =~= s);
        lemma_part_of_part(s, before, t);
    }
}

// --- Text on the page ---

/// Something on a page is on every page that it grows to.
pub proof fn lemma_found(p: PageView, q: PageView, w: Seq<char>)
    requires
        carried(p, q),
        found(p, w),
    ensures
        found(q, w),
{
    let line = choose|line: int| reads(p, line, w);
    lemma_reads(p, q, line, w);
}

/// What is in something that is on the page is on the page.
pub proof fn lemma_found_part(p: PageView, t: Seq<char>, w: Seq<char>)
    requires
        found(p, t),
        has_part(t, w),
    ensures
        found(p, w),
{
    let line = choose|line: int| reads(p, line, t);
    if 0 <= line < p.lines.len() && has_part(p.lines[line], t) {
        lemma_part_of_part(p.lines[line], t, w);
    } else {
        lemma_part_of_part(p.line, t, w);
    }
    assert(reads(p, line, w));
}

proof fn lemma_appended_found(p: PageView, shown: Seq<char>, w: Seq<char>)
    requires
        has_part(shown, w),
    ensures
        found(appended(p, shown), w),
{
    let q = appended(p, shown);
    lemma_appended(p, shown);
    assert(reads(q, q.lines.len() as int, shown));
    lemma_found_part(q, shown, w);
}

proof fn lemma_text_found(p: PageView, t: Seq<char>, w: Seq<char>)
    requires
        is_word(w),
        has_part(t, w),
    ensures
        found(text_shown(p, t), w),
{
    let q = text_shown(p, t);
    if p.in_pre {
        let pieces = split(t, '\n');
        assert(!w.contains('\n'));
        let k = lemma_split_part(t, w, '\n');
        lemma_pieces_read(p, pieces);
        assert(found(pieces_shown(p, pieces), pieces[k]));
        lemma_found_part(q, pieces[k], w);
    } else {
        let c = collapsed(t);
        lemma_collapsed_part(t, w);
        let k = lemma_words_part(c, w);
        let all = words(c);
        lemma_words_read(p, all);
        assert(found(words_added(p, all), all[k]));
        lemma_found_part(q, all[k], w);
    }
}

/// Whether node `i` keeps the text under it off the page: what is no content, what has no
/// text or shows another one in its place, an image in a link, and a table of data, whose
/// cells are shown and nothing else.
pub open spec fn hides_text(d: Seq<ItemView>, i: int) -> bool {
    let tag = tag_at(d, i);
    ||| tag == "script"@ || tag == "style"@ || tag == "noscript"@ || tag == "svg"@
    ||| tag == "head"@ || tag == "meta"@ || tag == "link"@
    ||| tag == "br"@ || tag == "hr"@ || tag == "img"@ || tag == "iframe"@
    ||| tag == "input"@ || tag == "select"@ || tag == "textarea"@
    ||| tag == "a"@ && holds(d, i, "img"@)
    ||| tag == "table"@ && holds(d, i, "th"@) && !holds(d, i, "table"@)
}

/// The text node `k` lies under no node from `j` on that keeps its text off the page.
pub open spec fn in_sight(d: Seq<ItemView>, j: int, k: int) -> bool {
    d[k].node is Text && forall|i: int|
        j <= i < k && k < #[trigger] end_of(d, i) ==> d[i].node is Element && !hides_text(d, i)
}

proof fn lemma_whole_text(p: PageView, text: Seq<char>, w: Seq<char>)
    requires
        has_part(text, w),
    ensures
        found(appended(p, painted(text, 186)), w),
        found(appended(p, painted(text, 240)), w),
        found(appended(p, emboldened(text)), w),
        found(appended(p, slanted(text)), w),
        found(appended(p, underlined(text)), w),
{
    lemma_painted(text, 186);
    lemma_painted(text, 240);
    lemma_part_of_part(painted(text, 186), text, w);
    lemma_part_of_part(painted(text, 240), text, w);
    lemma_styled(text);
    lemma_part_of_part(emboldened(text), text, w);
    lemma_part_of_part(slanted(text), text, w);
    lemma_part_of_part(underlined(text), text, w);
    lemma_appended_found(p, painted(text, 186), w);
    lemma_appended_found(p, painted(text, 240), w);
    lemma_appended_found(p, emboldened(text), w);
    lemma_appended_found(p, slanted(text), w);
    lemma_appended_found(p, underlined(text), w);
}

proof fn lemma_styled(text: Seq<char>)
    ensures
        has_part(emboldened(text), text),
        has_part(slanted(text), text),
        has_part(underlined(text), text),
{
    lemma_part_in("\x1b[1m"@, text, "\x1b[22m"@);
    lemma_part_in("\x1b[3m"@, text, "\x1b[23m"@);
    lemma_part_in("\x1b[4m"@, text, "\x1b[24m"@);
}

/// Every run of characters without white space in a text that is in sight stands whole on
/// a line of the page, whatever elements the text lies under.
pub proof fn law_text_reaches_page(
    d: Seq<ItemView>,
    j: int,
    stop: int,
    p: PageView,
    k: int,
    w: Seq<char>,
)
    requires
        0 <= j <= k < stop,
        k < d.len(),
        in_sight(d, j, k),
        is_word(w),
        has_part(d[k].node->Text_0, w),
    ensures
        found(walked(d, j, stop, p), w),
    decreases d.len() - j, 3int,
{
    let e = end_of(d, j);
    lemma_rise(d, d[j].depth, j + 1);
    let q = match d[j].node {
        NodeView::Text(t) => text_shown(p, t),
        NodeView::Element { name, .. } => element_shown(d, j, p),
        NodeView::Other => p,
    };
    assert(walked(d, j, stop, p) == walked(d, e, stop, q));
    if k == j {
        lemma_text_found(p, d[k].node->Text_0, w);
        law_walk_keeps(d, e, stop, q);
        lemma_found(q, walked(d, e, stop, q), w);
    } else if k < e {
        assert(d[j].node is Element);
        law_element_text(d, j, p, k, w);
        law_walk_keeps(d, e, stop, q);
        lemma_found(q, walked(d, e, stop, q), w);
    } else {
        law_text_reaches_page(d, e, stop, q, k, w);
    }
}

proof fn lemma_children_found(d: Seq<ItemView>, i: int, p: PageView, k: int, w: Seq<char>)
    requires
        0 <= i < k < end_of(d, i),
        k < d.len(),
        in_sight(d, i, k),
        is_word(w),
        has_part(d[k].node->Text_0, w),
    ensures
        found(children_shown(d, i, p), w),
    decreases d.len() - i, 1int,
{
    law_text_reaches_page(d, i + 1, end_of(d, i), p, k, w);
}

proof fn lemma_label_found(
    p: PageView,
    label: Seq<char>,
    color: u8,
    mark: Seq<char>,
    w: Seq<char>,
)
    requires
        has_part(label, w),
    ensures
        found(appended(p, underlined(painted(label, color)) + mark), w),
{
    let inner = painted(label, color);
    let shown = underlined(inner);
    lemma_painted(label, color);
    lemma_styled(inner);
    lemma_part_of_part(shown, inner, label);
    lemma_part_of_part(shown, label, w);
    lemma_part_in(Seq::empty(), shown, mark);
    assert(Seq::<char>::empty() + shown + mark =~= shown + mark);
    lemma_part_of_part(shown + mark, shown, w);
    lemma_appended_found(p, shown + mark, w);
}

/// Every run of characters without white space in a text that is in sight under an element
/// stands whole on a line of the page that the element leaves.
pub proof fn law_element_text(d: Seq<ItemView>, i: int, p: PageView, k: int, w: Seq<char>)
    requires
        0 <= i < k < end_of(d, i),
        k < d.len(),
        d[i].node is Element,
        in_sight(d, i, k),
        is_word(w),
        has_part(d[k].node->Text_0, w),
    ensures
        found(element_shown(d, i, p), w),
    decreases d.len() - i, 2int,
{
    let n = d[i].node;
    let t = d[k].node->Text_0;
    let text = text_of(d, i);
    assert(!hides_text(d, i)) by {
        assert(end_of(d, i) == end_of(d, i));
    }
    lemma_text_in_part(d, i, end_of(d, i), k);
    lemma_part_of_part(text, t, w);
    lemma_trim_part(text, w);
    let short = trim(text);
    assert(short.len() > 0) by {
        let x = choose|x: int| stands_at(short, w, x);
    }
    match kind_of(tag_at(d, i)) {
        Kind::Heading(level) => lemma_heading_found(p, level, short, w),
        Kind::Block => {
            let q = children_shown(d, i, blanked(p));
            lemma_children_found(d, i, blanked(p), k, w);
            lemma_blanked(q);
            lemma_found(q, blanked(q), w);
        },
        Kind::Quote => {
            let q = blanked(p);
            let opened = PageView { indent: crate::canvas::sum(q.indent, 2), ..q };
            let inner = children_shown(d, i, opened);
            let closed = PageView { indent: q.indent, ..inner };
            lemma_children_found(d, i, opened, k, w);
            lemma_found(inner, closed, w);
            lemma_blanked(closed);
            lemma_found(closed, blanked(closed), w);
        },
        Kind::Pre => {
            let q = blanked(p);
            let opened = PageView { in_pre: true, ..q };
            let inner = children_shown(d, i, opened);
            let closed = PageView { in_pre: q.in_pre, ..inner };
            lemma_children_found(d, i, opened, k, w);
            lemma_found(inner, closed, w);
            lemma_blanked(closed);
            lemma_found(closed, blanked(closed), w);
        },
        Kind::Code => lemma_whole_text(p, text, w),
        Kind::Bullets => {
            let opened = list_opened(p, ListType::Unordered);
            let inner = children_shown(d, i, opened);
            lemma_children_found(d, i, opened, k, w);
            lemma_found(inner, list_closed(inner, blanked(p).indent), w);
        },
        Kind::Numbers => {
            let opened = list_opened(p, ListType::Ordered(1));
            let inner = children_shown(d, i, opened);
            lemma_children_found(d, i, opened, k, w);
            lemma_found(inner, list_closed(inner, blanked(p).indent), w);
        },
        Kind::Item => lemma_children_found(d, i, item_begun(p), k, w),
        Kind::Anchor => {
            if leads(attr_or(n, "href"@, Seq::empty())) {
                let q = spaced(p);
                let href = attr_or(n, "href"@, Seq::empty());
                let target = resolved(href, url_joined(p.base, href));
                lemma_label_found(
                    crate::canvas::linked(q, target, short),
                    short,
                    crate::renderer::entry(q.conf.c_link),
                    link_mark(q),
                    w,
                );
            } else {
                lemma_children_found(d, i, p, k, w);
            }
        },
        Kind::Strong => lemma_whole_text(p, text, w),
        Kind::Emphasis => lemma_whole_text(p, text, w),
        Kind::Underline => lemma_whole_text(p, text, w),
        Kind::Struck => lemma_whole_text(p, text, w),
        Kind::Form => {
            let q = children_shown(d, i, form_begun(p, n));
            lemma_children_found(d, i, form_begun(p, n), k, w);
            lemma_blanked(q);
            lemma_found(q, blanked(q), w);
        },
        Kind::Button => lemma_button_found(p, n, text, w),
        Kind::Table => lemma_children_found(d, i, p, k, w),
        Kind::Inline => lemma_children_found(d, i, p, k, w),
        _ => {},
    }
}

proof fn lemma_heading_found(p: PageView, level: u8, text: Seq<char>, w: Seq<char>)
    requires
        has_part(text, w),
    ensures
        found(crate::renderer::heading_shown(p, level, text), w),
{
    let color = heading_color(p.conf, level);
    let inner = painted(text, color);
    let shown = emboldened(inner);
    lemma_painted(text, color);
    lemma_styled(inner);
    lemma_part_of_part(shown, inner, text);
    lemma_part_of_part(shown, text, w);
    let a = appended(blanked(p), shown);
    lemma_appended_found(blanked(p), shown, w);
    let q = newlined(a);
    lemma_newlined(a);
    lemma_found(a, q, w);
    let m = crate::renderer::less(crate::table::byte_len(text), p.width) as nat;
    let bar = painted(crate::text::repeated('\u{2550}', m), color);
    let b = appended(q, bar);
    lemma_appended(q, bar);
    lemma_found(q, b, w);
    lemma_newlined(b);
    lemma_found(b, newlined(b), w);
    lemma_newlined(newlined(b));
    lemma_found(newlined(b), newlined(newlined(b)), w);
    lemma_newlined(q);
    lemma_found(q, newlined(q), w);
}

proof fn lemma_button_found(p: PageView, n: NodeView, text: Seq<char>, w: Seq<char>)
    requires
        is_word(w),
        has_part(text, w),
    ensures
        found(crate::renderer::button_element_shown(p, n, text), w),
{
    let all = words(text);
    let k = lemma_words_part(text, w);
    lemma_joined_part(all, " "@, k);
    let s = squeezed(text);
    lemma_part_of_part(s, all[k], w);
    assert(s.len() > 0) by {
        let x = choose|x: int| stands_at(s, w, x);
    }
    let label = button_label(n, text);
    assert(label == s);
    let token = bracketed(label);
    lemma_part_in("["@, label, "]"@);
    let shown = crate::style::painted_on(token, 0, 252);
    lemma_part_in(
        "\x1b[38;5;"@ + decimal(0) + ";48;5;"@ + decimal(252) + "m"@,
        token,
        "\x1b[39;49m"@,
    );
    lemma_part_of_part(shown, token, label);
    lemma_part_of_part(shown, label, w);
    let field = FieldView {
        field_type: "submit"@,
        name: attr_or(n, "name"@, Seq::empty()),
        id: attr_or(n, "id"@, Seq::empty()),
        value: label,
        line: p.lines.len() as int,
        render_token: token,
        ..crate::tab::empty_field()
    };
    let q = crate::canvas::with_field(p, field);
    lemma_appended_found(p, shown, w);
    lemma_appended_found(q, shown, w);
    lemma_appended(appended(p, shown), " "@);
    lemma_appended(appended(q, shown), " "@);
    lemma_found(appended(p, shown), appended(appended(p, shown), " "@), w);
    lemma_found(appended(q, shown), appended(appended(q, shown), " "@), w);
}

// --- Elements of each kind ---

proof fn lemma_kinds()
    ensures
        kind_of("script"@) == Kind::Skip,
        kind_of("style"@) == Kind::Skip,
        kind_of("noscript"@) == Kind::Skip,
        kind_of("svg"@) == Kind::Skip,
        kind_of("head"@) == Kind::Skip,
        kind_of("meta"@) == Kind::Skip,
        kind_of("link"@) == Kind::Skip,
        kind_of("br"@) == Kind::Break,
        kind_of("hr"@) == Kind::Rule,
        kind_of("h1"@) == Kind::Heading(1),
        kind_of("h2"@) == Kind::Heading(2),
        kind_of("h3"@) == Kind::Heading(3),
        kind_of("h4"@) == Kind::Heading(4),
        kind_of("h5"@) == Kind::Heading(4),
        kind_of("h6"@) == Kind::Heading(4),
        kind_of("p"@) == Kind::Block,
        kind_of("div"@) == Kind::Block,
        kind_of("section"@) == Kind::Block,
        kind_of("article"@) == Kind::Block,
        kind_of("main"@) == Kind::Block,
        kind_of("header"@) == Kind::Block,
        kind_of("footer"@) == Kind::Block,
        kind_of("nav"@) == Kind::Block,
        kind_of("aside"@) == Kind::Block,
        kind_of("figure"@) == Kind::Block,
        kind_of("figcaption"@) == Kind::Block,
        kind_of("blockquote"@) == Kind::Quote,
        kind_of("pre"@) == Kind::Pre,
        kind_of("code"@) == Kind::Code,
        kind_of("ul"@) == Kind::Bullets,
        kind_of("ol"@) == Kind::Numbers,
        kind_of("li"@) == Kind::Item,
        kind_of("a"@) == Kind::Anchor,
        kind_of("strong"@) == Kind::Strong,
        kind_of("b"@) == Kind::Strong,
        kind_of("em"@) == Kind::Emphasis,
        kind_of("i"@) == Kind::Emphasis,
        kind_of("u"@) == Kind::Underline,
        kind_of("s"@) == Kind::Struck,
        kind_of("del"@) == Kind::Struck,
        kind_of("strike"@) == Kind::Struck,
        kind_of("img"@) == Kind::Image,
        kind_of("form"@) == Kind::Form,
        kind_of("input"@) == Kind::Input,
        kind_of("select"@) == Kind::Select,
        kind_of("textarea"@) == Kind::TextArea,
        kind_of("button"@) == Kind::Button,
        kind_of("table"@) == Kind::Table,
        kind_of("iframe"@) == Kind::Frame,
{
    reveal_strlit("script");
    reveal_strlit("style");
    reveal_strlit("noscript");
    reveal_strlit("svg");
    reveal_strlit("head");
    reveal_strlit("meta");
    reveal_strlit("link");
    reveal_strlit("br");
    reveal_strlit("hr");
    reveal_strlit("h1");
    reveal_strlit("h2");
    reveal_strlit("h3");
    reveal_strlit("h4");
    reveal_strlit("h5");
    reveal_strlit("h6");
    reveal_strlit("p");
    reveal_strlit("div");
    reveal_strlit("section");
    reveal_strlit("article");
    reveal_strlit("main");
    reveal_strlit("header");
    reveal_strlit("footer");
    reveal_strlit("nav");
    reveal_strlit("aside");
    reveal_strlit("figure");
    reveal_strlit("figcaption");
    reveal_strlit("blockquote");
    reveal_strlit("pre");
    reveal_strlit("code");
    reveal_strlit("ul");
    reveal_strlit("ol");
    reveal_strlit("li");
    reveal_strlit("a");
    reveal_strlit("strong");
    reveal_strlit("b");
    reveal_strlit("em");
    reveal_strlit("i");
    reveal_strlit("u");
    reveal_strlit("s");
    reveal_strlit("del");
    reveal_strlit("strike");
    reveal_strlit("img");
    reveal_strlit("form");
    reveal_strlit("input");
    reveal_strlit("select");
    reveal_strlit("textarea");
    reveal_strlit("button");
    reveal_strlit("table");
    reveal_strlit("iframe");
    assert("script"@.len() == 6);
    assert("script"@[0] == 's');
    assert("script"@[1] == 'c');
    assert("style"@.len() == 5);
    assert("style"@[0] == 's');
    assert("noscript"@.len() == 8);
    assert("noscript"@[0] == 'n');
    assert("svg"@.len() == 3);
    assert("svg"@[0] == 's');
    assert("head"@.len() == 4);
    assert("head"@[0] == 'h');
    assert("meta"@.len() == 4);
    assert("meta"@[0] == 'm');
    assert("meta"@[1] == 'e');
    assert("link"@.len() == 4);
    assert("link"@[0] == 'l');
    assert("br"@.len() == 2);
    assert("br"@[0] == 'b');
    assert("hr"@.len() == 2);
    assert("hr"@[0] == 'h');
    assert("hr"@[1] == 'r');
    assert("h1"@.len() == 2);
    assert("h1"@[0] == 'h');
    assert("h1"@[1] == '1');
    assert("h2"@.len() == 2);
    assert("h2"@[0] == 'h');
    assert("h2"@[1] == '2');
    assert("h3"@.len() == 2);
    assert("h3"@[0] == 'h');
    assert("h3"@[1] == '3');
    assert("h4"@.len() == 2);
    assert("h4"@[0] == 'h');
    assert("h4"@[1] == '4');
    assert("h5"@.len() == 2);
    assert("h5"@[0] == 'h');
    assert("h5"@[1] == '5');
    assert("h6"@.len() == 2);
    assert("h6"@[0] == 'h');
    assert("h6"@[1] == '6');
    assert("p"@.len() == 1);
    assert("p"@[0] == 'p');
    assert("div"@.len() == 3);
    assert("div"@[0] == 'd');
    assert("div"@[1] == 'i');
    assert("section"@.len() == 7);
    assert("section"@[0] == 's');
    assert("article"@.len() == 7);
    assert("article"@[0] == 'a');
    assert("main"@.len() == 4);
    assert("main"@[0] == 'm');
    assert("main"@[1] == 'a');
    assert("header"@.len() == 6);
    assert("header"@[0] == 'h');
    assert("footer"@.len() == 6);
    assert("footer"@[0] == 'f');
    assert("footer"@[1] == 'o');
    assert("nav"@.len() == 3);
    assert("nav"@[0] == 'n');
    assert("aside"@.len() == 5);
    assert("aside"@[0] == 'a');
    assert("figure"@.len() == 6);
    assert("figure"@[0] == 'f');
    assert("figure"@[1] == 'i');
    assert("figcaption"@.len() == 10);
    assert("figcaption"@[0] == 'f');
    assert("blockquote"@.len() == 10);
    assert("blockquote"@[0] == 'b');
    assert("pre"@.len() == 3);
    assert("pre"@[0] == 'p');
    assert("code"@.len() == 4);
    assert("code"@[0] == 'c');
    assert("ul"@.len() == 2);
    assert("ul"@[0] == 'u');
    assert("ol"@.len() == 2);
    assert("ol"@[0] == 'o');
    assert("li"@.len() == 2);
    assert("li"@[0] == 'l');
    assert("a"@.len() == 1);
    assert("a"@[0] == 'a');
    assert("strong"@.len() == 6);
    assert("strong"@[0] == 's');
    assert("strong"@[1] == 't');
    assert("strong"@[3] == 'o');
    assert("b"@.len() == 1);
    assert("b"@[0] == 'b');
    assert("em"@.len() == 2);
    assert("em"@[0] == 'e');
    assert("i"@.len() == 1);
    assert("i"@[0] == 'i');
    assert("u"@.len() == 1);
    assert("u"@[0] == 'u');
    assert("s"@.len() == 1);
    assert("s"@[0] == 's');
    assert("del"@.len() == 3);
    assert("del"@[0] == 'd');
    assert("del"@[1] == 'e');
    assert("strike"@.len() == 6);
    assert("strike"@[0] == 's');
    assert("strike"@[1] == 't');
    assert("strike"@[3] == 'i');
    assert("img"@.len() == 3);
    assert("img"@[0] == 'i');
    assert("form"@.len() == 4);
    assert("form"@[0] == 'f');
    assert("input"@.len() == 5);
    assert("input"@[0] == 'i');
    assert("select"@.len() == 6);
    assert("select"@[0] == 's');
    assert("select"@[1] == 'e');
    assert("textarea"@.len() == 8);
    assert("textarea"@[0] == 't');
    assert("button"@.len() == 6);
    assert("button"@[0] == 'b');
    assert("table"@.len() == 5);
    assert("table"@[0] == 't');
    assert("iframe"@.len() == 6);
    assert("iframe"@[0] == 'i');
}

/// Scripts, styles and what else is no content leave nothing on the page.
pub proof fn law_no_content(d: Seq<ItemView>, i: int, p: PageView)
    requires
        0 <= i < d.len(),
        ({
            let tag = tag_at(d, i);
            ||| tag == "script"@
            ||| tag == "style"@
            ||| tag == "noscript"@
            ||| tag == "svg"@
            ||| tag == "head"@
            ||| tag == "meta"@
            ||| tag == "link"@
        }),
    ensures
        element_shown(d, i, p) == p,
{
    lemma_kinds();
}

/// The colour of a heading, by its tag.
pub open spec fn color_of_heading(tag: Seq<char>, conf: ConfigView) -> int {
    if tag == "h1"@ {
        conf.c_h1 as int % 256
    } else if tag == "h2"@ {
        conf.c_h2 as int % 256
    } else if tag == "h3"@ {
        conf.c_h3 as int % 256
    } else {
        252
    }
}

/// A heading stands in bold and in its colour on a line of its own, between blank lines;
/// one of the first level is underlined in the same colour.
pub proof fn law_heading(d: Seq<ItemView>, i: int, p: PageView)
    requires
        0 <= i < d.len(),
        ({
            let tag = tag_at(d, i);
            tag == "h1"@ || tag == "h2"@ || tag == "h3"@ || tag == "h4"@ || tag == "h5"@ || tag
                == "h6"@
        }),
    ensures
        ({
            let q = element_shown(d, i, p);
            let text = trim(text_of(d, i));
            let color = color_of_heading(tag_at(d, i), p.conf) as u8;
            let l = blanked(p).lines.len() as int;
            &&& l < q.lines.len()
            &&& has_part(q.lines[l], "\x1b[1m"@ + painted(text, color) + "\x1b[22m"@)
            &&& found(q, text)
            &&& l > 0 ==> q.lines[l - 1].len() == 0
            &&& q.line.len() == 0
            &&& q.lines.last().len() == 0
            &&& tag_at(d, i) == "h1"@ ==> l + 1 < q.lines.len() - 1 && has_part(
                q.lines[l + 1],
                painted(
                    crate::text::repeated(
                        '\u{2550}',
                        crate::renderer::less(crate::table::byte_len(text), p.width) as nat,
                    ),
                    color,
                ),
            )
            &&& tag_at(d, i) != "h1"@ ==> q.lines.len() == l + 2
        }),
{
    lemma_kinds();
    reveal_strlit("h1");
    reveal_strlit("h2");
    reveal_strlit("h3");
    reveal_strlit("h4");
    reveal_strlit("h5");
    reveal_strlit("h6");
    reveal(blanked);
    reveal(newlined);
    let q = element_shown(d, i, p);
    let text = trim(text_of(d, i));
    let color = color_of_heading(tag_at(d, i), p.conf) as u8;
    let b = blanked(p);
    let shown = emboldened(painted(text, color));
    lemma_appended(b, shown);
    let a = newlined(appended(b, shown));
    let m = crate::renderer::less(crate::table::byte_len(text), p.width) as nat;
    let bar = painted(crate::text::repeated('\u{2550}', m), color);
    lemma_appended(a, bar);
    assert(q.lines[b.lines.len() as int] == appended(b, shown).line);
    lemma_painted(text, color);
    lemma_styled(painted(text, color));
    lemma_part_of_part(shown, painted(text, color), text);
    lemma_part_of_part(q.lines[b.lines.len() as int], shown, text);
    assert(reads(q, b.lines.len() as int, text));
}

/// A break ends the line, and nothing else.
pub proof fn law_break(d: Seq<ItemView>, i: int, p: PageView)
    requires
        0 <= i < d.len(),
        tag_at(d, i) == "br"@,
    ensures
        element_shown(d, i, p).lines == p.lines.push(p.line),
        element_shown(d, i, p).line.len() == 0,
{
    lemma_kinds();
    reveal(newlined);
}

/// A rule stands on a line of its own, as wide as the page and at most 60 cells.
pub proof fn law_rule(d: Seq<ItemView>, i: int, p: PageView)
    requires
        0 <= i < d.len(),
        tag_at(d, i) == "hr"@,
    ensures
        ({
            let q = element_shown(d, i, p);
            let l = blanked(p).lines.len() as int;
            let n = if p.width < 60 {
                p.width
            } else {
                60
            };
            &&& q.lines.len() == l + 1
            &&& has_part(q.lines[l], crate::text::repeated('\u{2500}', n as nat))
            &&& q.line.len() == 0
        }),
{
    lemma_kinds();
    reveal(newlined);
    let b = blanked(p);
    let bar = crate::text::repeated('\u{2500}', crate::renderer::less(p.width, 60) as nat);
    lemma_appended(b, painted(bar, 240));
    lemma_painted(bar, 240);
    lemma_part_of_part(appended(b, painted(bar, 240)).line, painted(bar, 240), bar);
}

/// The page is at the start of a line, and a blank line precedes, unless it is empty.
pub open spec fn is_apart(p: PageView) -> bool {
    p.line.len() == 0 && (p.lines.len() > 0 ==> p.lines.last().len() == 0)
}

proof fn lemma_apart(p: PageView)
    ensures
        is_apart(blanked(p)),
        carried(p, blanked(p)),
{
    reveal(blanked);
    reveal(newlined);
    lemma_blanked(p);
}

/// Paragraphs and the like are set apart from what is before and behind them.
pub proof fn law_block(d: Seq<ItemView>, i: int, p: PageView)
    requires
        0 <= i < d.len(),
        ({
            let tag = tag_at(d, i);
            ||| tag == "p"@ || tag == "div"@ || tag == "section"@ || tag == "article"@
            ||| tag == "main"@ || tag == "header"@ || tag == "footer"@ || tag == "nav"@
            ||| tag == "aside"@ || tag == "figure"@ || tag == "figcaption"@
            ||| tag == "blockquote"@ || tag == "pre"@ || tag == "form"@
        }),
    ensures
        is_apart(element_shown(d, i, p)),
        is_apart(blanked(p)),
        begins(blanked(p).lines, element_shown(d, i, p).lines),
{
    lemma_kinds();
    lemma_apart(p);
    let n = d[i].node;
    match kind_of(tag_at(d, i)) {
        Kind::Block => {
            let inner = children_shown(d, i, blanked(p));
            lemma_children(d, i, blanked(p));
            lemma_apart(inner);
        },
        Kind::Quote => {
            let q = blanked(p);
            let opened = PageView { indent: crate::canvas::sum(q.indent, 2), ..q };
            let inner = children_shown(d, i, opened);
            lemma_children(d, i, opened);
            lemma_apart(PageView { indent: q.indent, ..inner });
        },
        Kind::Pre => {
            let q = blanked(p);
            let opened = PageView { in_pre: true, ..q };
            let inner = children_shown(d, i, opened);
            lemma_children(d, i, opened);
            lemma_apart(PageView { in_pre: q.in_pre, ..inner });
        },
        Kind::Form => {
            let q = form_begun(p, n);
            lemma_form_begun(p, n);
            lemma_children(d, i, q);
            lemma_apart(children_shown(d, i, q));
            reveal(blanked);
            reveal(newlined);
            reveal(crate::canvas::with_form);
            let shown = emboldened(painted("[Form]"@, 208));
            let action = attr_or(n, "action"@, Seq::empty());
            let f = crate::canvas::with_form(
                p,
                resolved(action, url_joined(p.base, action)),
                uppercase_of(attr_or(n, "method"@, "get"@)),
            );
            lemma_appended(blanked(f), shown);
        },
        _ => {},
    }
}

/// Text in bold, in italics, underlined, struck or as code stands whole on the line, in
/// its style.
pub proof fn law_styled(d: Seq<ItemView>, i: int, p: PageView)
    requires
        0 <= i < d.len(),
    ensures
        ({
            let tag = tag_at(d, i);
            let q = element_shown(d, i, p);
            let text = text_of(d, i);
            &&& tag == "strong"@ || tag == "b"@ ==> has_part(
                q.line,
                "\x1b[1m"@ + text + "\x1b[22m"@,
            )
            &&& tag == "em"@ || tag == "i"@ ==> has_part(q.line, "\x1b[3m"@ + text + "\x1b[23m"@)
            &&& tag == "u"@ ==> has_part(q.line, "\x1b[4m"@ + text + "\x1b[24m"@)
            &&& tag == "s"@ || tag == "del"@ || tag == "strike"@ ==> has_part(
                q.line,
                painted(text, 240),
            )
            &&& tag == "code"@ ==> has_part(q.line, painted(text, 186))
        }),
{
    lemma_kinds();
    let text = text_of(d, i);
    lemma_appended(p, emboldened(text));
    lemma_appended(p, slanted(text));
    lemma_appended(p, underlined(text));
    lemma_appended(p, painted(text, 240));
    lemma_appended(p, painted(text, 186));
}

/// Preformatted text keeps its lines: inside `pre` each line of a text is shown whole.
pub proof fn law_preformatted(d: Seq<ItemView>, i: int, p: PageView, k: int)
    requires
        0 <= i < d.len(),
        tag_at(d, i) == "pre"@,
        i + 1 < end_of(d, i),
        d[i + 1].node is Text,
        0 <= k < split(d[i + 1].node->Text_0, '\n').len(),
    ensures
        found(element_shown(d, i, p), split(d[i + 1].node->Text_0, '\n')[k]),
{
    lemma_kinds();
    lemma_rise(d, d[i].depth, i + 1);
    let q = blanked(p);
    let opened = PageView { in_pre: true, ..q };
    let inner = children_shown(d, i, opened);
    let closed = PageView { in_pre: q.in_pre, ..inner };
    law_text_shown(d, i + 1, end_of(d, i), opened);
    let parts = parts_of(opened, d[i + 1].node->Text_0);
    assert(found(walked(d, i + 1, end_of(d, i), opened), parts[k]));
    lemma_found(inner, closed, parts[k]);
    lemma_blanked(closed);
    lemma_found(closed, blanked(closed), parts[k]);
}

/// Items of a list begin a line of their own: with a bullet, or in a numbered list with the
/// number that comes next.
pub proof fn law_item(d: Seq<ItemView>, i: int, p: PageView)
    requires
        0 <= i < d.len(),
        tag_at(d, i) == "li"@,
    ensures
        ({
            let q = element_shown(d, i, p);
            let l = p.lines.len() as int + 1;
            &&& begins(p.lines.push(p.line), q.lines)
            &&& p.lists.len() == 0 || p.lists.last() is Unordered ==> reads(q, l, "\u{2022} "@)
            &&& p.lists.len() > 0 ==> (p.lists.last() matches ListType::Ordered(n) ==> {
                &&& reads(q, l, decimal(n as nat) + ". "@)
                &&& n < usize::MAX ==> item_begun(p).lists.last() == ListType::Ordered(
                    (n + 1) as usize,
                )
            })
        }),
{
    lemma_kinds();
    reveal(newlined);
    reveal(crate::canvas::counted);
    let b = newlined(p);
    let mark = crate::renderer::bullet(b);
    let s = crate::canvas::counted(b);
    lemma_appended(s, mark);
    let q = item_begun(p);
    assert(reads(q, p.lines.len() as int + 1, mark));
    lemma_children(d, i, q);
    lemma_reads(q, children_shown(d, i, q), p.lines.len() as int + 1, mark);
    assert(q.lists == s.lists) by {
        reveal(appended);
    }
}

/// A list begins apart and is indented by two more; a numbered one counts from one.
pub proof fn law_list(d: Seq<ItemView>, i: int, p: PageView)
    requires
        0 <= i < d.len(),
        0 <= p.indent < usize::MAX - 2,
    ensures
        ({
            let q = PageView { indent: p.indent + 2, ..blanked(p) };
            &&& is_apart(q)
            &&& tag_at(d, i) == "ul"@ ==> element_shown(d, i, p).lines == children_shown(
                d,
                i,
                PageView { lists: p.lists.push(ListType::Unordered), ..q },
            ).lines
            &&& tag_at(d, i) == "ol"@ ==> element_shown(d, i, p).lines == children_shown(
                d,
                i,
                PageView { lists: p.lists.push(ListType::Ordered(1)), ..q },
            ).lines
        }),
{
    lemma_kinds();
    lemma_apart(p);
    reveal(blanked);
    reveal(newlined);
}

// --- Places on a line ---

/// A word goes behind the last with one space between them while it fits on the line, else
/// to the beginning of the next line. A line begins with its indent.
pub proof fn law_word_placed(p: PageView, word: Seq<char>)
    requires
        p.indent >= 0,
    ensures
        ({
            let q = word_added(p, word);
            let fits = p.col + width_of(word) + 1 <= p.width;
            &&& p.line.len() > 0 && p.col > p.indent && fits ==> q.lines == p.lines && q.line
                == p.line + " "@ + word
            &&& p.line.len() > 0 && p.col > p.indent && !fits ==> q.lines == p.lines.push(p.line)
                && q.line == repeated(' ', p.indent as nat) + word
            &&& p.line.len() == 0 && p.col <= p.indent ==> q.lines == p.lines && q.line
                == repeated(' ', p.indent as nat) + word
        }),
{
    reveal(word_added);
    reveal(newlined);
    reveal(appended);
    reveal_strlit(" ");
    assert(repeated(' ', 0) + word =~= word);
    assert(Seq::<char>::empty() + word =~= word);
}

/// A link stands behind the text before it with a space between them: its text underlined in
/// the colour of links, then its number in the colour of numbers.
pub proof fn law_link_placed(d: Seq<ItemView>, i: int, p: PageView)
    requires
        0 <= i < d.len(),
        tag_at(d, i) == "a"@,
        ({
            let href = attr_or(d[i].node, "href"@, Seq::empty());
            href.len() > 0 && href != "#"@ && !starts(href, "javascript:"@)
        }),
        !holds(d, i, "img"@),
        p.line.len() > 0,
        p.col > p.indent,
    ensures
        ({
            let q = element_shown(d, i, p);
            let text = trim(text_of(d, i));
            let label = if text.len() > 0 {
                text
            } else {
                attr_or(d[i].node, "href"@, Seq::empty())
            };
            let shown = underlined(painted(label, (p.conf.c_link as int % 256) as u8)) + painted(
                "["@ + decimal(p.links.len() + 1) + "]"@,
                (p.conf.c_link_num as int % 256) as u8,
            );
            &&& q.lines == p.lines
            &&& p.line.last() == ' ' ==> q.line == p.line + shown
            &&& p.line.last() != ' ' ==> q.line == p.line + " "@ + shown
        }),
{
    lemma_kinds();
    reveal(appended);
    reveal(crate::canvas::linked);
    reveal_strlit(" ");
}

// --- Links and images ---

/// An anchor with an address becomes one link: to that address, with its text, or its
/// address where it has none, and with the next number. The images in it are shown.
pub proof fn law_anchor(d: Seq<ItemView>, i: int, p: PageView)
    requires
        0 <= i < d.len(),
        tag_at(d, i) == "a"@,
        ({
            let href = attr_or(d[i].node, "href"@, Seq::empty());
            href.len() > 0 && href != "#"@ && !starts(href, "javascript:"@)
        }),
    ensures
        ({
            let q = element_shown(d, i, p);
            let href = attr_or(d[i].node, "href"@, Seq::empty());
            let text = trim(text_of(d, i));
            let link = q.links.last();
            &&& q.links.len() == p.links.len() + 1
            &&& begins(p.links, q.links)
            &&& link.href == resolved(href, url_joined(p.base, href))
            &&& link.index == p.links.len() + 1
            &&& text.len() > 0 ==> link.text == text
            &&& text.len() == 0 && holds(d, i, "img"@) ==> link.text == "image link"@
            &&& text.len() == 0 && !holds(d, i, "img"@) ==> link.text == href
            &&& link.line == q.lines.len()
            &&& has_part(q.line, bracketed(decimal(p.links.len() + 1)))
            &&& !holds(d, i, "img"@) ==> has_part(
                q.line,
                underlined(painted(link.text, (p.conf.c_link as int % 256) as u8)),
            )
        }),
{
    lemma_kinds();
    reveal(crate::canvas::linked);
    let href = attr_or(d[i].node, "href"@, Seq::empty());
    let target = resolved(href, url_joined(p.base, href));
    let text = trim(text_of(d, i));
    let q = spaced(p);
    lemma_appended(p, " "@);
    assert(q.links == p.links && q.conf == p.conf);
    lemma_anchor_images(d, i + 1, end_of(d, i), q);
    let s = anchor_images(d, i + 1, end_of(d, i), q);
    lemma_images_keep_links(d, i + 1, end_of(d, i), q);
    let label = or_text(text, href);
    let before = underlined(painted(label, crate::renderer::entry(q.conf.c_link)));
    lemma_mark(s, Seq::empty());
    lemma_mark(q, before);
    let l = crate::canvas::linked(q, target, label);
    lemma_appended(l, before + link_mark(q));
    lemma_part_in(Seq::empty(), before, link_mark(q));
    assert(Seq::<char>::empty() + before + link_mark(q) =~= before + link_mark(q));
    lemma_part_of_part(appended(l, before + link_mark(q)).line, before + link_mark(q), before);
    lemma_part_of_part(
        appended(l, before + link_mark(q)).line,
        before + link_mark(q),
        bracketed(decimal(p.links.len() + 1)),
    );
    let m = crate::canvas::linked(s, target, or_text(text, "image link"@));
    lemma_appended(m, link_mark(s));
    lemma_part_of_part(
        appended(m, link_mark(s)).line,
        link_mark(s),
        bracketed(decimal(p.links.len() + 1)),
    );
}

proof fn lemma_images_keep_links(d: Seq<ItemView>, j: int, stop: int, p: PageView)
    ensures
        anchor_images(d, j, stop, p).links == p.links,
    decreases d.len() - j,
{
    if !(j < 0 || j >= stop || j >= d.len()) {
        lemma_rise(d, d[j].depth, j + 1);
        let q = if is_named(d, j, "img"@) {
            image_shown(p, d[j].node)
        } else {
            p
        };
        assert(q.links == p.links) by {
            reveal(crate::canvas::with_image);
            reveal(newlined);
        }
        lemma_images_keep_links(d, end_of(d, j), stop, q);
    }
}

/// An anchor that leads nowhere is no link: what it holds is shown as if it were not there.
pub proof fn law_dead_anchor(d: Seq<ItemView>, i: int, p: PageView)
    requires
        0 <= i < d.len(),
        tag_at(d, i) == "a"@,
        ({
            let href = attr_or(d[i].node, "href"@, Seq::empty());
            href.len() == 0 || href == "#"@ || starts(href, "javascript:"@)
        }),
    ensures
        element_shown(d, i, p) == children_shown(d, i, p),
{
    lemma_kinds();
}

/// An image has no line where it is tiny, one where it is an icon, one for each 20 pixels
/// of its height where that is known, and else, as at most, ten.
pub proof fn law_image_lines(w: Option<nat>, h: Option<nat>)
    ensures
        ({
            let n = image_lines(w, h);
            let tiny = (w matches Some(x) && x <= 5) || (h matches Some(y) && y <= 5);
            let icon = (w matches Some(x) && x <= 30) || (h matches Some(y) && y <= 30);
            &&& 0 <= n <= 10
            &&& n == 0 <==> tiny
            &&& icon && !tiny ==> n == 1
            &&& !icon && h is None ==> n == 10
            &&& !icon ==> (h matches Some(y) ==> if y > 200 {
                n == 10
            } else {
                20 * (n - 1) < y <= 20 * n
            })
        }),
{
}

/// An image with an address, unless it is tiny, is on the page once more: with its address
/// and its text, and with blank lines for it.
pub proof fn law_image(d: Seq<ItemView>, i: int, p: PageView)
    requires
        0 <= i < d.len(),
        tag_at(d, i) == "img"@,
    ensures
        ({
            let n = d[i].node;
            let q = element_shown(d, i, p);
            let src = match attr_of(n, "src"@) {
                Some(s) => s,
                None => attr_or(n, "data-src"@, Seq::empty()),
            };
            let height = image_lines(attr_number(n, "width"@), attr_number(n, "height"@));
            let image = q.images.last();
            &&& src.len() == 0 || height == 0 ==> q == p
            &&& src.len() > 0 && height > 0 ==> {
                &&& q.images.len() == p.images.len() + 1
                &&& begins(p.images, q.images)
                &&& image.src == resolved(src, url_joined(p.base, src))
                &&& image.alt == attr_or(n, "alt"@, Seq::empty())
                &&& image.height == height
                &&& p.lines.len() <= image.line
                &&& q.lines.len() == image.line + height
                &&& forall|l: int|
                    image.line <= l < q.lines.len() ==> (#[trigger] q.lines[l]).len() == 0
                &&& q.line.len() == 0
            }
        }),
{
    lemma_kinds();
    reveal(crate::canvas::with_image);
    reveal(newlined);
    let n = d[i].node;
    law_image_lines(attr_number(n, "width"@), attr_number(n, "height"@));
}

// --- Forms ---

/// A form on the page has the address to which it is sent and its method, `get` where it
/// names none.
pub proof fn law_form(d: Seq<ItemView>, i: int, p: PageView)
    requires
        0 <= i < d.len(),
        tag_at(d, i) == "form"@,
    ensures
        ({
            let n = d[i].node;
            let q = element_shown(d, i, p);
            let action = attr_or(n, "action"@, Seq::empty());
            let f = p.forms.len() as int;
            &&& f < q.forms.len()
            &&& q.forms[f].action == resolved(action, url_joined(p.base, action))
            &&& q.forms[f].method == uppercase_of(match attr_of(n, "method"@) {
                Some(m) => m,
                None => "get"@,
            })
            &&& q.forms[f].line == p.lines.len()
            &&& forms_kept(p.forms, q.forms)
        }),
{
    lemma_kinds();
    let n = d[i].node;
    let b = form_begun(p, n);
    let action = attr_or(n, "action"@, Seq::empty());
    let w = crate::canvas::with_form(
        p,
        resolved(action, url_joined(p.base, action)),
        uppercase_of(attr_or(n, "method"@, "get"@)),
    );
    reveal(crate::canvas::with_form);
    let shown = emboldened(painted("[Form]"@, 208));
    assert(b.forms == w.forms) by {
        reveal(blanked);
        reveal(newlined);
        lemma_appended(blanked(w), shown);
    }
    lemma_form_begun(p, n);
    lemma_children(d, i, b);
    let c = children_shown(d, i, b);
    lemma_blanked(c);
    assert(forms_kept(b.forms, c.forms));
    assert(b.forms[p.forms.len() as int] == w.forms.last());
    assert(blanked(c).forms == c.forms) by {
        reveal(blanked);
        reveal(newlined);
    }
}

/// The last field of the last form.
pub open spec fn newest(p: PageView) -> FieldView {
    p.forms.last().fields.last()
}

/// The page has one more field, in its last form, and all that it had.
pub open spec fn one_field_more(p: PageView, q: PageView) -> bool {
    &&& q.forms.len() == p.forms.len()
    &&& q.forms.last().fields.len() == p.forms.last().fields.len() + 1
    &&& forms_kept(p.forms, q.forms)
}

proof fn lemma_one_field(p: PageView, field: FieldView, shown: Seq<char>)
    requires
        p.forms.len() > 0,
    ensures
        ({
            let w = crate::canvas::with_field(p, field);
            &&& one_field_more(p, w)
            &&& newest(w) == field
            &&& appended(w, shown).forms == w.forms
            &&& newlined(appended(w, shown)).forms == w.forms
            &&& appended(appended(w, shown), " "@).forms == w.forms
        }),
{
    reveal(crate::canvas::with_field);
    reveal(newlined);
    let w = crate::canvas::with_field(p, field);
    lemma_appended(w, shown);
    lemma_appended(appended(w, shown), " "@);
}

/// Every input in a form becomes a field of it, with the element's name, id and value; a
/// submit button without a value says `Submit`.
pub proof fn law_input(d: Seq<ItemView>, i: int, p: PageView)
    requires
        0 <= i < d.len(),
        tag_at(d, i) == "input"@,
        p.forms.len() > 0,
    ensures
        ({
            let n = d[i].node;
            let q = element_shown(d, i, p);
            let field = newest(q);
            let name = attr_or(n, "name"@, Seq::empty());
            let value = attr_or(n, "value"@, Seq::empty());
            let itype = lowercase_of(match attr_of(n, "type"@) {
                Some(t) => t,
                None => "text"@,
            });
            let hint = match attr_of(n, "placeholder"@) {
                Some(h) => h,
                None => name,
            };
            &&& one_field_more(p, q)
            &&& field.field_type == itype
            &&& field.name == name
            &&& field.id == attr_or(n, "id"@, Seq::empty())
            &&& itype != "submit"@ || value.len() > 0 ==> field.value == value
            &&& itype == "submit"@ && value.len() == 0 ==> field.value == "Submit"@
            &&& itype != "hidden"@ && itype != "submit"@ ==> field.placeholder == hint
            &&& itype == "hidden"@ ==> q.lines == p.lines && q.line == p.line
            &&& itype != "hidden"@ ==> field.line == p.lines.len() && found(
                q,
                field.render_token,
            )
            &&& itype != "hidden"@ && itype != "submit"@ ==> q.line.len() == 0 && q.lines.len()
                == p.lines.len() + 1
            &&& itype == "submit"@ ==> q.lines == p.lines
            &&& itype == "submit"@ ==> field.render_token == "["@ + field.value + "]"@
            &&& itype == "password"@ ==> field.render_token == "["@ + hint
                + ": \u{25CF}\u{25CF}\u{25CF}\u{25CF}]"@
            &&& itype != "hidden"@ && itype != "submit"@ && itype != "password"@
                ==> field.render_token == "["@ + hint + ": ________]"@
        }),
{
    lemma_kinds();
    reveal_strlit("hidden");
    reveal_strlit("submit");
    reveal_strlit("password");
    assert("hidden"@.len() == 6 && "submit"@.len() == 6 && "password"@.len() == 8);
    assert("hidden"@[0] == 'h' && "submit"@[0] == 's');
    let n = d[i].node;
    let itype = lowercase_of(attr_or(n, "type"@, "text"@));
    let field = crate::renderer::input_field(n, itype, p.lines.len() as int);
    let token = field.render_token;
    lemma_one_field(p, field, painted(token, 252));
    lemma_one_field(p, field, crate::style::painted_on(token, 0, 252));
    let w = crate::canvas::with_field(p, field);
    reveal(crate::canvas::with_field);
    reveal(newlined);
    lemma_token_shown(w, token);
    lemma_appended(w, painted(token, 252));
    let pressed = crate::style::painted_on(token, 0, 252);
    lemma_appended(w, pressed);
    lemma_appended(appended(w, pressed), " "@);
}

proof fn lemma_token_shown(w: PageView, token: Seq<char>)
    ensures
        found(crate::renderer::widget_line(w, token), token),
        found(crate::renderer::button_shown(w, token), token),
{
    let a = appended(w, painted(token, 252));
    lemma_painted(token, 252);
    lemma_appended_found(w, painted(token, 252), token);
    lemma_newlined(a);
    lemma_found(a, newlined(a), token);
    let pressed = crate::style::painted_on(token, 0, 252);
    lemma_part_in(
        "\x1b[38;5;"@ + decimal(0) + ";48;5;"@ + decimal(252) + "m"@,
        token,
        "\x1b[39;49m"@,
    );
    let b = appended(w, pressed);
    lemma_appended_found(w, pressed, token);
    lemma_appended(b, " "@);
    lemma_found(b, appended(b, " "@), token);
}

proof fn lemma_options(d: Seq<ItemView>, a: int, b: int, k: int)
    requires
        a <= k < b,
        is_named(d, k, "option"@),
    ensures
        ({
            let m = options_in(d, a, k).len() as int;
            &&& m < options_in(d, a, b).len()
            &&& options_in(d, a, b)[m] == (
                attr_or(d[k].node, "value"@, Seq::empty()),
                trim(text_of(d, k)),
            )
        }),
    decreases b - a,
{
    if k < b - 1 {
        lemma_options(d, a, b - 1, k);
    }
}

/// A list to choose from becomes a field of the form, with its name and id. Each option
/// under it is an option of the field, with its value and its text, in the page's order; the
/// field has the value of the first.
pub proof fn law_select(d: Seq<ItemView>, i: int, p: PageView, k: int)
    requires
        0 <= i < d.len(),
        tag_at(d, i) == "select"@,
        p.forms.len() > 0,
    ensures
        ({
            let n = d[i].node;
            let q = element_shown(d, i, p);
            let field = newest(q);
            let m = options_in(d, i + 1, k).len() as int;
            &&& one_field_more(p, q)
            &&& field.field_type == "select"@
            &&& field.name == attr_or(n, "name"@, Seq::empty())
            &&& field.id == attr_or(n, "id"@, Seq::empty())
            &&& field.options.len() > 0 ==> field.value == field.options[0].0
            &&& field.options.len() == 0 ==> field.value.len() == 0
            &&& i < k < end_of(d, i) && is_named(d, k, "option"@) ==> m < field.options.len()
                && field.options[m] == (
                attr_or(d[k].node, "value"@, Seq::empty()),
                trim(text_of(d, k)),
            )
            &&& field.render_token == "["@ + field.name + " \u{25BC}]"@
            &&& found(q, field.render_token)
        }),
{
    lemma_kinds();
    let n = d[i].node;
    let name = attr_or(n, "name"@, Seq::empty());
    let token = "["@ + name + " \u{25BC}]"@;
    let options = options_in(d, i + 1, end_of(d, i));
    let field = FieldView {
        field_type: "select"@,
        name,
        id: attr_or(n, "id"@, Seq::empty()),
        value: if options.len() > 0 {
            options[0].0
        } else {
            Seq::empty()
        },
        options,
        line: p.lines.len() as int,
        render_token: token,
        ..crate::tab::empty_field()
    };
    lemma_one_field(p, field, painted(token, 252));
    lemma_token_shown(crate::canvas::with_field(p, field), token);
    if i < k < end_of(d, i) && is_named(d, k, "option"@) {
        lemma_options(d, i + 1, end_of(d, i), k);
    }
}

/// A text area becomes a field of the form, with its name, its id and its text.
pub proof fn law_textarea(d: Seq<ItemView>, i: int, p: PageView)
    requires
        0 <= i < d.len(),
        tag_at(d, i) == "textarea"@,
        p.forms.len() > 0,
    ensures
        ({
            let n = d[i].node;
            let q = element_shown(d, i, p);
            let field = newest(q);
            &&& one_field_more(p, q)
            &&& field.field_type == "textarea"@
            &&& field.name == attr_or(n, "name"@, Seq::empty())
            &&& field.id == attr_or(n, "id"@, Seq::empty())
            &&& field.value == text_of(d, i)
            &&& field.render_token == "["@ + field.name + ": ________]"@
            &&& found(q, field.render_token)
        }),
{
    lemma_kinds();
    let n = d[i].node;
    let name = attr_or(n, "name"@, Seq::empty());
    let token = crate::renderer::blank_token(name);
    let field = FieldView {
        field_type: "textarea"@,
        name,
        id: attr_or(n, "id"@, Seq::empty()),
        value: text_of(d, i),
        line: p.lines.len() as int,
        render_token: token,
        ..crate::tab::empty_field()
    };
    lemma_one_field(p, field, painted(token, 252));
    lemma_token_shown(crate::canvas::with_field(p, field), token);
}

/// A button is a field that submits its form, unless its type is `button` or `reset`. It
/// is labelled with its words, else its value, else `Submit`.
pub proof fn law_button(d: Seq<ItemView>, i: int, p: PageView)
    requires
        0 <= i < d.len(),
        tag_at(d, i) == "button"@,
        p.forms.len() > 0,
    ensures
        ({
            let n = d[i].node;
            let q = element_shown(d, i, p);
            let field = newest(q);
            let btype = lowercase_of(match attr_of(n, "type"@) {
                Some(t) => t,
                None => "submit"@,
            });
            let text = join(words(text_of(d, i)), " "@);
            let value = attr_or(n, "value"@, Seq::empty());
            let label = if text.len() > 0 {
                text
            } else if value.len() > 0 {
                value
            } else {
                "Submit"@
            };
            &&& btype == "button"@ || btype == "reset"@ ==> q.forms == p.forms
            &&& btype != "button"@ && btype != "reset"@ ==> {
                &&& one_field_more(p, q)
                &&& field.field_type == "submit"@
                &&& field.name == attr_or(n, "name"@, Seq::empty())
                &&& field.id == attr_or(n, "id"@, Seq::empty())
                &&& field.value == label
                &&& field.render_token == "["@ + label + "]"@
            }
            &&& found(q, "["@ + label + "]"@)
        }),
{
    lemma_kinds();
    let n = d[i].node;
    let label = button_label(n, text_of(d, i));
    let token = bracketed(label);
    let field = FieldView {
        field_type: "submit"@,
        name: attr_or(n, "name"@, Seq::empty()),
        id: attr_or(n, "id"@, Seq::empty()),
        value: label,
        line: p.lines.len() as int,
        render_token: token,
        ..crate::tab::empty_field()
    };
    let shown = crate::style::painted_on(token, 0, 252);
    lemma_one_field(p, field, shown);
    lemma_token_shown(crate::canvas::with_field(p, field), token);
    lemma_token_shown(p, token);
    lemma_appended(p, shown);
    lemma_appended(appended(p, shown), " "@);
}

/// A frame that embeds a video is a link to the video.
pub proof fn law_frame(d: Seq<ItemView>, i: int, p: PageView, id: Seq<char>, rest: Seq<char>)
    requires
        0 <= i < d.len(),
        tag_at(d, i) == "iframe"@,
        attr_or(d[i].node, "src"@, Seq::empty()) == "https://www.youtube.com/embed/"@ + id + rest,
        id.len() > 0,
        !id.contains('?') && !id.contains('&') && !id.contains('/'),
        rest.len() > 0 ==> rest[0] == '?' || rest[0] == '&' || rest[0] == '/',
    ensures
        ({
            let q = element_shown(d, i, p);
            &&& q.links.len() == p.links.len() + 1
            &&& q.links.last().href == "https://www.youtube.com/watch?v="@ + id
            &&& q.links.last().index == p.links.len() + 1
            &&& found(q, bracketed(decimal(p.links.len() + 1)))
        }),
{
    lemma_kinds();
    reveal_strlit("https://www.youtube.com/embed/");
    reveal_strlit("youtube.com/embed/");
    reveal_strlit("/embed/");
    let src = "https://www.youtube.com/embed/"@ + id + rest;
    assert(src.subrange(12, 30) =~= "youtube.com/embed/"@);
    assert(stands_at(src, "youtube.com/embed/"@, 12));
    lemma_find_stands(src, "youtube.com/embed/"@, 12, 0);
    assert(src.subrange(23, 30) =~= "/embed/"@);
    assert(stands_at(src, "/embed/"@, 23));
    assert(src.take(30) =~= "https://www.youtube.com/embed/"@);
    lemma_embed_first(src);
    let tail = src.skip(30);
    assert(tail =~= id + rest);
    let set = seq!['?', '&', '/'];
    let stops = |x: char| set.contains(x);
    lemma_first_where(tail, stops, 0);
    let e = next_in(tail, set, 0);
    assert(set[0] == '?' && set[1] == '&' && set[2] == '/');
    assert(e == id.len()) by {
        if e < id.len() {
            assert(tail[e] == id[e]);
            assert(stops(tail[e]));
        }
        if e > id.len() {
            assert(tail[id.len() as int] == rest[0]);
            assert(set.contains(rest[0]));
            assert(stops(tail[id.len() as int]));
        }
    }
    assert(tail.take(e) =~= id);
    reveal(crate::canvas::linked);
    let before = painted("\u{25B6} YouTube Video"@, 196) + " "@;
    let shown = before + link_mark(p);
    let l = crate::canvas::linked(p, "https://www.youtube.com/watch?v="@ + id, "YouTube Video"@);
    lemma_mark(p, before);
    lemma_appended(l, shown);
    lemma_appended_found(l, shown, bracketed(decimal(p.links.len() + 1)));
    let a = appended(l, shown);
    lemma_newlined(a);
    lemma_found(a, newlined(a), bracketed(decimal(p.links.len() + 1)));
    assert(newlined(a).links == a.links) by {
        reveal(newlined);
    }
}

proof fn lemma_find_stands(s: Seq<char>, t: Seq<char>, at: int, from: int)
    requires
        stands_at(s, t, at),
        0 <= from <= at,
    ensures
        find_text(s, t, from) is Some,
    decreases at - from,
{
    if !stands_at(s, t, from) {
        lemma_find_stands(s, t, at, from + 1);
    }
}

proof fn lemma_embed_first(s: Seq<char>)
    requires
        s.len() >= 30,
        s.take(30) == "https://www.youtube.com/embed/"@,
    ensures
        find_text(s, "/embed/"@, 0) == Some(23int),
{
    reveal_strlit("https://www.youtube.com/embed/");
    reveal_strlit("/embed/");
    let t = "/embed/"@;
    assert(s.subrange(23, 30) =~= t) by {
        assert forall|k: int| 0 <= k < 7 implies s[23 + k] == #[trigger] t[k] by {
            assert(s.take(30)[23 + k] == s[23 + k]);
        }
    }
    assert(stands_at(s, t, 23));
    lemma_find_stands(s, t, 23, 0);
    crate::text::lemma_find_text(s, t, 0);
    let pos = find_text(s, t, 0)->0;
    assert(pos <= 23);
    assert forall|k: int| 0 <= k < 23 implies !stands_at(s, t, k) by {
        if stands_at(s, t, k) {
            assert(s.subrange(k, k + 7)[0] == s[k]);
            assert(s.subrange(k, k + 7)[1] == s[k + 1]);
            assert(s[k] == s.take(30)[k]);
            assert(s[k + 1] == s.take(30)[k + 1]);
            assert(t[0] == '/' && t[1] == 'e');
        }
    }
}

// --- Tables ---

proof fn lemma_cell(d: Seq<ItemView>, a: int, b: int, k: int) -> (c: int)
    requires
        a <= k < b,
        is_named(d, k, "td"@) || is_named(d, k, "th"@),
    ensures
        0 <= c < cells_in(d, a, b).len(),
        cells_in(d, a, b)[c] == trim(collapsed(text_of(d, k))),
    decreases b - a,
{
    if k == b - 1 {
        cells_in(d, a, b - 1).len() as int
    } else {
        lemma_cell(d, a, b - 1, k)
    }
}

proof fn lemma_row(d: Seq<ItemView>, a: int, b: int, k: int) -> (r: int)
    requires
        a <= k < b,
        is_named(d, k, "tr"@),
        has_content(cells_in(d, k + 1, end_of(d, k))),
    ensures
        0 <= r < rows_in(d, a, b).len(),
        rows_in(d, a, b)[r] == cells_in(d, k + 1, end_of(d, k)),
    decreases b - a,
{
    if k == b - 1 {
        rows_in(d, a, b - 1).len() as int
    } else {
        lemma_row(d, a, b - 1, k)
    }
}

proof fn lemma_row_cell(row: Seq<Seq<char>>, widths: Seq<int>, n: int, c: int)
    requires
        0 <= c < n <= row.len(),
        n <= widths.len(),
    ensures
        has_part(row_to(row, widths, n), row[c]),
    decreases n,
{
    let before = row_to(row, widths, n - 1);
    let cell = padded(row[n - 1], widths[n - 1]);
    let all = row_to(row, widths, n);
    if c == n - 1 {
        let pad = if row[c].len() < widths[c] {
            crate::text::repeated(' ', (widths[c] - row[c].len()) as nat)
        } else {
            Seq::empty()
        };
        lemma_part_in(before + " "@, row[c], pad + " \u{2502}"@);
        assert(before + " "@ + row[c] + (pad + " \u{2502}"@) =~= all);
    } else {
        lemma_row_cell(row, widths, n - 1, c);
        lemma_part_in(Seq::empty(), before, " "@ + cell + " \u{2502}"@);
        assert(Seq::<char>::empty() + before + (" "@ + cell + " \u{2502}"@) =~= all);
        lemma_part_of_part(all, before, row[c]);
    }
}

proof fn lemma_line_found(p: PageView, line: Seq<char>, w: Seq<char>)
    requires
        has_part(line, w) || found(p, w),
    ensures
        found(line_added(p, line), w),
{
    let a = appended(p, line);
    lemma_appended(p, line);
    if has_part(line, w) {
        lemma_appended_found(p, line, w);
    } else {
        lemma_found(p, a, w);
    }
    lemma_newlined(a);
    lemma_found(a, newlined(a), w);
}

proof fn lemma_drawn_found(
    p: PageView,
    rows: Seq<Seq<Seq<char>>>,
    widths: Seq<int>,
    n: int,
    r: int,
    w: Seq<char>,
)
    requires
        0 <= r < n <= rows.len(),
        has_part(row_to(rows[r], widths, rows[r].len() as int), w),
    ensures
        found(rows_drawn(p, rows, widths, n), w),
    decreases n,
{
    let before = rows_drawn(p, rows, widths, n - 1);
    let row = rows[n - 1];
    let line = row_to(row, widths, row.len() as int);
    if r < n - 1 {
        lemma_drawn_found(p, rows, widths, n - 1, r, w);
    }
    lemma_line_found(before, line, w);
    lemma_line_found(
        line_added(before, line),
        border(widths, '\u{251C}', '\u{253C}', '\u{2524}'),
        w,
    );
}

proof fn lemma_cells_found(p: PageView, row: Seq<Seq<char>>, n: int, c: int, w: Seq<char>)
    requires
        n <= row.len(),
        0 <= c < n && row[c].len() > 0 && has_part(row[c], w) || found(p, w),
    ensures
        found(cells_listed(p, row, n), w),
    decreases n,
{
    if n > 0 {
        let before = cells_listed(p, row, n - 1);
        let line = decimal((n - 1) as nat) + ": "@ + row[n - 1];
        if c == n - 1 && !found(p, w) {
            lemma_part_in(decimal((n - 1) as nat) + ": "@, row[c], Seq::empty());
            assert(decimal((n - 1) as nat) + ": "@ + row[c] + Seq::<char>::empty() =~= line);
            lemma_part_of_part(line, row[c], w);
        } else {
            lemma_cells_found(p, row, n - 1, c, w);
        }
        lemma_line_found(before, line, w);
    }
}

proof fn lemma_listed_found(
    p: PageView,
    rows: Seq<Seq<Seq<char>>>,
    n: int,
    r: int,
    c: int,
    w: Seq<char>,
)
    requires
        0 <= r < n <= rows.len(),
        0 <= c < rows[r].len(),
        rows[r][c].len() > 0,
        has_part(rows[r][c], w),
    ensures
        found(rows_listed(p, rows, n), w),
    decreases n,
{
    let before = rows_listed(p, rows, n - 1);
    let row = rows[n - 1];
    if r < n - 1 {
        lemma_listed_found(p, rows, n - 1, r, c, w);
    }
    let x = cells_listed(before, row, row.len() as int);
    lemma_cells_found(before, row, row.len() as int, c, w);
    lemma_newlined(x);
    lemma_found(x, newlined(x), w);
}

/// Every run of characters without white space in a cell of a table of data stands whole
/// on a line of the page, whether the table is drawn or listed.
pub proof fn law_table_cell(
    d: Seq<ItemView>,
    i: int,
    p: PageView,
    row: int,
    cell: int,
    k: int,
    w: Seq<char>,
)
    requires
        0 <= i < row < end_of(d, i),
        row < cell < end_of(d, row),
        cell < k < end_of(d, cell),
        k < d.len(),
        tag_at(d, i) == "table"@,
        holds(d, i, "th"@),
        !holds(d, i, "table"@),
        is_named(d, row, "tr"@),
        is_named(d, cell, "td"@) || is_named(d, cell, "th"@),
        d[k].node is Text,
        is_word(w),
        has_part(d[k].node->Text_0, w),
    ensures
        found(element_shown(d, i, p), w),
{
    lemma_kinds();
    let text = text_of(d, cell);
    lemma_text_in_part(d, cell, end_of(d, cell), k);
    lemma_part_of_part(text, d[k].node->Text_0, w);
    lemma_collapsed_part(text, w);
    lemma_trim_part(collapsed(text), w);
    let shown = trim(collapsed(text));
    assert(shown.len() > 0) by {
        let x = choose|x: int| stands_at(shown, w, x);
    }
    let cells = cells_in(d, row + 1, end_of(d, row));
    let c = lemma_cell(d, row + 1, end_of(d, row), cell);
    assert(cells[c].len() > 0);
    assert(has_content(cells));
    let rows = crate::table::table_rows(d, i);
    let r = lemma_row(d, i + 1, end_of(d, i), row);
    assert(rows[r] == cells);
    let q = blanked(p);
    let widths = column_widths(rows);
    if box_width(widths) <= q.width {
        crate::table::lemma_column_count(rows);
        lemma_row_cell(cells, widths, cells.len() as int, c);
        lemma_part_of_part(row_to(cells, widths, cells.len() as int), cells[c], w);
        let top = line_added(q, border(widths, '\u{250C}', '\u{252C}', '\u{2510}'));
        lemma_drawn_found(top, rows, widths, rows.len() as int, r, w);
        lemma_line_found(
            rows_drawn(top, rows, widths, rows.len() as int),
            border(widths, '\u{2514}', '\u{2534}', '\u{2518}'),
            w,
        );
    } else {
        lemma_listed_found(q, rows, rows.len() as int, r, c, w);
    }
    let t = crate::table::table_shown(q, rows);
    lemma_blanked(t);
    lemma_found(t, blanked(t), w);
}

// --- Whole pages ---

/// What is on a finished page is in its text.
pub proof fn law_page_text(
    page: ParsedPage,
    width: int,
    base: Seq<char>,
    conf: ConfigView,
    w: Seq<char>,
)
    requires
        w.len() > 0,
        found(page_shown(page, width, base, conf), w),
    ensures
        has_part(rendered(page, width, base, conf).text, w),
{
    let p = page_shown(page, width, base, conf);
    assert(p.line.len() == 0) by {
        reveal(newlined);
    }
    let line = choose|line: int| reads(p, line, w);
    if line == p.lines.len() && has_part(p.line, w) {
        let i = choose|i: int| stands_at(p.line, w, i);
        assert(false);
    }
    lemma_joined_part(p.lines, "\n"@, line);
    lemma_part_of_part(join(p.lines, "\n"@), p.lines[line], w);
}

/// Every run of characters without white space in a text of the page's body that is in
/// sight is in the text of the rendered page.
pub proof fn law_body_text(
    page: ParsedPage,
    width: int,
    base: Seq<char>,
    conf: ConfigView,
    k: int,
    w: Seq<char>,
)
    requires
        page.bodies.len() > 0,
        ({
            let d = page.bodies[0].items;
            &&& 0 < k < end_of(d, 0)
            &&& k < d.len()
            &&& in_sight(d, 1, k)
            &&& has_part(d[k].node->Text_0, w)
        }),
        is_word(w),
    ensures
        has_part(rendered(page, width, base, conf).text, w),
{
    let d = page.bodies[0].items;
    let start = crate::canvas::empty_page(width, base, conf);
    let p = children_shown(d, 0, start);
    law_text_reaches_page(d, 1, end_of(d, 0), start, k, w);
    lemma_newlined(p);
    lemma_found(p, newlined(p), w);
    law_page_text(page, width, base, conf, w);
}

/// The title of a page is the text of its first `title` element.
pub proof fn law_title(page: ParsedPage, width: int, base: Seq<char>, conf: ConfigView, k: int)
    requires
        0 < k < end_of(page.root, 0),
        is_named(page.root, k, "title"@),
        forall|j: int| 0 < j < k ==> !is_named(page.root, j, "title"@),
        page.root.len() > 0,
    ensures
        rendered(page, width, base, conf).title == trim(text_of(page.root, k)),
{
    lemma_first_named(page.root, "title"@, 1, end_of(page.root, 0), k);
}

proof fn lemma_first_named(d: Seq<ItemView>, tag: Seq<char>, a: int, b: int, k: int)
    requires
        a <= k < b,
        is_named(d, k, tag),
        forall|j: int| a <= j < k ==> !is_named(d, j, tag),
    ensures
        crate::dom::first_named(d, tag, a, b) == Some(k),
    decreases b - a,
{
    if a < k {
        assert(!is_named(d, a, tag));
        lemma_first_named(d, tag, a + 1, b, k);
    }
}

/// An element lies under another where one of the nodes under it has its name.
pub proof fn law_holds(d: Seq<ItemView>, i: int, tag: Seq<char>)
    ensures
        holds(d, i, tag) <==> exists|k: int| i < k < end_of(d, i) && is_named(d, k, tag),
{
    lemma_holds(d, tag, i + 1, end_of(d, i));
}

proof fn lemma_holds(d: Seq<ItemView>, tag: Seq<char>, a: int, b: int)
    ensures
        crate::dom::first_named(d, tag, a, b) is Some <==> exists|k: int|
            a <= k < b && is_named(d, k, tag),
    decreases b - a,
{
    if a < b {
        lemma_holds(d, tag, a + 1, b);
        if is_named(d, a, tag) {
            assert(a <= a < b && is_named(d, a, tag));
        } else if exists|k: int| a <= k < b && is_named(d, k, tag) {
            let k = choose|k: int| a <= k < b && is_named(d, k, tag);
            assert(a + 1 <= k < b && is_named(d, k, tag));
        }
    }
}

/// An attribute is read from the element that has it: the first without a namespace that
/// has its name.
pub proof fn law_attribute(n: NodeView, key: Seq<char>, k: int)
    requires
        n is Element,
        0 <= k < n->attrs.len(),
        n->attrs[k].0.len() == 0,
        n->attrs[k].1 == key,
        forall|j: int|
            0 <= j < k ==> !((#[trigger] n->attrs[j]).0.len() == 0 && n->attrs[j].1 == key),
    ensures
        attr_of(n, key) == Some(n->attrs[k].2),
{
    lemma_attr_from(n->attrs, key, 0, k);
}

proof fn lemma_attr_from(
    attrs: Seq<(Seq<char>, Seq<char>, Seq<char>)>,
    key: Seq<char>,
    j: int,
    k: int,
)
    requires
        0 <= j <= k < attrs.len(),
        attrs[k].0.len() == 0 && attrs[k].1 == key,
        forall|x: int| j <= x < k ==> !((#[trigger] attrs[x]).0.len() == 0 && attrs[x].1 == key),
    ensures
        crate::dom::attr_from(attrs, key, j) == Some(attrs[k].2),
    decreases k - j,
{
    if j < k {
        lemma_attr_from(attrs, key, j + 1, k);
    }
}

/// The text under an element is the text of its nodes, each of them.
pub proof fn law_text_under(d: Seq<ItemView>, i: int, k: int)
    requires
        0 <= i <= k < end_of(d, i),
        d[k].node is Text,
    ensures
        has_part(text_of(d, i), d[k].node->Text_0),
{
    lemma_text_in_part(d, i, end_of(d, i), k);
}

/// What a rendered page gives is what was found on it: its lines, its links, its forms and
/// its images.
pub proof fn law_rendered(page: ParsedPage, width: int, base: Seq<char>, conf: ConfigView)
    ensures
        ({
            let p = page_shown(page, width, base, conf);
            let r = rendered(page, width, base, conf);
            &&& r.text == join(p.lines, seq!['\n'])
            &&& r.links == p.links
            &&& r.forms == p.forms
            &&& r.images == p.images
            &&& starts(base, "file://"@) ==> r.site_bg is None && r.site_fg is None
            &&& !starts(base, "file://"@) ==> (r.site_bg, r.site_fg)
                == crate::colors::site_colors(page.bodies, page.styles)
        }),
{
    reveal_strlit("\n");
    assert("\n"@ =~= seq!['\n']);
}

/// A table of data that is too wide to be drawn is listed: each cell on a line of its own,
/// behind its number in the row.
pub proof fn law_cell_listed(p: PageView, rows: Seq<Seq<Seq<char>>>, r: int, c: int)
    requires
        0 <= r < rows.len(),
        0 <= c < rows[r].len(),
        rows[r][c].len() > 0,
        box_width(column_widths(rows)) > p.width,
    ensures
        found(crate::table::table_shown(p, rows), decimal(c as nat) + ": "@ + rows[r][c]),
{
    lemma_row_listed(p, rows, rows.len() as int, r, c);
}

proof fn lemma_row_listed(p: PageView, rows: Seq<Seq<Seq<char>>>, n: int, r: int, c: int)
    requires
        0 <= r < n <= rows.len(),
        0 <= c < rows[r].len(),
        rows[r][c].len() > 0,
    ensures
        found(rows_listed(p, rows, n), decimal(c as nat) + ": "@ + rows[r][c]),
    decreases n,
{
    let t = decimal(c as nat) + ": "@ + rows[r][c];
    let before = rows_listed(p, rows, n - 1);
    let row = rows[n - 1];
    let x = cells_listed(before, row, row.len() as int);
    if r < n - 1 {
        lemma_row_listed(p, rows, n - 1, r, c);
        lemma_cells_found(before, row, row.len() as int, 0, t);
    } else {
        lemma_cell_line(before, row, row.len() as int, c);
    }
    lemma_newlined(x);
    lemma_found(x, newlined(x), t);
}

proof fn lemma_cell_line(p: PageView, row: Seq<Seq<char>>, n: int, c: int)
    requires
        0 <= c < n <= row.len(),
        row[c].len() > 0,
    ensures
        found(cells_listed(p, row, n), decimal(c as nat) + ": "@ + row[c]),
    decreases n,
{
    let t = decimal(c as nat) + ": "@ + row[c];
    let before = cells_listed(p, row, n - 1);
    let line = decimal((n - 1) as nat) + ": "@ + row[n - 1];
    if c == n - 1 {
        lemma_part_in(Seq::empty(), t, Seq::empty());
        assert(Seq::<char>::empty() + t + Seq::<char>::empty() =~= line);
    } else {
        lemma_cell_line(p, row, n - 1, c);
    }
    lemma_line_found(before, line, t);
}

proof fn lemma_padded_part(cell: Seq<char>, w: int)
    ensures
        padded(cell, w).len() >= cell.len(),
        padded(cell, w).take(cell.len() as int) == cell,
{
    assert(padded(cell, w).take(cell.len() as int) =~= cell);
}

/// In a drawn table each cell fills its column: it stands at its beginning, with spaces
/// behind it.
pub proof fn law_cell_padded(cell: Seq<char>, w: int)
    ensures
        padded(cell, w).len() >= w,
        padded(cell, w).take(cell.len() as int) == cell,
        forall|k: int|
            cell.len() <= k < padded(cell, w).len() ==> #[trigger] padded(cell, w)[k] == ' ',
{
    lemma_padded_part(cell, w);
}

} // verus!
