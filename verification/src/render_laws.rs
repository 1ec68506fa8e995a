//! What rendering keeps, whatever the page.

use vstd::prelude::*;
use crate::canvas::{
    appended, blanked, counted, empty_page, linked, newlined, with_field, with_form, with_image,
    word_added, words_added, ListType, PageView,
};
use crate::config::ConfigView;
use crate::dom::{attr_or, end_of, is_named, lemma_rise, text_of, ItemView, NodeView};
use crate::number::decimal;
use crate::renderer::{
    anchor_images, anchor_shown, bracketed, bullet, button_element_shown, button_shown,
    children_shown, element_shown, entry, form_begun, frame_shown, heading_shown, image_shown,
    image_source, input_field, input_shown, item_begun, kind_of, less, link_mark, list_closed,
    list_opened, or_text, page_content, page_shown, pieces_shown, rule_shown, select_shown, spaced,
    tag_at, text_shown, textarea_shown, walked, widget_line, Kind, ParsedPage,
};
use crate::style::{painted, underlined, width_of};
use crate::tab::{FieldView, FormView, LinkView};
use crate::table::{
    border, cells_listed, collapsed, column_widths, line_added, rows_drawn, rows_listed, table_rows,
    table_shown,
};
use crate::text::{split, stands_at, trim, words};

verus! {

// --- What is kept ---

/// The `k`-th link has number `k + 1`.
pub open spec fn numbered(links: Seq<LinkView>) -> bool {
    forall|k: int| 0 <= k < links.len() ==> (#[trigger] links[k]).index == k + 1
}

/// `t` stands somewhere in `s`.
pub open spec fn has_part(s: Seq<char>, t: Seq<char>) -> bool {
    exists|i: int| stands_at(s, t, i)
}

/// Line number `line` of the page, which may be the one that grows, holds `t`.
pub open spec fn reads(p: PageView, line: int, t: Seq<char>) -> bool {
    ||| 0 <= line < p.lines.len() && has_part(p.lines[line], t)
    ||| line == p.lines.len() && has_part(p.line, t)
}

/// Some line of the page holds `t`.
pub open spec fn found(p: PageView, t: Seq<char>) -> bool {
    exists|line: int| reads(p, line, t)
}

/// The line of every link holds the link's number.
pub open spec fn links_shown(p: PageView) -> bool {
    forall|k: int|
        0 <= k < p.links.len() ==> reads(
            p,
            (#[trigger] p.links[k]).line,
            bracketed(decimal((k + 1) as nat)),
        )
}

/// The line of every field that is shown holds the text that stands for the field.
pub open spec fn fields_shown(p: PageView) -> bool {
    forall|f: int, k: int|
        0 <= f < p.forms.len() && 0 <= k < p.forms[f].fields.len() ==> {
            let field = #[trigger] p.forms[f].fields[k];
            field.render_token.len() > 0 ==> reads(p, field.line, field.render_token)
        }
}

/// Links are numbered in order, and links and fields are where the page says.
#[verifier::opaque]
pub open spec fn sound(p: PageView) -> bool {
    numbered(p.links) && links_shown(p) && fields_shown(p)
}

/// `b` begins with `a`.
pub open spec fn begins<T>(a: Seq<T>, b: Seq<T>) -> bool {
    a.len() <= b.len() && forall|k: int| 0 <= k < a.len() ==> a[k] == #[trigger] b[k]
}

/// The text of `p` is in `q` where it was: finished lines stay, and the line that grew goes
/// on from what it was.
pub open spec fn carried(p: PageView, q: PageView) -> bool {
    &&& begins(p.lines, q.lines)
    &&& if q.lines.len() == p.lines.len() {
        begins(p.line, q.line)
    } else {
        begins(p.line, q.lines[p.lines.len() as int])
    }
}

/// Forms stay where they are, with what they send and the fields that they have.
pub open spec fn forms_kept(a: Seq<FormView>, b: Seq<FormView>) -> bool {
    &&& a.len() <= b.len()
    &&& forall|f: int|
        0 <= f < a.len() ==> {
            let x = a[f];
            let y = #[trigger] b[f];
            &&& x.action == y.action
            &&& x.method == y.method
            &&& x.line == y.line
            &&& begins(x.fields, y.fields)
        }
}

/// The page has grown from `p` to `q`: text, links, images and forms stay, and links stay
/// in order and in place.
pub open spec fn grown(p: PageView, q: PageView) -> bool {
    &&& carried(p, q)
    &&& begins(p.links, q.links)
    &&& begins(p.images, q.images)
    &&& forms_kept(p.forms, q.forms)
    &&& q.width == p.width
    &&& q.base == p.base
    &&& q.conf == p.conf
    &&& sound(p) ==> sound(q)
}

/// The page is indented, preformatted and nested in lists as before.
pub open spec fn framed(p: PageView, q: PageView) -> bool {
    q.indent == p.indent && q.in_pre == p.in_pre && q.lists.len() == p.lists.len()
}

pub open spec fn kept(p: PageView, q: PageView) -> bool {
    grown(p, q) && framed(p, q)
}

pub proof fn lemma_part_grows(s: Seq<char>, r: Seq<char>, t: Seq<char>)
    requires
        has_part(s, t),
        begins(s, r),
    ensures
        has_part(r, t),
{
    let i = choose|i: int| stands_at(s, t, i);
    assert(r.subrange(i, i + t.len()) =~= s.subrange(i, i + t.len()));
    assert(stands_at(r, t, i));
}

pub proof fn lemma_reads(p: PageView, q: PageView, line: int, t: Seq<char>)
    requires
        carried(p, q),
        reads(p, line, t),
    ensures
        reads(q, line, t),
{
    if line == p.lines.len() && has_part(p.line, t) {
        if q.lines.len() == p.lines.len() {
            lemma_part_grows(p.line, q.line, t);
        } else {
            lemma_part_grows(p.line, q.lines[line], t);
        }
    } else {
        assert(q.lines[line] == p.lines[line]);
    }
}

/// A page whose text is carried over, with the same links and forms, stays sound.
pub proof fn lemma_carried(p: PageView, q: PageView)
    requires
        carried(p, q),
        q.links == p.links,
        q.forms == p.forms,
    ensures
        sound(p) ==> sound(q),
{
    reveal(sound);
    if sound(p) {
        assert forall|k: int| 0 <= k < q.links.len() implies reads(
            q,
            (#[trigger] q.links[k]).line,
            bracketed(decimal((k + 1) as nat)),
        ) by {
            lemma_reads(p, q, p.links[k].line, bracketed(decimal((k + 1) as nat)));
        }
        assert forall|f: int, k: int|
            0 <= f < q.forms.len() && 0 <= k < q.forms[f].fields.len() implies ({
            let field = #[trigger] q.forms[f].fields[k];
            field.render_token.len() > 0 ==> reads(q, field.line, field.render_token)
        }) by {
            let field = p.forms[f].fields[k];
            if field.render_token.len() > 0 {
                lemma_reads(p, q, field.line, field.render_token);
            }
        }
    }
}

pub proof fn lemma_appended(p: PageView, text: Seq<char>)
    ensures
        kept(p, appended(p, text)),
        appended(p, text).lines == p.lines,
        appended(p, text).links == p.links,
        appended(p, text).forms == p.forms,
        carried(p, appended(p, text)),
        has_part(appended(p, text).line, text),
{
    reveal(appended);
    let q = appended(p, text);
    assert(carried(p, q));
    lemma_carried(p, q);
    let start = q.line.len() - text.len();
    assert(q.line.subrange(start, start + text.len()) =~= text);
    assert(stands_at(q.line, text, start));
}

pub proof fn lemma_newlined(p: PageView)
    ensures
        kept(p, newlined(p)),
{
    reveal(newlined);
    lemma_carried(p, newlined(p));
}

pub proof fn lemma_blanked(p: PageView)
    ensures
        kept(p, blanked(p)),
{
    reveal(blanked);
    reveal(newlined);
    lemma_carried(p, blanked(p));
}

proof fn lemma_word(p: PageView, word: Seq<char>)
    ensures
        kept(p, word_added(p, word)),
{
    reveal(word_added);
    lemma_newlined(p);
    lemma_appended(p, " "@);
    lemma_appended(newlined(p), " "@);
    lemma_appended(p, word);
    lemma_appended(newlined(p), word);
    lemma_appended(appended(p, " "@), word);
    lemma_appended(appended(newlined(p), " "@), word);
}

proof fn lemma_words(p: PageView, words: Seq<Seq<char>>)
    ensures
        kept(p, words_added(p, words)),
    decreases words.len(),
{
    if words.len() > 0 {
        lemma_words(p, words.drop_last());
        lemma_word(words_added(p, words.drop_last()), words.last());
    }
}

proof fn lemma_pieces(p: PageView, pieces: Seq<Seq<char>>)
    ensures
        kept(p, pieces_shown(p, pieces)),
    decreases pieces.len(),
{
    if pieces.len() > 0 {
        let q = pieces_shown(p, pieces.drop_last());
        lemma_pieces(p, pieces.drop_last());
        lemma_appended(q, painted(pieces.last(), 186));
        lemma_newlined(appended(q, painted(pieces.last(), 186)));
    }
}

pub proof fn lemma_text(p: PageView, text: Seq<char>)
    ensures
        kept(p, text_shown(p, text)),
{
    lemma_pieces(p, split(text, '\n'));
    lemma_words(p, words(collapsed(text)));
}

pub proof fn lemma_part_of_part(s: Seq<char>, r: Seq<char>, t: Seq<char>)
    requires
        has_part(s, r),
        has_part(r, t),
    ensures
        has_part(s, t),
{
    let i = choose|i: int| stands_at(s, r, i);
    let j = choose|j: int| stands_at(r, t, j);
    let here = s.subrange(i + j, i + j + t.len());
    assert forall|k: int| 0 <= k < t.len() implies #[trigger] here[k] == t[k] by {
        assert(s.subrange(i, i + r.len())[j + k] == r[j + k]);
        assert(r.subrange(j, j + t.len())[k] == t[k]);
    }
    assert(here =~= t);
    assert(stands_at(s, t, i + j));
}

pub proof fn lemma_part_in(a: Seq<char>, t: Seq<char>, b: Seq<char>)
    ensures
        has_part(a + t + b, t),
{
    let s = a + t + b;
    assert(s.subrange(a.len() as int, (a.len() + t.len()) as int) =~= t);
    assert(stands_at(s, t, a.len() as int));
}

/// A link and the text that stands for it, which holds its number.
pub proof fn lemma_linked(p: PageView, href: Seq<char>, text: Seq<char>, shown: Seq<char>)
    requires
        has_part(shown, bracketed(decimal(p.links.len() + 1))),
    ensures
        kept(p, appended(linked(p, href, text), shown)),
{
    reveal(linked);
    let l = linked(p, href, text);
    let q = appended(l, shown);
    lemma_appended(l, shown);
    lemma_appended(p, shown);
    assert(carried(p, q));
    assert(begins(p.links, q.links));
    if sound(p) {
        reveal(sound);
        let n = p.links.len() as int;
        lemma_part_of_part(q.line, shown, bracketed(decimal((n + 1) as nat)));
        assert forall|k: int| 0 <= k < q.links.len() implies reads(
            q,
            (#[trigger] q.links[k]).line,
            bracketed(decimal((k + 1) as nat)),
        ) by {
            if k < n {
                assert(q.links[k] == p.links[k]);
                lemma_reads(p, q, p.links[k].line, bracketed(decimal((k + 1) as nat)));
            }
        }
        assert forall|f: int, k: int|
            0 <= f < q.forms.len() && 0 <= k < q.forms[f].fields.len() implies ({
            let field = #[trigger] q.forms[f].fields[k];
            field.render_token.len() > 0 ==> reads(q, field.line, field.render_token)
        }) by {
            let field = p.forms[f].fields[k];
            if field.render_token.len() > 0 {
                lemma_reads(p, q, field.line, field.render_token);
            }
        }
        assert(numbered(q.links));
    }
}

proof fn lemma_form(p: PageView, action: Seq<char>, method: Seq<char>)
    ensures
        kept(p, with_form(p, action, method)),
{
    reveal(with_form);
    let q = with_form(p, action, method);
    if sound(p) {
        reveal(sound);
        assert forall|k: int| 0 <= k < q.links.len() implies reads(
            q,
            (#[trigger] q.links[k]).line,
            bracketed(decimal((k + 1) as nat)),
        ) by {
            assert(reads(p, p.links[k].line, bracketed(decimal((k + 1) as nat))));
        }
        assert forall|f: int, k: int|
            0 <= f < q.forms.len() && 0 <= k < q.forms[f].fields.len() implies ({
            let field = #[trigger] q.forms[f].fields[k];
            field.render_token.len() > 0 ==> reads(q, field.line, field.render_token)
        }) by {
            if f < p.forms.len() {
                assert(q.forms[f] == p.forms[f]);
                let field = p.forms[f].fields[k];
                if field.render_token.len() > 0 {
                    assert(reads(p, field.line, field.render_token));
                }
            }
        }
    }
}

/// A field on the line that grows and the text that stands for it, if any.
proof fn lemma_field(p: PageView, field: FieldView, shown: Seq<char>)
    requires
        field.render_token.len() > 0 ==> field.line == p.lines.len() && has_part(
            shown,
            field.render_token,
        ),
    ensures
        kept(p, appended(with_field(p, field), shown)),
{
    reveal(with_field);
    let w = with_field(p, field);
    let q = appended(w, shown);
    lemma_appended(w, shown);
    lemma_appended(p, shown);
    assert(carried(p, q));
    if sound(p) {
        lemma_field_sound(p, field, shown);
    }
}

proof fn lemma_field_sound(p: PageView, field: FieldView, shown: Seq<char>)
    requires
        sound(p),
        field.render_token.len() > 0 ==> field.line == p.lines.len() && has_part(
            shown,
            field.render_token,
        ),
    ensures
        sound(appended(with_field(p, field), shown)),
{
    reveal(with_field);
    reveal(sound);
    let w = with_field(p, field);
    let q = appended(w, shown);
    lemma_appended(w, shown);
    assert(carried(p, q));
    assert forall|k: int| 0 <= k < q.links.len() implies reads(
        q,
        (#[trigger] q.links[k]).line,
        bracketed(decimal((k + 1) as nat)),
    ) by {
        lemma_reads(p, q, p.links[k].line, bracketed(decimal((k + 1) as nat)));
    }
    assert forall|f: int, k: int|
        0 <= f < q.forms.len() && 0 <= k < q.forms[f].fields.len() implies ({
        let x = #[trigger] q.forms[f].fields[k];
        x.render_token.len() > 0 ==> reads(q, x.line, x.render_token)
    }) by {
        let x = q.forms[f].fields[k];
        if x.render_token.len() > 0 {
            if f == p.forms.len() - 1 && k == p.forms[f].fields.len() {
                lemma_part_of_part(q.line, shown, x.render_token);
            } else {
                assert(x == p.forms[f].fields[k]);
                lemma_reads(p, q, x.line, x.render_token);
            }
        }
    }
}

/// A field that is not shown.
proof fn lemma_hidden_field(p: PageView, field: FieldView)
    requires
        field.render_token.len() == 0,
    ensures
        kept(p, with_field(p, field)),
{
    reveal(with_field);
    let q = with_field(p, field);
    if sound(p) {
        reveal(sound);
        assert forall|k: int| 0 <= k < q.links.len() implies reads(
            q,
            (#[trigger] q.links[k]).line,
            bracketed(decimal((k + 1) as nat)),
        ) by {
            assert(reads(p, p.links[k].line, bracketed(decimal((k + 1) as nat))));
        }
        assert forall|f: int, k: int|
            0 <= f < q.forms.len() && 0 <= k < q.forms[f].fields.len() implies ({
            let x = #[trigger] q.forms[f].fields[k];
            x.render_token.len() > 0 ==> reads(q, x.line, x.render_token)
        }) by {
            let x = q.forms[f].fields[k];
            if x.render_token.len() > 0 {
                assert(x == p.forms[f].fields[k]);
                assert(reads(p, x.line, x.render_token));
            }
        }
    }
}

proof fn lemma_image(p: PageView, src: Seq<char>, alt: Seq<char>, height: int)
    requires
        height >= 0,
    ensures
        kept(p, with_image(p, src, alt, height)),
{
    reveal(with_image);
    reveal(newlined);
    lemma_carried(p, with_image(p, src, alt, height));
}

proof fn lemma_counted(p: PageView)
    ensures
        kept(p, counted(p)),
{
    reveal(counted);
    lemma_carried(p, counted(p));
}

proof fn lemma_image_shown(p: PageView, n: NodeView)
    ensures
        kept(p, image_shown(p, n)),
{
    let src = image_source(n);
    let height = crate::renderer::image_lines(
        crate::renderer::attr_number(n, "width"@),
        crate::renderer::attr_number(n, "height"@),
    );
    if src.len() > 0 && height != 0 {
        lemma_image(
            p,
            crate::address::resolved(src, crate::address::url_joined(p.base, src)),
            attr_or(n, "alt"@, Seq::empty()),
            height,
        );
    }
}

pub proof fn lemma_anchor_images(d: Seq<ItemView>, j: int, stop: int, p: PageView)
    ensures
        kept(p, anchor_images(d, j, stop, p)),
    decreases d.len() - j,
{
    if !(j < 0 || j >= stop || j >= d.len()) {
        lemma_rise(d, d[j].depth, j + 1);
        let q = if is_named(d, j, "img"@) {
            image_shown(p, d[j].node)
        } else {
            p
        };
        lemma_image_shown(p, d[j].node);
        lemma_anchor_images(d, end_of(d, j), stop, q);
    }
}

pub proof fn lemma_painted(text: Seq<char>, color: u8)
    ensures
        has_part(painted(text, color), text),
{
    lemma_part_in(
        "\x1b[38;5;"@ + decimal(color as nat) + "m"@,
        text,
        "\x1b[39m"@,
    );
}

/// What stands for the next link holds its number, behind whatever text.
pub proof fn lemma_mark(p: PageView, before: Seq<char>)
    ensures
        has_part(link_mark(p), bracketed(decimal(p.links.len() + 1))),
        has_part(before + link_mark(p), bracketed(decimal(p.links.len() + 1))),
{
    let number = bracketed(decimal(p.links.len() + 1));
    lemma_painted(number, entry(p.conf.c_link_num));
    let s = before + link_mark(p);
    lemma_part_in(before, link_mark(p), Seq::empty());
    assert(before + link_mark(p) + Seq::<char>::empty() =~= s);
    lemma_part_of_part(s, link_mark(p), number);
}

proof fn lemma_anchor(d: Seq<ItemView>, i: int, p: PageView)
    ensures
        kept(p, anchor_shown(d, i, p)),
{
    let href = attr_or(d[i].node, "href"@, Seq::empty());
    let target = crate::address::resolved(href, crate::address::url_joined(p.base, href));
    let text = trim(text_of(d, i));
    let q = spaced(p);
    lemma_appended(p, " "@);
    lemma_anchor_images(d, i + 1, end_of(d, i), q);
    let s = anchor_images(d, i + 1, end_of(d, i), q);
    let label = or_text(text, href);
    let before = underlined(painted(label, entry(q.conf.c_link)));
    lemma_mark(s, Seq::empty());
    lemma_mark(q, before);
    lemma_linked(s, target, or_text(text, "image link"@), link_mark(s));
    lemma_linked(q, target, label, before + link_mark(q));
}

pub proof fn lemma_line(p: PageView, line: Seq<char>)
    ensures
        kept(p, line_added(p, line)),
{
    lemma_appended(p, line);
    lemma_newlined(appended(p, line));
}

proof fn lemma_rows_drawn(
    p: PageView,
    rows: Seq<Seq<Seq<char>>>,
    widths: Seq<int>,
    n: int,
)
    ensures
        kept(p, rows_drawn(p, rows, widths, n)),
    decreases n,
{
    if n > 0 {
        lemma_rows_drawn(p, rows, widths, n - 1);
        let before = rows_drawn(p, rows, widths, n - 1);
        let row = rows[n - 1];
        let line = crate::table::row_to(row, widths, row.len() as int);
        lemma_line(before, line);
        lemma_line(line_added(before, line), border(widths, '\u{251C}', '\u{253C}', '\u{2524}'));
    }
}

proof fn lemma_cells_listed(p: PageView, row: Seq<Seq<char>>, n: int)
    ensures
        kept(p, cells_listed(p, row, n)),
    decreases n,
{
    if n > 0 {
        lemma_cells_listed(p, row, n - 1);
        lemma_line(cells_listed(p, row, n - 1), decimal((n - 1) as nat) + ": "@ + row[n - 1]);
    }
}

proof fn lemma_rows_listed(p: PageView, rows: Seq<Seq<Seq<char>>>, n: int)
    ensures
        kept(p, rows_listed(p, rows, n)),
    decreases n,
{
    if n > 0 {
        let before = rows_listed(p, rows, n - 1);
        let row = rows[n - 1];
        lemma_rows_listed(p, rows, n - 1);
        lemma_cells_listed(before, row, row.len() as int);
        lemma_newlined(cells_listed(before, row, row.len() as int));
    }
}

pub proof fn lemma_table(p: PageView, rows: Seq<Seq<Seq<char>>>)
    ensures
        kept(p, table_shown(p, rows)),
{
    let widths = column_widths(rows);
    let first = border(widths, '\u{250C}', '\u{252C}', '\u{2510}');
    let top = line_added(p, first);
    lemma_line(p, first);
    lemma_rows_drawn(top, rows, widths, rows.len() as int);
    lemma_line(
        rows_drawn(top, rows, widths, rows.len() as int),
        border(widths, '\u{2514}', '\u{2534}', '\u{2518}'),
    );
    lemma_rows_listed(p, rows, rows.len() as int);
}

proof fn lemma_rule(p: PageView)
    ensures
        kept(p, rule_shown(p)),
{
    let bar = painted(crate::text::repeated('\u{2500}', less(p.width, 60) as nat), 240);
    lemma_blanked(p);
    lemma_line(blanked(p), bar);
}

proof fn lemma_heading(p: PageView, level: u8, text: Seq<char>)
    ensures
        kept(p, heading_shown(p, level, text)),
{
    let color = crate::renderer::heading_color(p.conf, level);
    let shown = crate::style::emboldened(painted(text, color));
    let q = newlined(appended(blanked(p), shown));
    lemma_blanked(p);
    lemma_line(blanked(p), shown);
    let n = less(crate::table::byte_len(text), p.width) as nat;
    let bar = painted(crate::text::repeated('\u{2550}', n), color);
    lemma_line(q, bar);
    lemma_newlined(q);
    lemma_newlined(newlined(appended(q, bar)));
}

pub proof fn lemma_item(p: PageView)
    ensures
        kept(p, item_begun(p)),
{
    let q = newlined(p);
    lemma_newlined(p);
    lemma_counted(q);
    lemma_appended(counted(q), bullet(q));
}

proof fn lemma_button(p: PageView, token: Seq<char>)
    ensures
        kept(p, button_shown(p, token)),
{
    let t = crate::style::painted_on(token, 0, 252);
    lemma_appended(p, t);
    lemma_appended(appended(p, t), " "@);
}

/// A field and the text that stands for it.
proof fn lemma_widget(p: PageView, field: FieldView, token: Seq<char>)
    requires
        field.line == p.lines.len(),
        field.render_token == token,
    ensures
        kept(p, widget_line(with_field(p, field), token)),
        kept(p, button_shown(with_field(p, field), token)),
{
    let w = with_field(p, field);
    let shown = painted(token, 252);
    lemma_painted(token, 252);
    lemma_field(p, field, shown);
    lemma_newlined(appended(w, shown));
    let pressed = crate::style::painted_on(token, 0, 252);
    lemma_part_in(
        "\x1b[38;5;"@ + decimal(0) + ";48;5;"@ + decimal(252) + "m"@,
        token,
        "\x1b[39;49m"@,
    );
    lemma_field(p, field, pressed);
    lemma_appended(appended(w, pressed), " "@);
}

proof fn lemma_input(p: PageView, n: NodeView)
    ensures
        kept(p, input_shown(p, n)),
{
    let itype = crate::text::lowercase_of(attr_or(n, "type"@, "text"@));
    let field = input_field(n, itype, p.lines.len() as int);
    if itype == "hidden"@ {
        lemma_hidden_field(p, field);
    } else {
        lemma_widget(p, field, field.render_token);
    }
}

proof fn lemma_select(d: Seq<ItemView>, i: int, p: PageView)
    ensures
        kept(p, select_shown(d, i, p)),
{
    let n = d[i].node;
    let name = attr_or(n, "name"@, Seq::empty());
    let options = crate::renderer::options_in(d, i + 1, end_of(d, i));
    let token = "["@ + name + " \u{25BC}]"@;
    let field = FieldView {
        field_type: "select"@,
        name,
        id: attr_or(n, "id"@, Seq::empty()),
        value: if options.len() > 0 {
            options[0].0
        } else {
            Seq::empty()
        },
        options,
        line: p.lines.len() as int,
        render_token: token,
        ..crate::tab::empty_field()
    };
    lemma_widget(p, field, token);
}

proof fn lemma_textarea(p: PageView, n: NodeView, text: Seq<char>)
    ensures
        kept(p, textarea_shown(p, n, text)),
{
    let name = attr_or(n, "name"@, Seq::empty());
    let token = crate::renderer::blank_token(name);
    let field = FieldView {
        field_type: "textarea"@,
        name,
        id: attr_or(n, "id"@, Seq::empty()),
        value: text,
        line: p.lines.len() as int,
        render_token: token,
        ..crate::tab::empty_field()
    };
    lemma_widget(p, field, token);
}

proof fn lemma_button_element(p: PageView, n: NodeView, text: Seq<char>)
    ensures
        kept(p, button_element_shown(p, n, text)),
{
    let label = crate::renderer::button_label(n, text);
    let field = FieldView {
        field_type: "submit"@,
        name: attr_or(n, "name"@, Seq::empty()),
        id: attr_or(n, "id"@, Seq::empty()),
        value: label,
        line: p.lines.len() as int,
        render_token: bracketed(label),
        ..crate::tab::empty_field()
    };
    lemma_widget(p, field, bracketed(label));
    lemma_button(p, bracketed(label));
}

pub proof fn lemma_form_begun(p: PageView, n: NodeView)
    ensures
        kept(p, form_begun(p, n)),
{
    let action = attr_or(n, "action"@, Seq::empty());
    let method = crate::text::uppercase_of(attr_or(n, "method"@, "get"@));
    let target = crate::address::resolved(action, crate::address::url_joined(p.base, action));
    let q = with_form(p, target, method);
    lemma_form(p, target, method);
    lemma_blanked(q);
    lemma_line(blanked(q), crate::style::emboldened(painted("[Form]"@, 208)));
}

proof fn lemma_frame(p: PageView, n: NodeView)
    ensures
        kept(p, frame_shown(p, n)),
{
    let src = attr_or(n, "src"@, Seq::empty());
    if let Some(id) = crate::renderer::youtube_id(src) {
        let href = "https://www.youtube.com/watch?v="@ + id;
        let before = painted("\u{25B6} YouTube Video"@, 196) + " "@;
        let shown = before + link_mark(p);
        lemma_mark(p, before);
        lemma_linked(p, href, "YouTube Video"@, shown);
        lemma_newlined(appended(linked(p, href, "YouTube Video"@), shown));
    }
}

// --- Text ---

/// A word ends within the page, of whose width one cell is left for the space before the
/// word, or it begins its line.
pub proof fn law_word_fits(p: PageView, word: Seq<char>)
    requires
        p.indent >= 0,
    ensures
        ({
            let col = word_added(p, word).col;
            ||| col <= p.indent + width_of(word)
            ||| col <= p.width - 1 + width_of(" "@)
        }),
{
    reveal(word_added);
    reveal(newlined);
    reveal(appended);
}

proof fn lemma_word_read(p: PageView, word: Seq<char>)
    ensures
        reads(word_added(p, word), word_added(p, word).lines.len() as int, word),
{
    reveal(word_added);
    lemma_appended(p, word);
    lemma_appended(newlined(p), word);
    lemma_appended(appended(p, " "@), word);
    lemma_appended(appended(newlined(p), " "@), word);
}

pub proof fn lemma_words_read(p: PageView, words: Seq<Seq<char>>)
    ensures
        forall|k: int|
            0 <= k < words.len() ==> found(words_added(p, words), #[trigger] words[k]),
    decreases words.len(),
{
    if words.len() > 0 {
        let q = words_added(p, words.drop_last());
        let r = words_added(p, words);
        lemma_words_read(p, words.drop_last());
        lemma_word(q, words.last());
        lemma_word_read(q, words.last());
        assert forall|k: int| 0 <= k < words.len() implies found(
            r,
            #[trigger] words[k],
        ) by {
            if k < words.len() - 1 {
                assert(words[k] == words.drop_last()[k]);
                let line = choose|line: int| reads(q, line, words.drop_last()[k]);
                lemma_reads(q, r, line, words[k]);
            } else {
                assert(reads(r, r.lines.len() as int, words[k]));
            }
        }
    }
}

pub proof fn lemma_pieces_read(p: PageView, pieces: Seq<Seq<char>>)
    ensures
        forall|k: int|
            0 <= k < pieces.len() ==> found(pieces_shown(p, pieces), #[trigger] pieces[k]),
    decreases pieces.len(),
{
    if pieces.len() > 0 {
        let q = pieces_shown(p, pieces.drop_last());
        let s = appended(q, painted(pieces.last(), 186));
        let r = pieces_shown(p, pieces);
        lemma_pieces_read(p, pieces.drop_last());
        lemma_appended(q, painted(pieces.last(), 186));
        lemma_painted(pieces.last(), 186);
        lemma_part_of_part(s.line, painted(pieces.last(), 186), pieces.last());
        lemma_newlined(s);
        assert forall|k: int| 0 <= k < pieces.len() implies found(
            r,
            #[trigger] pieces[k],
        ) by {
            if k < pieces.len() - 1 {
                assert(pieces[k] == pieces.drop_last()[k]);
                let line = choose|line: int| reads(q, line, pieces.drop_last()[k]);
                lemma_reads(q, r, line, pieces[k]);
            } else {
                assert(reads(s, s.lines.len() as int, pieces[k]));
                lemma_reads(s, r, s.lines.len() as int, pieces[k]);
            }
        }
    }
}

/// What of a text stays whole on the page: its words, or its lines where it is
/// preformatted.
pub open spec fn parts_of(p: PageView, text: Seq<char>) -> Seq<Seq<char>> {
    if p.in_pre {
        split(text, '\n')
    } else {
        words(collapsed(text))
    }
}

/// Each word of a text, or each of its lines where it is preformatted, stands whole on a
/// line of the page, also when the walk has gone on behind the text.
pub proof fn law_text_shown(d: Seq<ItemView>, j: int, stop: int, p: PageView)
    requires
        0 <= j < d.len(),
        j < stop,
        d[j].node is Text,
    ensures
        forall|k: int|
            0 <= k < parts_of(p, d[j].node->Text_0).len() ==> found(
                walked(d, j, stop, p),
                #[trigger] parts_of(p, d[j].node->Text_0)[k],
            ),
{
    let text = d[j].node->Text_0;
    let parts = parts_of(p, text);
    let q = text_shown(p, text);
    let r = walked(d, j, stop, p);
    lemma_pieces_read(p, parts);
    lemma_words_read(p, parts);
    law_walk_keeps(d, end_of(d, j), stop, q);
    assert(r == walked(d, end_of(d, j), stop, q));
    assert forall|k: int| 0 <= k < parts.len() implies found(
        r,
        #[trigger] parts[k],
    ) by {
        if p.in_pre {
            let line = choose|line: int| reads(pieces_shown(p, parts), line, parts[k]);
            lemma_reads(q, r, line, parts[k]);
        } else {
            let line = choose|line: int| reads(words_added(p, parts), line, parts[k]);
            lemma_reads(q, r, line, parts[k]);
        }
    }
}

/// Walking over nodes keeps what is on the page, and leaves it framed as it was.
pub proof fn law_walk_keeps(d: Seq<ItemView>, j: int, stop: int, p: PageView)
    ensures
        kept(p, walked(d, j, stop, p)),
    decreases d.len() - j, 3int,
{
    if !(j < 0 || j >= stop || j >= d.len()) {
        lemma_rise(d, d[j].depth, j + 1);
        let q = match d[j].node {
            NodeView::Text(t) => text_shown(p, t),
            NodeView::Element { name, .. } => element_shown(d, j, p),
            NodeView::Other => p,
        };
        match d[j].node {
            NodeView::Text(t) => lemma_text(p, t),
            NodeView::Element { name, .. } => law_element_keeps(d, j, p),
            NodeView::Other => {},
        }
        law_walk_keeps(d, end_of(d, j), stop, q);
    }
}

pub proof fn lemma_children(d: Seq<ItemView>, i: int, p: PageView)
    requires
        0 <= i < d.len(),
    ensures
        kept(p, children_shown(d, i, p)),
    decreases d.len() - i, 0int,
{
    law_walk_keeps(d, i + 1, end_of(d, i), p);
}

pub proof fn lemma_list(d: Seq<ItemView>, i: int, p: PageView, list: ListType)
    requires
        0 <= i < d.len(),
    ensures
        kept(
            p,
            list_closed(children_shown(d, i, list_opened(p, list)), blanked(p).indent),
        ),
    decreases d.len() - i, 1int,
{
    let opened = list_opened(p, list);
    let inner = children_shown(d, i, opened);
    lemma_blanked(p);
    lemma_carried(blanked(p), opened);
    lemma_children(d, i, opened);
    lemma_carried(inner, list_closed(inner, blanked(p).indent));
}

/// Showing an element keeps what is on the page, and leaves it framed as it was.
pub proof fn law_element_keeps(d: Seq<ItemView>, i: int, p: PageView)
    requires
        0 <= i < d.len(),
    ensures
        kept(p, element_shown(d, i, p)),
    decreases d.len() - i, 2int,
{
    let n = d[i].node;
    match kind_of(tag_at(d, i)) {
        Kind::Skip => {},
        Kind::Break => lemma_newlined(p),
        Kind::Rule => lemma_rule(p),
        Kind::Heading(level) => lemma_heading(p, level, trim(text_of(d, i))),
        Kind::Block => {
            lemma_blanked(p);
            lemma_children(d, i, blanked(p));
            lemma_blanked(children_shown(d, i, blanked(p)));
        },
        Kind::Quote => {
            let q = blanked(p);
            let opened = PageView { indent: crate::canvas::sum(q.indent, 2), ..q };
            let inner = children_shown(d, i, opened);
            let closed = PageView { indent: q.indent, ..inner };
            lemma_blanked(p);
            lemma_carried(q, opened);
            lemma_children(d, i, opened);
            lemma_carried(inner, closed);
            lemma_blanked(closed);
        },
        Kind::Pre => {
            let q = blanked(p);
            let opened = PageView { in_pre: true, ..q };
            let inner = children_shown(d, i, opened);
            let closed = PageView { in_pre: q.in_pre, ..inner };
            lemma_blanked(p);
            lemma_carried(q, opened);
            lemma_children(d, i, opened);
            lemma_carried(inner, closed);
            lemma_blanked(closed);
        },
        Kind::Code => lemma_appended(p, painted(text_of(d, i), 186)),
        Kind::Bullets => lemma_list(d, i, p, ListType::Unordered),
        Kind::Numbers => lemma_list(d, i, p, ListType::Ordered(1)),
        Kind::Item => {
            lemma_item(p);
            lemma_children(d, i, item_begun(p));
        },
        Kind::Anchor => {
            lemma_anchor(d, i, p);
            lemma_children(d, i, p);
        },
        Kind::Strong => lemma_appended(p, crate::style::emboldened(text_of(d, i))),
        Kind::Emphasis => lemma_appended(p, crate::style::slanted(text_of(d, i))),
        Kind::Underline => lemma_appended(p, underlined(text_of(d, i))),
        Kind::Struck => lemma_appended(p, painted(text_of(d, i), 240)),
        Kind::Image => lemma_image_shown(p, n),
        Kind::Form => {
            lemma_form_begun(p, n);
            lemma_children(d, i, form_begun(p, n));
            lemma_blanked(children_shown(d, i, form_begun(p, n)));
        },
        Kind::Input => lemma_input(p, n),
        Kind::Select => lemma_select(d, i, p),
        Kind::TextArea => lemma_textarea(p, n, text_of(d, i)),
        Kind::Button => lemma_button_element(p, n, text_of(d, i)),
        Kind::Table => {
            lemma_blanked(p);
            lemma_table(blanked(p), table_rows(d, i));
            lemma_blanked(table_shown(blanked(p), table_rows(d, i)));
            lemma_children(d, i, p);
        },
        Kind::Frame => lemma_frame(p, n),
        Kind::Inline => lemma_children(d, i, p),
    }
}

/// The links of a rendered page are numbered from one in the order in which they stand.
/// Each stands on a line of the page, and that line holds its number. So does the line of
/// each form field that is shown hold the text that stands for the field.
pub proof fn law_page_found(page: ParsedPage, width: int, base: Seq<char>, conf: ConfigView)
    ensures
        ({
            let p = page_shown(page, width, base, conf);
            &&& numbered(p.links)
            &&& forall|k: int|
                0 <= k < p.links.len() ==> {
                    let line = (#[trigger] p.links[k]).line;
                    0 <= line < p.lines.len() && has_part(
                        p.lines[line],
                        bracketed(decimal((k + 1) as nat)),
                    )
                }
            &&& forall|f: int, k: int|
                0 <= f < p.forms.len() && 0 <= k < p.forms[f].fields.len() ==> {
                    let field = #[trigger] p.forms[f].fields[k];
                    field.render_token.len() > 0 ==> 0 <= field.line < p.lines.len() && has_part(
                        p.lines[field.line],
                        field.render_token,
                    )
                }
        }),
{
    let start = empty_page(width, base, conf);
    let d = page_content(page);
    let p = page_shown(page, width, base, conf);
    assert(sound(start)) by {
        reveal(sound);
    }
    if d.len() > 0 {
        law_walk_keeps(d, 1, end_of(d, 0), start);
        lemma_newlined(children_shown(d, 0, start));
    }
    reveal(newlined);
    reveal(sound);
    assert(p.line.len() == 0);
    assert forall|k: int| 0 <= k < p.links.len() implies ({
        let line = (#[trigger] p.links[k]).line;
        0 <= line < p.lines.len() && has_part(p.lines[line], bracketed(decimal((k + 1) as nat)))
    }) by {
        assert(reads(p, p.links[k].line, bracketed(decimal((k + 1) as nat))));
    }
    assert forall|f: int, k: int|
        0 <= f < p.forms.len() && 0 <= k < p.forms[f].fields.len() implies ({
        let field = #[trigger] p.forms[f].fields[k];
        field.render_token.len() > 0 ==> 0 <= field.line < p.lines.len() && has_part(
            p.lines[field.line],
            field.render_token,
        )
    }) by {
        let field = p.forms[f].fields[k];
        if field.render_token.len() > 0 {
            assert(reads(p, field.line, field.render_token));
        }
    }
}

} // verus!
