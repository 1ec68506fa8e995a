//! Pages as text: from markup to lines, links, forms and images.

use vstd::prelude::*;
use crate::address::{resolve_url, resolved, url_joined};
use crate::canvas::{
    appended, blanked, counted, empty_page, linked, newlined, sum, with_field, with_form,
    with_image, wrapped, ListType, PageView, RenderContext,
};
use crate::colors::{extract_site_colors, site_colors};
use crate::config::{Config, ConfigView};
use crate::dom::{
    attr_of, attr_or, end_of, find_end, find_named, first_named,
    has_named, holds, is_named, lemma_rise, named, node_attr, node_attr_or, select_elements,
    selected_elements, text_of, text_under, DomItem, DomNode, ItemView, NodeView, Selected,
    SelectedView,
};
use crate::number::{decimal, number, parse_number, parsed};
use crate::style::{
    emboldened, painted, painted_on, slanted, underlined,
};
use crate::tab::{
    empty_field, pairs, views, FieldView, Form, FormField, FormView, ImageRef, ImageView, Link,
    LinkView,
};
use crate::table::{
    byte_len, collapse_whitespace, collapsed, render_table, table_rows, table_shown,
};
use crate::text::{
    chars2, chars_of, concat, concat3, contains, find, find_in, find_text, has_text, join,
    join_strings, lowercase_of, next_in, part, part_string, repeat_char, repeated, same, split,
    split_chars, starts, starts_with, string_of, trim, trimmed, uppercase_of, words, words_chars,
};

verus! {

broadcast use vstd::string::group_string_axioms;

// --- Elements ---

/// What an element does to the page.
#[derive(Clone, Copy, PartialEq, Eq, Structural)]
pub enum Kind {
    Skip,
    Break,
    Rule,
    Heading(u8),
    Block,
    Quote,
    Pre,
    Code,
    Bullets,
    Numbers,
    Item,
    Anchor,
    Strong,
    Emphasis,
    Underline,
    Struck,
    Image,
    Form,
    Input,
    Select,
    TextArea,
    Button,
    Table,
    Frame,
    Inline,
}

pub open spec fn kind_of(tag: Seq<char>) -> Kind {
    if tag == "script"@ || tag == "style"@ || tag == "noscript"@ || tag == "svg"@ || tag == "head"@
        || tag == "meta"@ || tag == "link"@ {
        Kind::Skip
    } else if tag == "br"@ {
        Kind::Break
    } else if tag == "hr"@ {
        Kind::Rule
    } else if tag == "h1"@ {
        Kind::Heading(1)
    } else if tag == "h2"@ {
        Kind::Heading(2)
    } else if tag == "h3"@ {
        Kind::Heading(3)
    } else if tag == "h4"@ || tag == "h5"@ || tag == "h6"@ {
        Kind::Heading(4)
    } else if tag == "p"@ || tag == "div"@ || tag == "section"@ || tag == "article"@ || tag
        == "main"@ || tag == "header"@ || tag == "footer"@ || tag == "nav"@ || tag == "aside"@
        || tag == "figure"@ || tag == "figcaption"@ {
        Kind::Block
    } else if tag == "blockquote"@ {
        Kind::Quote
    } else if tag == "pre"@ {
        Kind::Pre
    } else if tag == "code"@ {
        Kind::Code
    } else if tag == "ul"@ {
        Kind::Bullets
    } else if tag == "ol"@ {
        Kind::Numbers
    } else if tag == "li"@ {
        Kind::Item
    } else if tag == "a"@ {
        Kind::Anchor
    } else if tag == "strong"@ || tag == "b"@ {
        Kind::Strong
    } else if tag == "em"@ || tag == "i"@ {
        Kind::Emphasis
    } else if tag == "u"@ {
        Kind::Underline
    } else if tag == "s"@ || tag == "del"@ || tag == "strike"@ {
        Kind::Struck
    } else if tag == "img"@ {
        Kind::Image
    } else if tag == "form"@ {
        Kind::Form
    } else if tag == "input"@ {
        Kind::Input
    } else if tag == "select"@ {
        Kind::Select
    } else if tag == "textarea"@ {
        Kind::TextArea
    } else if tag == "button"@ {
        Kind::Button
    } else if tag == "table"@ {
        Kind::Table
    } else if tag == "iframe"@ {
        Kind::Frame
    } else {
        Kind::Inline
    }
}

pub fn kind(tag: &str) -> (r: Kind)
    ensures
        r == kind_of(tag@),
{
    if same(tag, "script") || same(tag, "style") || same(tag, "noscript") || same(tag, "svg")
        || same(tag, "head") || same(tag, "meta") || same(tag, "link") {
        Kind::Skip
    } else if same(tag, "br") {
        Kind::Break
    } else if same(tag, "hr") {
        Kind::Rule
    } else if same(tag, "h1") {
        Kind::Heading(1)
    } else if same(tag, "h2") {
        Kind::Heading(2)
    } else if same(tag, "h3") {
        Kind::Heading(3)
    } else if same(tag, "h4") || same(tag, "h5") || same(tag, "h6") {
        Kind::Heading(4)
    } else if same(tag, "p") || same(tag, "div") || same(tag, "section") || same(tag, "article")
        || same(tag, "main") || same(tag, "header") || same(tag, "footer") || same(tag, "nav")
        || same(tag, "aside") || same(tag, "figure") || same(tag, "figcaption") {
        Kind::Block
    } else if same(tag, "blockquote") {
        Kind::Quote
    } else if same(tag, "pre") {
        Kind::Pre
    } else if same(tag, "code") {
        Kind::Code
    } else if same(tag, "ul") {
        Kind::Bullets
    } else if same(tag, "ol") {
        Kind::Numbers
    } else if same(tag, "li") {
        Kind::Item
    } else if same(tag, "a") {
        Kind::Anchor
    } else if same(tag, "strong") || same(tag, "b") {
        Kind::Strong
    } else if same(tag, "em") || same(tag, "i") {
        Kind::Emphasis
    } else if same(tag, "u") {
        Kind::Underline
    } else if same(tag, "s") || same(tag, "del") || same(tag, "strike") {
        Kind::Struck
    } else if same(tag, "img") {
        Kind::Image
    } else if same(tag, "form") {
        Kind::Form
    } else if same(tag, "input") {
        Kind::Input
    } else if same(tag, "select") {
        Kind::Select
    } else if same(tag, "textarea") {
        Kind::TextArea
    } else if same(tag, "button") {
        Kind::Button
    } else if same(tag, "table") {
        Kind::Table
    } else if same(tag, "iframe") {
        Kind::Frame
    } else {
        Kind::Inline
    }
}

/// A configured colour as an entry of the 256-colour palette.
pub open spec fn entry(color: u16) -> u8 {
    (color % 256) as u8
}

fn palette(color: u16) -> (r: u8)
    ensures
        r == entry(color),
{
    (color % 256) as u8
}

pub open spec fn less(a: int, b: int) -> int {
    if a < b {
        a
    } else {
        b
    }
}

fn smaller(a: usize, b: usize) -> (r: usize)
    ensures
        r == less(a as int, b as int),
{
    if a < b {
        a
    } else {
        b
    }
}

// --- Rules and headings ---

pub open spec fn rule_shown(p: PageView) -> PageView {
    newlined(
        appended(
            blanked(p),
            painted(repeated('\u{2500}', less(p.width, 60) as nat), 240),
        ),
    )
}

fn show_rule(ctx: &mut RenderContext)
    ensures
        final(ctx)@ == rule_shown(old(ctx)@),
{
    let n = smaller(ctx.width, 60);
    ctx.ensure_blank_line();
    let bar = repeat_char('\u{2500}', n);
    ctx.append(crust::style::fg(bar.as_str(), 240).as_str());
    ctx.newline();
}

pub open spec fn heading_color(conf: ConfigView, level: u8) -> u8 {
    if level == 1 {
        entry(conf.c_h1)
    } else if level == 2 {
        entry(conf.c_h2)
    } else if level == 3 {
        entry(conf.c_h3)
    } else {
        252
    }
}

/// A heading between blank lines, underlined at the first level.
pub open spec fn heading_shown(p: PageView, level: u8, text: Seq<char>) -> PageView {
    let color = heading_color(p.conf, level);
    let q = newlined(appended(blanked(p), emboldened(painted(text, color))));
    let under = if level == 1 {
        let n = less(byte_len(text), p.width) as nat;
        newlined(appended(q, painted(repeated('\u{2550}', n), color)))
    } else {
        q
    };
    newlined(under)
}

fn show_heading(ctx: &mut RenderContext, level: u8, text: &str)
    ensures
        final(ctx)@ == heading_shown(old(ctx)@, level, text@),
{
    let color = if level == 1 {
        palette(ctx.conf.c_h1)
    } else if level == 2 {
        palette(ctx.conf.c_h2)
    } else if level == 3 {
        palette(ctx.conf.c_h3)
    } else {
        252
    };
    let n = smaller(text.len(), ctx.width);
    ctx.ensure_blank_line();
    ctx.append(crust::style::bold(crust::style::fg(text, color).as_str()).as_str());
    ctx.newline();
    if level == 1 {
        let bar = repeat_char('\u{2550}', n);
        ctx.append(crust::style::fg(bar.as_str(), color).as_str());
        ctx.newline();
    }
    ctx.newline();
}

// --- Text ---

/// Preformatted pieces, each on a line of its own.
pub open spec fn pieces_shown(p: PageView, pieces: Seq<Seq<char>>) -> PageView
    decreases pieces.len(),
{
    if pieces.len() == 0 {
        p
    } else {
        newlined(appended(pieces_shown(p, pieces.drop_last()), painted(pieces.last(), 186)))
    }
}

/// Text on the page: line by line where it is preformatted, else as wrapped words.
pub open spec fn text_shown(p: PageView, text: Seq<char>) -> PageView {
    if p.in_pre {
        pieces_shown(p, split(text, '\n'))
    } else if collapsed(text).len() > 0 {
        wrapped(p, collapsed(text))
    } else {
        p
    }
}

fn show_text(ctx: &mut RenderContext, text: &str)
    ensures
        final(ctx)@ == text_shown(old(ctx)@, text@),
{
    if ctx.in_pre {
        let pieces = split_chars(&chars_of(text), '\n');
        let ghost s = chars2(pieces@);
        assert(s.take(0) =~= Seq::empty());
        for k in 0..pieces.len()
            invariant
                s == chars2(pieces@),
                ctx@ == pieces_shown(old(ctx)@, s.take(k as int)),
        {
            let line = string_of(&pieces[k]);
            let ghost t = s.take(k + 1);
            assert(t.drop_last() =~= s.take(k as int));
            assert(t.last() == line@);
            ctx.append(crust::style::fg(line.as_str(), 186).as_str());
            ctx.newline();
        }
        assert(s.take(pieces@.len() as int) =~= s);
    } else {
        let text = collapse_whitespace(text);
        if !text.as_str().is_empty() {
            ctx.word_wrap(text.as_str());
        }
    }
}

// --- Lists ---

/// What stands before an item of the list that is open last.
pub open spec fn bullet(p: PageView) -> Seq<char> {
    if p.lists.len() > 0 {
        match p.lists.last() {
            ListType::Ordered(n) => decimal(n as nat) + ". "@,
            ListType::Unordered => "\u{2022} "@,
        }
    } else {
        "\u{2022} "@
    }
}

/// A new line with the bullet or the next number.
pub open spec fn item_begun(p: PageView) -> PageView {
    let q = newlined(p);
    appended(counted(q), bullet(q))
}

fn begin_item(ctx: &mut RenderContext)
    ensures
        final(ctx)@ == item_begun(old(ctx)@),
{
    ctx.newline();
    let n: usize = ctx.list_stack.len();
    let mark = if n > 0 {
        match ctx.list_stack[n - 1] {
            ListType::Ordered(k) => concat(number(k).as_str(), ". "),
            ListType::Unordered => "\u{2022} ".to_string(),
        }
    } else {
        "\u{2022} ".to_string()
    };
    ctx.count_item();
    ctx.append(mark.as_str());
}

/// The page inside a list of kind `list`.
pub open spec fn list_opened(p: PageView, list: ListType) -> PageView {
    let q = blanked(p);
    PageView { lists: q.lists.push(list), indent: sum(q.indent, 2), ..q }
}

/// The page behind a list, indented as before it.
pub open spec fn list_closed(p: PageView, indent: int) -> PageView {
    PageView {
        lists: if p.lists.len() > 0 {
            p.lists.drop_last()
        } else {
            p.lists
        },
        indent,
        ..p
    }
}

// --- Images ---

/// The number of lines that an image takes: none for trackers and spacers, one for icons,
/// one for each 20 pixels of a known height, and never more than ten.
pub open spec fn image_lines(w: Option<nat>, h: Option<nat>) -> int {
    let small = (w matches Some(x) && x <= 5) || (h matches Some(x) && x <= 5);
    let icon = (w matches Some(x) && x <= 30) || (h matches Some(x) && x <= 30);
    if small {
        0
    } else if icon {
        1
    } else {
        match h {
            Some(x) => less((x + 19) as int / 20, 10),
            None => 10,
        }
    }
}

pub open spec fn attr_number(n: NodeView, key: Seq<char>) -> Option<nat> {
    match attr_of(n, key) {
        Some(v) => parsed(v, u32::MAX as nat),
        None => None,
    }
}

fn number_attr(n: &DomNode, key: &str) -> (r: Option<usize>)
    ensures
        match r {
            Some(v) => attr_number(n@, key@) == Some(v as nat) && v <= u32::MAX,
            None => attr_number(n@, key@) is None,
        },
{
    match node_attr(n, key) {
        Some(v) => parse_number(&chars_of(v), u32::MAX as usize),
        None => None,
    }
}

pub fn image_height(w: Option<usize>, h: Option<usize>) -> (r: usize)
    ensures
        r == image_lines(
            match w {
                Some(x) => Some(x as nat),
                None => None,
            },
            match h {
                Some(x) => Some(x as nat),
                None => None,
            },
        ),
{
    let mut small = false;
    let mut icon = false;
    if let Some(x) = w {
        small = x <= 5;
        icon = x <= 30;
    }
    if let Some(x) = h {
        small = small || x <= 5;
        icon = icon || x <= 30;
    }
    if small {
        0
    } else if icon {
        1
    } else {
        match h {
            Some(x) => if x >= 200 {
                10
            } else {
                smaller((x + 19) / 20, 10)
            },
            None => 10,
        }
    }
}

/// The address of an image: its `src`, or `data-src` where it has none.
pub open spec fn image_source(n: NodeView) -> Seq<char> {
    match attr_of(n, "src"@) {
        Some(s) => s,
        None => attr_or(n, "data-src"@, Seq::empty()),
    }
}

pub open spec fn image_shown(p: PageView, n: NodeView) -> PageView {
    let src = image_source(n);
    let height = image_lines(attr_number(n, "width"@), attr_number(n, "height"@));
    if src.len() == 0 || height == 0 {
        p
    } else {
        with_image(
            p,
            resolved(src, url_joined(p.base, src)),
            attr_or(n, "alt"@, Seq::empty()),
            height,
        )
    }
}

fn attr_or_empty(n: &DomNode, key: &str) -> (r: String)
    ensures
        r@ == attr_or(n@, key@, Seq::empty()),
{
    match node_attr(n, key) {
        Some(v) => v.to_string(),
        None => {
            let r = String::new();
            assert(r@ =~= Seq::empty());
            r
        },
    }
}

fn show_image(n: &DomNode, ctx: &mut RenderContext)
    ensures
        final(ctx)@ == image_shown(old(ctx)@, n@),
{
    let src = match node_attr(n, "src") {
        Some(s) => s.to_string(),
        None => attr_or_empty(n, "data-src"),
    };
    if src.as_str().is_empty() {
        return;
    }
    let height = image_height(number_attr(n, "width"), number_attr(n, "height"));
    if height == 0 {
        return;
    }
    let address = resolve_url(ctx.base_url.as_str(), src.as_str());
    ctx.push_image(address, attr_or_empty(n, "alt"), height);
}

// --- Links ---

/// Whether an anchor leads anywhere.
pub open spec fn leads(href: Seq<char>) -> bool {
    href.len() > 0 && href != "#"@ && !starts(href, "javascript:"@)
}

/// The images directly under an anchor, among nodes `j` to `stop`.
pub open spec fn anchor_images(d: Seq<ItemView>, j: int, stop: int, p: PageView) -> PageView
    decreases d.len() - j,
{
    if j < 0 || j >= stop || j >= d.len() {
        p
    } else {
        proof {
            lemma_rise(d, d[j].depth, j + 1);
        }
        let q = if is_named(d, j, "img"@) {
            image_shown(p, d[j].node)
        } else {
            p
        };
        anchor_images(d, end_of(d, j), stop, q)
    }
}

fn show_anchor_images(d: &Vec<DomItem>, i: usize, ctx: &mut RenderContext)
    requires
        i < d@.len(),
    ensures
        final(ctx)@ == anchor_images(views(d@), i + 1, end_of(views(d@), i as int), old(ctx)@),
{
    let stop = find_end(d, i);
    let ghost v = views(d@);
    let mut j: usize = i + 1;
    while j < stop
        invariant
            i < j,
            stop <= d@.len(),
            v == views(d@),
            stop == end_of(v, i as int),
            anchor_images(v, j as int, stop as int, ctx@) == anchor_images(
                v,
                i + 1,
                stop as int,
                old(ctx)@,
            ),
        decreases d@.len() - j,
    {
        assert(v[j as int] == d@[j as int]@);
        if named(&d[j].node, "img") {
            show_image(&d[j].node, ctx);
        }
        j = find_end(d, j);
    }
}

pub open spec fn bracketed(text: Seq<char>) -> Seq<char> {
    "["@ + text + "]"@
}

fn bracket(text: &str) -> (r: String)
    ensures
        r@ == bracketed(text@),
{
    concat3("[", text, "]")
}

/// A space, where the line has text that does not end in one.
pub open spec fn spaced(p: PageView) -> PageView {
    if p.col > p.indent && !(p.line.len() > 0 && p.line.last() == ' ') {
        appended(p, " "@)
    } else {
        p
    }
}

fn ends_in_space(s: &str) -> (r: bool)
    ensures
        r == (s@.len() > 0 && s@.last() == ' '),
{
    let v = chars_of(s);
    v.len() > 0 && v[v.len() - 1] == ' '
}

fn space(ctx: &mut RenderContext)
    ensures
        final(ctx)@ == spaced(old(ctx)@),
{
    if ctx.col > ctx.indent && !ends_in_space(ctx.current_line.as_str()) {
        ctx.append(" ");
    }
}

/// `text`, or `other` where it is empty.
pub open spec fn or_text(text: Seq<char>, other: Seq<char>) -> Seq<char> {
    if text.len() == 0 {
        other
    } else {
        text
    }
}

fn or_else(text: String, other: &str) -> (r: String)
    ensures
        r@ == or_text(text@, other@),
{
    if text.as_str().is_empty() {
        other.to_string()
    } else {
        text
    }
}

/// The number of the link that comes next, as it stands on the page.
pub open spec fn link_mark(p: PageView) -> Seq<char> {
    painted(bracketed(decimal(p.links.len() + 1)), entry(p.conf.c_link_num))
}

/// An anchor that leads somewhere: its images and its number where it holds an image,
/// else its text, or its address where it has none, and its number.
pub open spec fn anchor_shown(d: Seq<ItemView>, i: int, p: PageView) -> PageView {
    let href = attr_or(d[i].node, "href"@, Seq::empty());
    let target = resolved(href, url_joined(p.base, href));
    let text = trim(text_of(d, i));
    let q = spaced(p);
    if holds(d, i, "img"@) {
        let s = anchor_images(d, i + 1, end_of(d, i), q);
        appended(linked(s, target, or_text(text, "image link"@)), link_mark(s))
    } else {
        let label = or_text(text, href);
        appended(
            linked(q, target, label),
            underlined(painted(label, entry(q.conf.c_link))) + link_mark(q),
        )
    }
}

fn show_anchor(d: &Vec<DomItem>, i: usize, href: &str, ctx: &mut RenderContext)
    requires
        i < d@.len(),
        href@ == attr_or(d@[i as int].node@, "href"@, Seq::empty()),
    ensures
        final(ctx)@ == anchor_shown(views(d@), i as int, old(ctx)@),
{
    assert(views(d@)[i as int] == d@[i as int]@);
    let target = resolve_url(ctx.base_url.as_str(), href);
    let text = trimmed(text_under(d, i).as_str());
    space(ctx);
    if has_named(d, i, "img") {
        show_anchor_images(d, i, ctx);
        let label = or_else(text, "image link");
        let ghost s = ctx@;
        let index = ctx.push_link(target, label);
        let color = palette(ctx.conf.c_link_num);
        proof {
            reveal(linked);
        }
        let mark = crust::style::fg(bracket(number(index).as_str()).as_str(), color);
        assert(mark@ == link_mark(s));
        ctx.append(mark.as_str());
    } else {
        let label = or_else(text, href);
        let shown = crust::style::underline(
            crust::style::fg(label.as_str(), palette(ctx.conf.c_link)).as_str(),
        );
        let ghost s = ctx@;
        let index = ctx.push_link(target, label);
        let color = palette(ctx.conf.c_link_num);
        proof {
            reveal(linked);
        }
        let mark = crust::style::fg(bracket(number(index).as_str()).as_str(), color);
        assert(mark@ == link_mark(s));
        ctx.append(concat(shown.as_str(), mark.as_str()).as_str());
    }
}

// --- Forms ---

pub open spec fn form_begun(p: PageView, n: NodeView) -> PageView {
    let action = attr_or(n, "action"@, Seq::empty());
    let method = uppercase_of(attr_or(n, "method"@, "get"@));
    let q = with_form(p, resolved(action, url_joined(p.base, action)), method);
    newlined(appended(blanked(q), emboldened(painted("[Form]"@, 208))))
}

fn begin_form(n: &DomNode, ctx: &mut RenderContext)
    ensures
        final(ctx)@ == form_begun(old(ctx)@, n@),
{
    let action = attr_or_empty(n, "action");
    let method = node_attr_or(n, "method", "get").as_str().to_uppercase();
    let target = resolve_url(ctx.base_url.as_str(), action.as_str());
    ctx.push_form(target, method);
    ctx.ensure_blank_line();
    ctx.append(crust::style::bold(crust::style::fg("[Form]", 208).as_str()).as_str());
    ctx.newline();
}

/// A text on a line of its own.
pub open spec fn widget_line(p: PageView, token: Seq<char>) -> PageView {
    newlined(appended(p, painted(token, 252)))
}

/// A button, followed by a space.
pub open spec fn button_shown(p: PageView, token: Seq<char>) -> PageView {
    appended(appended(p, painted_on(token, 0, 252)), " "@)
}

pub open spec fn blank_token(name: Seq<char>) -> Seq<char> {
    "["@ + name + ": ________]"@
}

pub open spec fn secret_token(name: Seq<char>) -> Seq<char> {
    "["@ + name + ": \u{25CF}\u{25CF}\u{25CF}\u{25CF}]"@
}

/// The field that an input element of type `itype` becomes.
pub open spec fn input_field(n: NodeView, itype: Seq<char>, line: int) -> FieldView {
    let name = attr_or(n, "name"@, Seq::empty());
    let id = attr_or(n, "id"@, Seq::empty());
    let value = attr_or(n, "value"@, Seq::empty());
    let hint = attr_or(n, "placeholder"@, name);
    if itype == "hidden"@ {
        FieldView { field_type: "hidden"@, name, id, value, line, ..empty_field() }
    } else if itype == "submit"@ {
        let label = or_text(value, "Submit"@);
        FieldView {
            field_type: "submit"@,
            name,
            id,
            value: label,
            line,
            render_token: bracketed(label),
            ..empty_field()
        }
    } else if itype == "password"@ {
        FieldView {
            field_type: "password"@,
            name,
            id,
            value,
            placeholder: hint,
            line,
            render_token: secret_token(hint),
            ..empty_field()
        }
    } else {
        FieldView {
            field_type: itype,
            name,
            id,
            value,
            placeholder: hint,
            line,
            render_token: blank_token(hint),
            ..empty_field()
        }
    }
}

/// An input element: a hidden one shows nothing, a submit button shows its label, any
/// other its name and a blank.
pub open spec fn input_shown(p: PageView, n: NodeView) -> PageView {
    let itype = lowercase_of(attr_or(n, "type"@, "text"@));
    let field = input_field(n, itype, p.lines.len() as int);
    let q = with_field(p, field);
    if itype == "hidden"@ {
        q
    } else if itype == "submit"@ {
        button_shown(q, field.render_token)
    } else {
        widget_line(q, field.render_token)
    }
}

fn make_input(n: &DomNode, itype: &str, line: usize) -> (r: FormField)
    ensures
        r@ == input_field(n@, itype@, line as int),
{
    let name = attr_or_empty(n, "name");
    let id = attr_or_empty(n, "id");
    let value = attr_or_empty(n, "value");
    let hint = node_attr_or(n, "placeholder", name.as_str());
    let mut field = FormField::default();
    field.name = name;
    field.id = id;
    field.line = line;
    if same(itype, "hidden") {
        field.field_type = "hidden".to_string();
        field.value = value;
    } else if same(itype, "submit") {
        let label = or_else(value, "Submit");
        field.field_type = "submit".to_string();
        field.render_token = bracket(label.as_str());
        field.value = label;
    } else if same(itype, "password") {
        field.field_type = "password".to_string();
        field.value = value;
        field.render_token = concat3(
            "[",
            hint.as_str(),
            ": \u{25CF}\u{25CF}\u{25CF}\u{25CF}]",
        );
        field.placeholder = hint;
    } else {
        field.field_type = itype.to_string();
        field.value = value;
        field.render_token = concat3("[", hint.as_str(), ": ________]");
        field.placeholder = hint;
    }
    field
}

fn show_widget(ctx: &mut RenderContext, token: &str)
    ensures
        final(ctx)@ == widget_line(old(ctx)@, token@),
{
    ctx.append(crust::style::fg(token, 252).as_str());
    ctx.newline();
}

fn show_button(ctx: &mut RenderContext, token: &str)
    ensures
        final(ctx)@ == button_shown(old(ctx)@, token@),
{
    ctx.append(crust::style::fb(token, 0, 252).as_str());
    ctx.append(" ");
}

fn show_input(n: &DomNode, ctx: &mut RenderContext)
    ensures
        final(ctx)@ == input_shown(old(ctx)@, n@),
{
    let itype = node_attr_or(n, "type", "text").as_str().to_lowercase();
    let field = make_input(n, itype.as_str(), ctx.lines.len());
    let token = field.render_token.clone();
    ctx.push_field(field);
    if same(itype.as_str(), "hidden") {
    } else if same(itype.as_str(), "submit") {
        show_button(ctx, token.as_str());
    } else {
        show_widget(ctx, token.as_str());
    }
}

/// The options among nodes `a` to `b`, each with its value and its label.
pub open spec fn options_in(d: Seq<ItemView>, a: int, b: int) -> Seq<(Seq<char>, Seq<char>)>
    decreases b - a,
{
    if a >= b {
        Seq::empty()
    } else if is_named(d, b - 1, "option"@) {
        options_in(d, a, b - 1).push(
            (attr_or(d[b - 1].node, "value"@, Seq::empty()), trim(text_of(d, b - 1))),
        )
    } else {
        options_in(d, a, b - 1)
    }
}

fn collect_options(d: &Vec<DomItem>, i: usize) -> (r: Vec<(String, String)>)
    requires
        i < d@.len(),
    ensures
        pairs(r@) == options_in(views(d@), i + 1, end_of(views(d@), i as int)),
{
    let stop = find_end(d, i);
    let mut out: Vec<(String, String)> = Vec::new();
    assert(pairs(out@) =~= Seq::empty());
    for k in i + 1..stop
        invariant
            stop <= d@.len(),
            i < stop,
            pairs(out@) == options_in(views(d@), i + 1, k as int),
    {
        assert(views(d@)[k as int] == d@[k as int]@);
        if named(&d[k].node, "option") {
            let value = attr_or_empty(&d[k].node, "value");
            let label = trimmed(text_under(d, k).as_str());
            let ghost before = pairs(out@);
            let ghost pair = (value@, label@);
            out.push((value, label));
            assert(pairs(out@) =~= before.push(pair));
        }
    }
    out
}

pub open spec fn select_shown(d: Seq<ItemView>, i: int, p: PageView) -> PageView {
    let n = d[i].node;
    let name = attr_or(n, "name"@, Seq::empty());
    let options = options_in(d, i + 1, end_of(d, i));
    let token = "["@ + name + " \u{25BC}]"@;
    let field = FieldView {
        field_type: "select"@,
        name,
        id: attr_or(n, "id"@, Seq::empty()),
        value: if options.len() > 0 {
            options[0].0
        } else {
            Seq::empty()
        },
        options,
        line: p.lines.len() as int,
        render_token: token,
        ..empty_field()
    };
    widget_line(with_field(p, field), token)
}

fn show_select(d: &Vec<DomItem>, i: usize, ctx: &mut RenderContext)
    requires
        i < d@.len(),
    ensures
        final(ctx)@ == select_shown(views(d@), i as int, old(ctx)@),
{
    let n = &d[i].node;
    assert(views(d@)[i as int] == d@[i as int]@);
    let name = attr_or_empty(n, "name");
    let token = concat3("[", name.as_str(), " \u{25BC}]");
    let options = collect_options(d, i);
    let mut field = FormField::default();
    field.field_type = "select".to_string();
    field.name = name;
    field.id = attr_or_empty(n, "id");
    if options.len() > 0 {
        field.value = options[0].0.clone();
        assert(pairs(options@)[0] == (options@[0].0@, options@[0].1@));
    }
    field.options = options;
    field.line = ctx.lines.len();
    field.render_token = token.clone();
    ctx.push_field(field);
    show_widget(ctx, token.as_str());
}

pub open spec fn textarea_shown(p: PageView, n: NodeView, text: Seq<char>) -> PageView {
    let name = attr_or(n, "name"@, Seq::empty());
    let field = FieldView {
        field_type: "textarea"@,
        name,
        id: attr_or(n, "id"@, Seq::empty()),
        value: text,
        line: p.lines.len() as int,
        render_token: blank_token(name),
        ..empty_field()
    };
    widget_line(with_field(p, field), blank_token(name))
}

fn show_textarea(n: &DomNode, text: String, ctx: &mut RenderContext)
    ensures
        final(ctx)@ == textarea_shown(old(ctx)@, n@, text@),
{
    let name = attr_or_empty(n, "name");
    let token = concat3("[", name.as_str(), ": ________]");
    let mut field = FormField::default();
    field.field_type = "textarea".to_string();
    field.name = name;
    field.id = attr_or_empty(n, "id");
    field.value = text;
    field.line = ctx.lines.len();
    field.render_token = token.clone();
    ctx.push_field(field);
    show_widget(ctx, token.as_str());
}

/// The words of a text with one space between them.
pub open spec fn squeezed(text: Seq<char>) -> Seq<char> {
    join(words(text), " "@)
}

pub fn squeeze(text: &str) -> (r: String)
    ensures
        r@ == squeezed(text@),
{
    let w = words_chars(&chars_of(text));
    let mut out: Vec<String> = Vec::new();
    for k in 0..w.len()
        invariant
            out@.len() == k,
            forall|j: int| 0 <= j < k ==> (#[trigger] out@[j])@ == w@[j]@,
    {
        out.push(string_of(&w[k]));
    }
    assert(crate::text::texts(out@) =~= words(text@));
    join_strings(&out, " ")
}

/// The label of a button: its text, else its value, else `Submit`.
pub open spec fn button_label(n: NodeView, text: Seq<char>) -> Seq<char> {
    or_text(squeezed(text), or_text(attr_or(n, "value"@, Seq::empty()), "Submit"@))
}

/// A button; unless it is of type `button` or `reset`, it submits its form.
pub open spec fn button_element_shown(p: PageView, n: NodeView, text: Seq<char>) -> PageView {
    let btype = lowercase_of(attr_or(n, "type"@, "submit"@));
    let label = button_label(n, text);
    let field = FieldView {
        field_type: "submit"@,
        name: attr_or(n, "name"@, Seq::empty()),
        id: attr_or(n, "id"@, Seq::empty()),
        value: label,
        line: p.lines.len() as int,
        render_token: bracketed(label),
        ..empty_field()
    };
    let q = if btype != "button"@ && btype != "reset"@ {
        with_field(p, field)
    } else {
        p
    };
    button_shown(q, bracketed(label))
}

fn show_button_element(n: &DomNode, text: &str, ctx: &mut RenderContext)
    ensures
        final(ctx)@ == button_element_shown(old(ctx)@, n@, text@),
{
    let btype = node_attr_or(n, "type", "submit").as_str().to_lowercase();
    let other = or_else(attr_or_empty(n, "value"), "Submit");
    let label = or_else(squeeze(text), other.as_str());
    let token = bracket(label.as_str());
    if !same(btype.as_str(), "button") && !same(btype.as_str(), "reset") {
        let mut field = FormField::default();
        field.field_type = "submit".to_string();
        field.name = attr_or_empty(n, "name");
        field.id = attr_or_empty(n, "id");
        field.value = label;
        field.line = ctx.lines.len();
        field.render_token = token.clone();
        ctx.push_field(field);
    }
    show_button(ctx, token.as_str());
}

// --- Frames ---

/// The video that an embedding address names.
pub open spec fn youtube_id(src: Seq<char>) -> Option<Seq<char>> {
    match find_text(src, "/embed/"@, 0) {
        Some(pos) => {
            let rest = src.skip(pos + 7);
            let id = rest.take(next_in(rest, seq!['?', '&', '/'], 0));
            if id.len() == 0 {
                None
            } else {
                Some(id)
            }
        },
        None => None,
    }
}

pub fn extract_youtube_id(src: &str) -> (r: Option<String>)
    ensures
        match r {
            Some(id) => youtube_id(src@) == Some(id@),
            None => youtube_id(src@) is None,
        },
{
    let s = chars_of(src);
    let key = chars_of("/embed/");
    proof {
        reveal_strlit("/embed/");
    }
    match find(&s, &key, 0) {
        Some(pos) => {
            let n: usize = s.len();
            let rest = part(&s, pos + 7, n);
            assert(rest@ =~= src@.skip(pos + 7));
            let stops: [char; 3] = ['?', '&', '/'];
            assert(stops@ =~= seq!['?', '&', '/']);
            let end = find_in(&rest, &stops, 0);
            let id = part_string(&rest, 0, end);
            assert(id@ =~= rest@.take(end as int));
            if end == 0 {
                None
            } else {
                Some(id)
            }
        },
        None => None,
    }
}

/// A frame: a link to the video where it embeds one, else nothing.
pub open spec fn frame_shown(p: PageView, n: NodeView) -> PageView {
    let src = attr_or(n, "src"@, Seq::empty());
    if has_text(src, "youtube.com/embed/"@) || has_text(src, "youtu.be/"@) {
        match youtube_id(src) {
            Some(id) => newlined(
                appended(
                    linked(p, "https://www.youtube.com/watch?v="@ + id, "YouTube Video"@),
                    painted("\u{25B6} YouTube Video"@, 196) + " "@ + link_mark(p),
                ),
            ),
            None => p,
        }
    } else {
        p
    }
}

fn show_frame(n: &DomNode, ctx: &mut RenderContext)
    ensures
        final(ctx)@ == frame_shown(old(ctx)@, n@),
{
    let src = attr_or_empty(n, "src");
    if contains(src.as_str(), "youtube.com/embed/") || contains(src.as_str(), "youtu.be/") {
        if let Some(id) = extract_youtube_id(src.as_str()) {
            let ghost p = ctx@;
            let target = concat("https://www.youtube.com/watch?v=", id.as_str());
            let index = ctx.push_link(target, "YouTube Video".to_string());
            proof {
                reveal(linked);
            }
            let color = palette(ctx.conf.c_link_num);
            let mark = crust::style::fg(bracket(number(index).as_str()).as_str(), color);
            assert(mark@ == link_mark(p));
            let label = crust::style::fg("\u{25B6} YouTube Video", 196);
            ctx.append(concat3(label.as_str(), " ", mark.as_str()).as_str());
            ctx.newline();
        }
    }
}

// --- The walk ---

/// The page behind nodes `j` to `stop`, each with what lies under it.
pub open spec fn walked(d: Seq<ItemView>, j: int, stop: int, p: PageView) -> PageView
    decreases d.len() - j, 2int,
{
    if j < 0 || j >= stop || j >= d.len() {
        p
    } else {
        proof {
            lemma_rise(d, d[j].depth, j + 1);
        }
        let q = match d[j].node {
            NodeView::Text(t) => text_shown(p, t),
            NodeView::Element { name, .. } => element_shown(d, j, p),
            NodeView::Other => p,
        };
        walked(d, end_of(d, j), stop, q)
    }
}

/// The page behind what lies under node `i`.
pub open spec fn children_shown(d: Seq<ItemView>, i: int, p: PageView) -> PageView
    decreases d.len() - i, 0int,
    when 0 <= i < d.len()
{
    walked(d, i + 1, end_of(d, i), p)
}

pub open spec fn tag_at(d: Seq<ItemView>, i: int) -> Seq<char> {
    match d[i].node {
        NodeView::Element { name, .. } => name,
        _ => Seq::empty(),
    }
}

/// The page behind the element at node `i`.
pub open spec fn element_shown(d: Seq<ItemView>, i: int, p: PageView) -> PageView
    decreases d.len() - i, 1int,
    when 0 <= i < d.len()
{
    let n = d[i].node;
    match kind_of(tag_at(d, i)) {
        Kind::Skip => p,
        Kind::Break => newlined(p),
        Kind::Rule => rule_shown(p),
        Kind::Heading(level) => heading_shown(p, level, trim(text_of(d, i))),
        Kind::Block => blanked(children_shown(d, i, blanked(p))),
        Kind::Quote => {
            let q = blanked(p);
            let inner = children_shown(d, i, PageView { indent: sum(q.indent, 2), ..q });
            blanked(PageView { indent: q.indent, ..inner })
        },
        Kind::Pre => {
            let q = blanked(p);
            let inner = children_shown(d, i, PageView { in_pre: true, ..q });
            blanked(PageView { in_pre: q.in_pre, ..inner })
        },
        Kind::Code => appended(p, painted(text_of(d, i), 186)),
        Kind::Bullets => list_closed(
            children_shown(d, i, list_opened(p, ListType::Unordered)),
            blanked(p).indent,
        ),
        Kind::Numbers => list_closed(
            children_shown(d, i, list_opened(p, ListType::Ordered(1))),
            blanked(p).indent,
        ),
        Kind::Item => children_shown(d, i, item_begun(p)),
        Kind::Anchor => if leads(attr_or(n, "href"@, Seq::empty())) {
            anchor_shown(d, i, p)
        } else {
            children_shown(d, i, p)
        },
        Kind::Strong => appended(p, emboldened(text_of(d, i))),
        Kind::Emphasis => appended(p, slanted(text_of(d, i))),
        Kind::Underline => appended(p, underlined(text_of(d, i))),
        Kind::Struck => appended(p, painted(text_of(d, i), 240)),
        Kind::Image => image_shown(p, n),
        Kind::Form => blanked(children_shown(d, i, form_begun(p, n))),
        Kind::Input => input_shown(p, n),
        Kind::Select => select_shown(d, i, p),
        Kind::TextArea => textarea_shown(p, n, text_of(d, i)),
        Kind::Button => button_element_shown(p, n, text_of(d, i)),
        Kind::Table => if !holds(d, i, "table"@) && holds(d, i, "th"@) {
            blanked(table_shown(blanked(p), table_rows(d, i)))
        } else {
            children_shown(d, i, p)
        },
        Kind::Frame => frame_shown(p, n),
        Kind::Inline => children_shown(d, i, p),
    }
}

fn walk_element(d: &Vec<DomItem>, i: usize, ctx: &mut RenderContext)
    requires
        i < d@.len(),
    ensures
        final(ctx)@ == children_shown(views(d@), i as int, old(ctx)@),
    decreases d@.len() - i, 0int,
{
    let stop = find_end(d, i);
    let ghost v = views(d@);
    let mut j: usize = i + 1;
    while j < stop
        invariant
            i < j,
            stop <= d@.len(),
            v == views(d@),
            v.len() == d@.len(),
            walked(v, j as int, stop as int, ctx@) == walked(v, i + 1, stop as int, old(ctx)@),
        decreases d@.len() - j,
    {
        assert(v[j as int] == d@[j as int]@);
        let ghost before = ctx@;
        match &d[j].node {
            DomNode::Text(t) => {
                show_text(ctx, t.as_str());
            },
            DomNode::Element { .. } => {
                handle_element(d, j, ctx);
            },
            DomNode::Other => {},
        }
        let next = find_end(d, j);
        assert(walked(v, j as int, stop as int, before) == walked(
            v,
            next as int,
            stop as int,
            ctx@,
        ));
        j = next;
    }
}

fn handle_element(d: &Vec<DomItem>, i: usize, ctx: &mut RenderContext)
    requires
        i < d@.len(),
    ensures
        final(ctx)@ == element_shown(views(d@), i as int, old(ctx)@),
    decreases d@.len() - i, 2int,
{
    let n = &d[i].node;
    assert(views(d@)[i as int] == d@[i as int]@);
    let empty = String::new();
    assert(empty@ =~= Seq::empty());
    let tag = match n {
        DomNode::Element { name, .. } => name.as_str(),
        _ => empty.as_str(),
    };
    match kind(tag) {
        Kind::Skip => {},
        Kind::Break => ctx.newline(),
        Kind::Rule => show_rule(ctx),
        Kind::Heading(level) => {
            let text = trimmed(text_under(d, i).as_str());
            show_heading(ctx, level, text.as_str());
        },
        Kind::Block => {
            ctx.ensure_blank_line();
            walk_element(d, i, ctx);
            ctx.ensure_blank_line();
        },
        Kind::Quote => {
            ctx.ensure_blank_line();
            let indent: usize = ctx.indent;
            ctx.indent = indent.saturating_add(2);
            walk_element(d, i, ctx);
            ctx.indent = indent;
            ctx.ensure_blank_line();
        },
        Kind::Pre => {
            ctx.ensure_blank_line();
            let was_pre = ctx.in_pre;
            ctx.in_pre = true;
            walk_element(d, i, ctx);
            ctx.in_pre = was_pre;
            ctx.ensure_blank_line();
        },
        Kind::Code => {
            let text = text_under(d, i);
            ctx.append(crust::style::fg(text.as_str(), 186).as_str());
        },
        Kind::Bullets => walk_list(d, i, ListType::Unordered, ctx),
        Kind::Numbers => walk_list(d, i, ListType::Ordered(1), ctx),
        Kind::Item => {
            begin_item(ctx);
            walk_element(d, i, ctx);
        },
        Kind::Anchor => {
            let href = attr_or_empty(n, "href");
            if href.as_str().is_empty() || same(href.as_str(), "#") || starts_with(
                href.as_str(),
                "javascript:",
            ) {
                walk_element(d, i, ctx);
            } else {
                show_anchor(d, i, href.as_str(), ctx);
            }
        },
        Kind::Strong => {
            let text = text_under(d, i);
            ctx.append(crust::style::bold(text.as_str()).as_str());
        },
        Kind::Emphasis => {
            let text = text_under(d, i);
            ctx.append(crust::style::italic(text.as_str()).as_str());
        },
        Kind::Underline => {
            let text = text_under(d, i);
            ctx.append(crust::style::underline(text.as_str()).as_str());
        },
        Kind::Struck => {
            let text = text_under(d, i);
            ctx.append(crust::style::fg(text.as_str(), 240).as_str());
        },
        Kind::Image => show_image(n, ctx),
        Kind::Form => {
            begin_form(n, ctx);
            walk_element(d, i, ctx);
            ctx.ensure_blank_line();
        },
        Kind::Input => show_input(n, ctx),
        Kind::Select => show_select(d, i, ctx),
        Kind::TextArea => {
            let text = text_under(d, i);
            show_textarea(n, text, ctx);
        },
        Kind::Button => {
            let text = text_under(d, i);
            show_button_element(n, text.as_str(), ctx);
        },
        Kind::Table => {
            if !has_named(d, i, "table") && has_named(d, i, "th") {
                ctx.ensure_blank_line();
                render_table(d, i, ctx);
                ctx.ensure_blank_line();
            } else {
                walk_element(d, i, ctx);
            }
        },
        Kind::Frame => show_frame(n, ctx),
        Kind::Inline => walk_element(d, i, ctx),
    }
}

fn walk_list(d: &Vec<DomItem>, i: usize, list: ListType, ctx: &mut RenderContext)
    requires
        i < d@.len(),
    ensures
        final(ctx)@ == list_closed(
            children_shown(views(d@), i as int, list_opened(old(ctx)@, list)),
            blanked(old(ctx)@).indent,
        ),
    decreases d@.len() - i, 1int,
{
    ctx.ensure_blank_line();
    let indent: usize = ctx.indent;
    ctx.list_stack.push(list);
    ctx.indent = indent.saturating_add(2);
    walk_element(d, i, ctx);
    ctx.indent = indent;
    let ghost inner = ctx@;
    let _ = ctx.list_stack.pop();
    assert(ctx@.lists =~= (if inner.lists.len() > 0 {
        inner.lists.drop_last()
    } else {
        inner.lists
    }));
}

// --- Whole pages ---

pub struct RenderResult {
    pub text: String,
    pub links: Vec<Link>,
    pub forms: Vec<Form>,
    pub images: Vec<ImageRef>,
    pub title: String,
    pub site_bg: Option<u8>,
    pub site_fg: Option<u8>,
}

pub struct ResultView {
    pub text: Seq<char>,
    pub links: Seq<LinkView>,
    pub forms: Seq<FormView>,
    pub images: Seq<ImageView>,
    pub title: Seq<char>,
    pub site_bg: Option<u8>,
    pub site_fg: Option<u8>,
}

impl View for RenderResult {
    type V = ResultView;

    open spec fn view(&self) -> ResultView {
        ResultView {
            text: self.text@,
            links: views(self.links@),
            forms: views(self.forms@),
            images: views(self.images@),
            title: self.title@,
            site_bg: self.site_bg,
            site_fg: self.site_fg,
        }
    }
}

/// A page as its parser gives it: all its nodes, its bodies and its style sheets.
pub struct ParsedPage {
    pub root: Seq<ItemView>,
    pub bodies: Seq<SelectedView>,
    pub styles: Seq<SelectedView>,
}

/// The text of the first `title` element.
pub open spec fn page_title(root: Seq<ItemView>) -> Seq<char> {
    if root.len() == 0 {
        Seq::empty()
    } else {
        match first_named(root, "title"@, 1, end_of(root, 0)) {
            Some(k) => trim(text_of(root, k)),
            None => Seq::empty(),
        }
    }
}

fn find_title(root: &Vec<DomItem>) -> (r: String)
    ensures
        r@ == page_title(views(root@)),
{
    let empty = String::new();
    assert(empty@ =~= Seq::empty());
    if root.len() == 0 {
        return empty;
    }
    let stop = find_end(root, 0);
    match find_named(root, "title", 1, stop) {
        Some(k) => trimmed(text_under(root, k).as_str()),
        None => empty,
    }
}

/// The nodes that are rendered: those of the first body, or of the whole page.
pub open spec fn page_content(page: ParsedPage) -> Seq<ItemView> {
    if page.bodies.len() > 0 {
        page.bodies[0].items
    } else {
        page.root
    }
}

/// The finished page.
pub open spec fn page_shown(page: ParsedPage, width: int, base: Seq<char>, conf: ConfigView) -> PageView {
    let start = empty_page(width, base, conf);
    let d = page_content(page);
    let p = if d.len() > 0 {
        children_shown(d, 0, start)
    } else {
        start
    };
    if p.line.len() > 0 {
        newlined(p)
    } else {
        p
    }
}

/// The colours that a page may set: none for local files.
pub open spec fn page_colors(page: ParsedPage, base: Seq<char>) -> (Option<u8>, Option<u8>) {
    if starts(base, "file://"@) {
        (None, None)
    } else {
        site_colors(page.bodies, page.styles)
    }
}

pub open spec fn rendered(page: ParsedPage, width: int, base: Seq<char>, conf: ConfigView) -> ResultView {
    let p = page_shown(page, width, base, conf);
    ResultView {
        text: join(p.lines, "\n"@),
        links: p.links,
        forms: p.forms,
        images: p.images,
        title: page_title(page.root),
        site_bg: page_colors(page, base).0,
        site_fg: page_colors(page, base).1,
    }
}

/// Renders a parsed page.
pub fn render_page(
    root: &Vec<DomItem>,
    bodies: &Vec<Selected>,
    styles: &Vec<Selected>,
    width: usize,
    base_url: &str,
    conf: &Config,
) -> (r: RenderResult)
    ensures
        r@ == rendered(
            (ParsedPage {
                root: views(root@),
                bodies: views(bodies@),
                styles: views(styles@),
            }),
            width as int,
            base_url@,
            conf@,
        ),
{
    let mut ctx = RenderContext::new(width, base_url, conf);
    let title = find_title(root);
    let (site_bg, site_fg) = if starts_with(base_url, "file://") {
        (None, None)
    } else {
        extract_site_colors(bodies, styles)
    };
    if bodies.len() > 0 {
        assert(views(bodies@)[0].items == views(bodies@[0].items@));
        if bodies[0].items.len() > 0 {
            walk_element(&bodies[0].items, 0, &mut ctx);
        }
    } else if root.len() > 0 {
        walk_element(root, 0, &mut ctx);
    }
    if !ctx.current_line.as_str().is_empty() {
        ctx.newline();
    }
    assert(crate::text::texts(ctx.lines@) =~= views(ctx.lines@));
    RenderResult {
        text: join_strings(&ctx.lines, "\n"),
        links: ctx.links,
        forms: ctx.forms,
        images: ctx.images,
        title,
        site_bg,
        site_fg,
    }
}

/// The elements, without elements in them, that a style attribute makes invisible. A
/// declaration stands behind the quote, a semicolon, white space or a comment. Behind its
/// value come white space and comments, then a semicolon, an exclamation mark or the quote.
pub const HIDDEN_ELEMENT: &'static str =
    r#"(?is)<(?:div|span|p|td|tr|table|section)(?:\s[^>]*)?[\s"'/]style\s*=\s*"(?:(?:[^"/]|/+[^"*/]|/\*(?:[^"*]|\*+[^"*/])*\*+/)*(?:[;\s]|/\*(?:[^"*]|\*+[^"*/])*\*+/))?(?:display\s*:\s*none|visibility\s*:\s*hidden|opacity\s*:\s*0+(?:\.0+)?(?:e[+-]?[0-9]+)?%?|max-(?:height|width)\s*:\s*0+(?:\.0+)?(?:e[+-]?[0-9]+)?(?:%|[a-z]+)?)(?:\s|/\*(?:[^"*]|\*+[^"*/])*\*+/)*(?:[;!][^"]*|/\*(?:[^"*]|\*+[^"*/])*\**)?"[^>]*>[^<]*</\s*(?:div|span|p|td|tr|table|section)\s*>"#;

/// What `regex::Regex::replace_all` makes of a text, `None` for a pattern that
/// `regex::Regex::new` refuses.
pub uninterp spec fn regex_replaced(pattern: Seq<char>, text: Seq<char>, by: Seq<char>) -> Option<
    Seq<char>,
>;

/// `regex::Regex::replace_all` puts `by` in place of every match of `pattern`, by the
/// three texts alone.
#[verifier::external_body]
pub(crate) fn replace_pattern(pattern: &str, text: &str, by: &str) -> (r: Option<String>)
    ensures
        match r {
            Some(t) => regex_replaced(pattern@, text@, by@) == Some(t@),
            None => regex_replaced(pattern@, text@, by@) is None,
        },
{
    let re = regex::Regex::new(pattern).ok()?;
    Some(re.replace_all(text, by).into_owned())
}

/// The markup that is parsed: `html` without hidden elements.
pub open spec fn visible_markup(html: Seq<char>) -> Seq<char> {
    match regex_replaced(HIDDEN_ELEMENT@, html, ""@) {
        Some(t) => t,
        None => html,
    }
}

pub open spec fn found(html: Seq<char>, selector: Seq<char>) -> Seq<SelectedView> {
    match selected_elements(html, selector) {
        Some(v) => v,
        None => Seq::empty(),
    }
}

fn find_all(html: &str, selector: &str) -> (r: Vec<Selected>)
    ensures
        views(r@) == found(html@, selector@),
{
    match select_elements(html, selector) {
        Some(v) => v,
        None => {
            let r: Vec<Selected> = Vec::new();
            assert(views(r@) =~= Seq::empty());
            r
        },
    }
}

/// The nodes of the first element that was found.
pub open spec fn first_items(v: Seq<SelectedView>) -> Seq<ItemView> {
    if v.len() > 0 {
        v[0].items
    } else {
        Seq::empty()
    }
}

pub open spec fn parsed_page(html: Seq<char>) -> ParsedPage {
    ParsedPage {
        root: first_items(found(html, ":root"@)),
        bodies: found(html, "body"@),
        styles: found(html, "style"@),
    }
}

/// Renders a page for a screen `width` cells wide.
pub fn render_html(html: &str, width: usize, base_url: &str, conf: &Config) -> (r: RenderResult)
    ensures
        r@ == rendered(parsed_page(visible_markup(html@)), width as int, base_url@, conf@),
{
    let stripped = match replace_pattern(HIDDEN_ELEMENT, html, "") {
        Some(t) => t,
        None => html.to_string(),
    };
    let roots = find_all(stripped.as_str(), ":root");
    let bodies = find_all(stripped.as_str(), "body");
    let styles = find_all(stripped.as_str(), "style");
    let none: Vec<DomItem> = Vec::new();
    assert(views(none@) =~= Seq::empty());
    if roots.len() > 0 {
        assert(views(roots@)[0].items == views(roots@[0].items@));
        render_page(&roots[0].items, &bodies, &styles, width, base_url, conf)
    } else {
        render_page(&none, &bodies, &styles, width, base_url, conf)
    }
}

} // verus!
