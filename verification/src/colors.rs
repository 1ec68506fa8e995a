//! The colours that a site asks for.

use vstd::prelude::*;
use crate::dom::{attr_of, node_attr, text_of, text_under, Selected, SelectedView};
use crate::style::{ascii_only, hex_color, palette_entry};
use crate::tab::views;
use crate::text::{
    chars_of, concat, find, find_in, find_text, is_ascii_text, lowercase_of, next_in, part,
    same, string_of, trim, trim_chars, trimmed,
};

verus! {

broadcast use vstd::string::group_string_axioms;

/// The value that a style sheet gives to `prop` where it first names it, up to the
/// semicolon or the brace that ends it.
pub open spec fn css_value(css: Seq<char>, prop: Seq<char>) -> Option<Seq<char>> {
    match find_text(css, prop + ":"@, 0) {
        Some(pos) => {
            let rest = css.skip(pos + prop.len() + 1);
            let end = next_in(rest, seq![';', '}'], 0);
            if end < rest.len() {
                Some(trim(rest.take(end)))
            } else {
                None
            }
        },
        None => None,
    }
}

pub fn extract_css_color(css: &str, prop: &str) -> (r: Option<String>)
    ensures
        match r {
            Some(v) => css_value(css@, prop@) == Some(v@),
            None => css_value(css@, prop@) is None,
        },
{
    let c = chars_of(css);
    let key = chars_of(concat(prop, ":").as_str());
    proof {
        reveal_strlit(":");
    }
    match find(&c, &key, 0) {
        Some(pos) => {
            let n: usize = c.len();
            let rest = part(&c, pos + key.len(), n);
            assert(rest@ =~= css@.skip(pos + prop@.len() + 1));
            let stops: [char; 2] = [';', '}'];
            assert(stops@ =~= seq![';', '}']);
            let end = find_in(&rest, &stops, 0);
            if end < rest.len() {
                let v = part(&rest, 0, end);
                assert(v@ =~= rest@.take(end as int));
                Some(string_of(&trim_chars(&v)))
            } else {
                None
            }
        },
        None => None,
    }
}

/// The palette entry of a colour that CSS names, or writes as `#` and hexadecimal digits.
pub open spec fn color_entry(text: Seq<char>) -> Option<u8> {
    let s = trim(text);
    if s.len() > 0 && s[0] == '#' {
        if is_ascii_text(s) {
            match hex_color(s) {
                Some((r, g, b)) => Some(palette_entry(r, g, b)),
                None => None,
            }
        } else {
            None
        }
    } else {
        named_color(lowercase_of(s))
    }
}

pub open spec fn named_color(s: Seq<char>) -> Option<u8> {
    if s == "white"@ {
        Some(255)
    } else if s == "black"@ {
        Some(0)
    } else if s == "red"@ {
        Some(196)
    } else if s == "green"@ {
        Some(46)
    } else if s == "blue"@ {
        Some(21)
    } else if s == "yellow"@ {
        Some(226)
    } else {
        None
    }
}

pub fn color_by_name(s: &str) -> (r: Option<u8>)
    ensures
        r == named_color(s@),
{
    if same(s, "white") {
        Some(255)
    } else if same(s, "black") {
        Some(0)
    } else if same(s, "red") {
        Some(196)
    } else if same(s, "green") {
        Some(46)
    } else if same(s, "blue") {
        Some(21)
    } else if same(s, "yellow") {
        Some(226)
    } else {
        None
    }
}

pub fn parse_color(s: &str) -> (r: Option<u8>)
    ensures
        r == color_entry(s@),
{
    let s = trimmed(s);
    let v = chars_of(s.as_str());
    if v.len() > 0 && v[0] == '#' {
        if !ascii_only(&v) {
            return None;
        }
        return match crust::style::parse_hex_color(s.as_str()) {
            Some((r, g, b)) => Some(crust::style::rgb_to_xterm(r, g, b)),
            None => None,
        };
    }
    color_by_name(s.as_str().to_lowercase().as_str())
}

pub open spec fn and_color(s: Option<Seq<char>>) -> Option<u8> {
    match s {
        Some(s) => color_entry(s),
        None => None,
    }
}

/// The background and the foreground that a style sheet sets, `None` where it sets no
/// background.
pub open spec fn sheet_colors(css: Seq<char>) -> Option<(Option<u8>, Option<u8>)> {
    let bg = match css_value(css, "background-color"@) {
        Some(v) => Some(v),
        None => css_value(css, "background"@),
    };
    match bg {
        Some(v) => Some((color_entry(v), and_color(css_value(css, "color"@)))),
        None => None,
    }
}

pub fn colors_of_sheet(css: &str) -> (r: Option<(Option<u8>, Option<u8>)>)
    ensures
        r == sheet_colors(css@),
{
    let bg = match extract_css_color(css, "background-color") {
        Some(v) => Some(v),
        None => extract_css_color(css, "background"),
    };
    match bg {
        Some(v) => {
            let fg = match extract_css_color(css, "color") {
                Some(f) => parse_color(f.as_str()),
                None => None,
            };
            Some((parse_color(v.as_str()), fg))
        },
        None => None,
    }
}

/// The colours of the first style sheet at or after the `k`-th that sets a background.
pub open spec fn styles_colors(styles: Seq<SelectedView>, k: int) -> (Option<u8>, Option<u8>)
    decreases styles.len() - k,
{
    if k < 0 || k >= styles.len() {
        (None, None)
    } else if styles[k].items.len() == 0 {
        styles_colors(styles, k + 1)
    } else {
        match sheet_colors(text_of(styles[k].items, 0)) {
            Some(c) => c,
            None => styles_colors(styles, k + 1),
        }
    }
}

/// The colours of a page: those of the body's attributes where it has a background there,
/// else those of the page's style sheets.
pub open spec fn site_colors(bodies: Seq<SelectedView>, styles: Seq<SelectedView>) -> (
    Option<u8>,
    Option<u8>,
) {
    if bodies.len() > 0 && bodies[0].items.len() > 0 {
        let body = bodies[0].items[0].node;
        match attr_of(body, "bgcolor"@) {
            Some(bg) => (color_entry(bg), and_color(attr_of(body, "text"@))),
            None => styles_colors(styles, 0),
        }
    } else {
        styles_colors(styles, 0)
    }
}

pub fn extract_site_colors(bodies: &Vec<Selected>, styles: &Vec<Selected>) -> (r: (
    Option<u8>,
    Option<u8>,
))
    ensures
        r == site_colors(views(bodies@), views(styles@)),
{
    if bodies.len() > 0 && bodies[0].items.len() > 0 {
        assert(views(bodies@)[0].items[0] == bodies@[0].items@[0]@);
        let body = &bodies[0].items[0].node;
        if let Some(bg) = node_attr(body, "bgcolor") {
            let fg = match node_attr(body, "text") {
                Some(t) => parse_color(t),
                None => None,
            };
            return (parse_color(bg), fg);
        }
    }
    let ghost s = views(styles@);
    let mut k: usize = 0;
    while k < styles.len()
        invariant
            k <= styles@.len(),
            s == views(styles@),
            site_colors(views(bodies@), s) == styles_colors(s, 0),
            styles_colors(s, k as int) == styles_colors(s, 0),
        decreases styles@.len() - k,
    {
        assert(s[k as int].items == views(styles@[k as int].items@));
        if styles[k].items.len() > 0 {
            let css = text_under(&styles[k].items, 0);
            if let Some(c) = colors_of_sheet(css.as_str()) {
                return c;
            }
        }
        k += 1;
    }
    (None, None)
}

} // verus!
