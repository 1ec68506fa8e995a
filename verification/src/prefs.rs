//! The preferences dialogue.

use vstd::prelude::*;
use crate::config::{Config, ConfigView};
use crate::number::{decimal, number, parse_number, parsed};
use crate::renderer::entry;
use crate::style::{emboldened, painted, reversed};
use crate::tab::{lemma_views_push, views};
use crate::table::{byte_len, pad, padded};
use crate::text::{
    chars_of, concat, concat3, fit, fitting, repeat_char, repeated, same,
};

verus! {

broadcast use vstd::string::group_string_axioms;

// --- Items ---

/// One setting with its label.
pub enum PrefItem {
    Bool(&'static str, bool),
    Choice(&'static str, Vec<&'static str>, String),
    Text(&'static str, String),
    Color(&'static str, u16),
}

pub enum PrefView {
    Bool(Seq<char>, bool),
    Choice(Seq<char>, Seq<Seq<char>>, Seq<char>),
    Text(Seq<char>, Seq<char>),
    Color(Seq<char>, u16),
}

pub open spec fn option_texts(v: Seq<&'static str>) -> Seq<Seq<char>> {
    v.map_values(|s: &'static str| s@)
}

impl View for PrefItem {
    type V = PrefView;

    open spec fn view(&self) -> PrefView {
        match *self {
            PrefItem::Bool(l, v) => PrefView::Bool(l@, v),
            PrefItem::Choice(l, o, v) => PrefView::Choice(l@, option_texts(o@), v@),
            PrefItem::Text(l, v) => PrefView::Text(l@, v@),
            PrefItem::Color(l, c) => PrefView::Color(l@, c),
        }
    }
}

pub open spec fn label_of(p: PrefView) -> Seq<char> {
    match p {
        PrefView::Bool(l, _) => l,
        PrefView::Choice(l, _, _) => l,
        PrefView::Text(l, _) => l,
        PrefView::Color(l, _) => l,
    }
}

/// A choice has something to choose from.
pub open spec fn is_item(p: PrefView) -> bool {
    p matches PrefView::Choice(_, o, _) ==> o.len() > 0
}

/// The place of a value among the options, the first where it is none of them.
pub open spec fn option_place(o: Seq<Seq<char>>, v: Seq<char>, i: int) -> int
    decreases o.len() - i,
{
    if i < 0 || i >= o.len() {
        0
    } else if o[i] == v {
        i
    } else {
        option_place(o, v, i + 1)
    }
}

/// The item with its next value; texts have none.
pub open spec fn next_value(p: PrefView) -> PrefView {
    match p {
        PrefView::Bool(l, v) => PrefView::Bool(l, !v),
        PrefView::Choice(l, o, v) => PrefView::Choice(
            l,
            o,
            o[(option_place(o, v, 0) + 1) % (o.len() as int)],
        ),
        PrefView::Text(l, v) => PrefView::Text(l, v),
        PrefView::Color(l, c) => PrefView::Color(l, ((c + 1) % 256) as u16),
    }
}

/// The item with the value before.
pub open spec fn prev_value(p: PrefView) -> PrefView {
    match p {
        PrefView::Bool(l, v) => PrefView::Bool(l, !v),
        PrefView::Choice(l, o, v) => PrefView::Choice(
            l,
            o,
            o[(option_place(o, v, 0) + o.len() - 1) % (o.len() as int)],
        ),
        PrefView::Text(l, v) => PrefView::Text(l, v),
        PrefView::Color(l, c) => PrefView::Color(
            l,
            if c == 0 {
                255
            } else {
                (c - 1) as u16
            },
        ),
    }
}

proof fn lemma_option_place(o: Seq<Seq<char>>, v: Seq<char>, i: int)
    requires
        0 <= i <= o.len(),
        o.len() > 0,
    ensures
        0 <= option_place(o, v, i) < o.len(),
        (exists|k: int| i <= k < o.len() && o[k] == v) ==> o[option_place(o, v, i)] == v,
    decreases o.len() - i,
{
    if i < o.len() && o[i] != v {
        lemma_option_place(o, v, i + 1);
        if exists|k: int| i <= k < o.len() && o[k] == v {
            let k = choose|k: int| i <= k < o.len() && o[k] == v;
            assert(i + 1 <= k < o.len() && o[k] == v);
        }
    }
}

/// Whether an item's value is one that stepping can come back to: a colour of the palette,
/// or one of options that are all different.
pub open spec fn is_regular(p: PrefView) -> bool {
    match p {
        PrefView::Choice(_, o, v) => o.contains(v) && o.no_duplicates(),
        PrefView::Color(_, c) => c < 256,
        _ => true,
    }
}

/// Stepping to the next value and back, or back and forth, changes nothing.
pub proof fn law_next_prev(p: PrefView)
    requires
        is_regular(p),
    ensures
        prev_value(next_value(p)) == p,
        next_value(prev_value(p)) == p,
{
    if let PrefView::Choice(l, o, v) = p {
        let n = o.len() as int;
        let k = choose|k: int| 0 <= k < o.len() && o[k] == v;
        assert(0 <= k < o.len() && o[k] == v);
        lemma_option_place(o, v, 0);
        let i = option_place(o, v, 0);
        let up = (i + 1) % n;
        let down = (i + n - 1) % n;
        assert(up == if i + 1 == n {
            0
        } else {
            i + 1
        }) by (nonlinear_arith)
            requires
                0 <= i < n,
                up == (i + 1) % n,
        ;
        assert(down == if i == 0 {
            n - 1
        } else {
            i - 1
        }) by (nonlinear_arith)
            requires
                0 <= i < n,
                down == (i + n - 1) % n,
        ;
        lemma_option_place(o, o[up], 0);
        lemma_option_place(o, o[down], 0);
        assert(o[option_place(o, o[up], 0)] == o[up]) by {
            assert(0 <= up < o.len() && o[up] == o[up]);
        }
        assert(o[option_place(o, o[down], 0)] == o[down]) by {
            assert(0 <= down < o.len() && o[down] == o[down]);
        }
        assert(option_place(o, o[up], 0) == up);
        assert(option_place(o, o[down], 0) == down);
        assert((up + n - 1) % n == i) by (nonlinear_arith)
            requires
                0 <= i < n,
                up == if i + 1 == n {
                    0
                } else {
                    i + 1
                },
        ;
        assert((down + 1) % n == i) by (nonlinear_arith)
            requires
                0 <= i < n,
                down == if i == 0 {
                    n - 1
                } else {
                    i - 1
                },
        ;
    }
}

/// A number at the right of three places.
pub open spec fn right_of_three(s: Seq<char>) -> Seq<char> {
    if s.len() < 3 {
        repeated(' ', (3 - s.len()) as nat) + s
    } else {
        s
    }
}

/// The value as the dialogue shows it; of a text that is long, its beginning.
pub open spec fn shown_value(p: PrefView) -> Seq<char> {
    match p {
        PrefView::Bool(_, v) => if v {
            painted("YES"@, 82)
        } else {
            painted("NO"@, 196)
        },
        PrefView::Choice(_, _, v) => painted(v, 81),
        PrefView::Text(_, v) => if byte_len(v) > 25 {
            fitting(v, 22) + "..."@
        } else {
            v
        },
        PrefView::Color(_, c) => painted("\u{2588}\u{2588}\u{2588}"@, entry(c)) + " "@
            + right_of_three(decimal(c as nat)),
    }
}

fn place_among(o: &Vec<&'static str>, v: &str) -> (r: usize)
    requires
        o@.len() > 0,
    ensures
        r == option_place(option_texts(o@), v@, 0),
        r < o@.len(),
{
    let ghost t = option_texts(o@);
    let mut i: usize = 0;
    while i < o.len()
        invariant
            i <= o@.len(),
            t == option_texts(o@),
            option_place(t, v@, i as int) == option_place(t, v@, 0),
            o@.len() > 0,
        decreases o@.len() - i,
    {
        assert(t[i as int] == o@[i as int]@);
        if same(o[i], v) {
            return i;
        }
        i += 1;
    }
    0
}

impl PrefItem {
    pub fn label(&self) -> (r: &str)
        ensures
            r@ == label_of(self@),
    {
        match self {
            PrefItem::Bool(l, _) => l,
            PrefItem::Choice(l, _, _) => l,
            PrefItem::Text(l, _) => l,
            PrefItem::Color(l, _) => l,
        }
    }

    pub fn display(&self) -> (r: String)
        ensures
            r@ == shown_value(self@),
    {
        match self {
            PrefItem::Bool(_, v) => if *v {
                crust::style::fg("YES", 82)
            } else {
                crust::style::fg("NO", 196)
            },
            PrefItem::Choice(_, _, v) => crust::style::fg(v.as_str(), 81),
            PrefItem::Text(_, v) => if v.as_str().len() > 25 {
                concat(fit(v.as_str(), 22).as_str(), "...")
            } else {
                v.clone()
            },
            PrefItem::Color(_, c) => {
                let digits = number(*c as usize);
                let n: usize = chars_of(digits.as_str()).len();
                let shown = if n < 3 {
                    concat(repeat_char(' ', 3 - n).as_str(), digits.as_str())
                } else {
                    digits
                };
                let sample = crust::style::fg("\u{2588}\u{2588}\u{2588}", (*c % 256) as u8);
                concat3(sample.as_str(), " ", shown.as_str())
            },
        }
    }

    pub fn next(&mut self)
        requires
            is_item(old(self)@),
        ensures
            final(self)@ == next_value(old(self)@),
    {
        match self {
            PrefItem::Bool(_, v) => {
                *v = !*v;
            },
            PrefItem::Choice(_, o, v) => {
                let n: usize = o.len();
                let i = place_among(o, v.as_str());
                let j: usize = if i + 1 < n {
                    i + 1
                } else {
                    0
                };
                assert(j == (i + 1) % (n as int)) by (nonlinear_arith)
                    requires
                        i < n,
                        j == if i + 1 < n {
                            i + 1
                        } else {
                            0
                        },
                ;
                assert(option_texts(o@)[j as int] == o@[j as int]@);
                *v = o[j].to_string();
            },
            PrefItem::Text(_, _) => {},
            PrefItem::Color(_, c) => {
                *c = if *c == 65535 {
                    0
                } else {
                    (*c + 1) % 256
                };
            },
        }
    }

    pub fn prev(&mut self)
        requires
            is_item(old(self)@),
        ensures
            final(self)@ == prev_value(old(self)@),
    {
        match self {
            PrefItem::Bool(_, v) => {
                *v = !*v;
            },
            PrefItem::Choice(_, o, v) => {
                let n: usize = o.len();
                let i = place_among(o, v.as_str());
                let j: usize = if i == 0 {
                    n - 1
                } else {
                    i - 1
                };
                assert(j == (i + n - 1) % (n as int)) by (nonlinear_arith)
                    requires
                        i < n,
                        j == if i == 0 {
                            n - 1
                        } else {
                            i - 1
                        },
                ;
                assert(option_texts(o@)[j as int] == o@[j as int]@);
                *v = o[j].to_string();
            },
            PrefItem::Text(_, _) => {},
            PrefItem::Color(_, c) => {
                *c = if *c == 0 {
                    255
                } else {
                    *c - 1
                };
            },
        }
    }
}

// --- The dialogue ---

/// The settings that the dialogue offers.
pub open spec fn offered(c: ConfigView) -> Seq<PrefView> {
    seq![
        PrefView::Bool("Match site colors"@, c.match_site_colors),
        PrefView::Choice("Image mode"@, seq!["auto"@, "ascii"@, "off"@], c.image_mode),
        PrefView::Bool("Show images"@, c.show_images),
        PrefView::Text("Homepage"@, c.homepage),
        PrefView::Choice("Search engine"@, seq!["g"@, "ddg"@, "w"@], c.search_engine),
        PrefView::Text("Download folder"@, c.download_folder),
        PrefView::Color("Info bar fg"@, c.c_info_fg),
        PrefView::Color("Info bar bg"@, c.c_info_bg),
        PrefView::Color("Tab bar fg"@, c.c_tab_fg),
        PrefView::Color("Tab bar bg"@, c.c_tab_bg),
        PrefView::Color("Active tab"@, c.c_active_tab),
        PrefView::Color("Content fg"@, c.c_content_fg),
        PrefView::Color("Content bg"@, c.c_content_bg),
        PrefView::Color("Status fg"@, c.c_status_fg),
        PrefView::Color("Status bg"@, c.c_status_bg),
        PrefView::Color("Link color"@, c.c_link),
        PrefView::Color("Link numbers"@, c.c_link_num),
        PrefView::Color("Heading h1"@, c.c_h1),
        PrefView::Color("Heading h2"@, c.c_h2),
        PrefView::Color("Heading h3"@, c.c_h3),
    ]
}

pub struct Preferences {
    pub items: Vec<PrefItem>,
    /// The item under the cursor.
    pub sel: usize,
    /// Whether anything was changed.
    pub dirty: bool,
}

pub struct PreferencesView {
    pub items: Seq<PrefView>,
    pub sel: int,
    pub dirty: bool,
}

impl View for Preferences {
    type V = PreferencesView;

    open spec fn view(&self) -> PreferencesView {
        PreferencesView { items: views(self.items@), sel: self.sel as int, dirty: self.dirty }
    }
}

/// The cursor is on an item, and every choice has options.
pub open spec fn is_dialogue(p: PreferencesView) -> bool {
    0 <= p.sel < p.items.len() && forall|k: int|
        0 <= k < p.items.len() ==> is_item(#[trigger] p.items[k])
}

/// What a key in the dialogue asks for.
pub enum PrefAction {
    Stay,
    Close,
    /// The user is to be asked for a value.
    Ask { label: String, initial: String },
}

pub open spec fn with_item(p: PreferencesView, item: PrefView) -> PreferencesView {
    PreferencesView { items: p.items.update(p.sel, item), dirty: true, ..p }
}

/// The dialogue after a key.
pub open spec fn after_key(p: PreferencesView, key: Seq<char>) -> PreferencesView {
    if key == "j"@ || key == "DOWN"@ {
        if p.sel < p.items.len() - 1 {
            PreferencesView { sel: p.sel + 1, ..p }
        } else {
            p
        }
    } else if key == "k"@ || key == "UP"@ {
        if p.sel > 0 {
            PreferencesView { sel: p.sel - 1, ..p }
        } else {
            p
        }
    } else if key == "l"@ || key == "RIGHT"@ {
        with_item(p, next_value(p.items[p.sel]))
    } else if key == "h"@ || key == "LEFT"@ {
        with_item(p, prev_value(p.items[p.sel]))
    } else {
        p
    }
}

/// What a key asks for: `ESC` and `q` close, `ENTER` asks for a value, unless it is on a
/// switch.
pub open spec fn is_action(a: PrefAction, p: PreferencesView, key: Seq<char>) -> bool {
    if key == "ESC"@ || key == "q"@ {
        a is Close
    } else if key == "ENTER"@ {
        match p.items[p.sel] {
            PrefView::Bool(_, _) => a is Stay,
            PrefView::Choice(l, _, v) => a matches PrefAction::Ask { label, initial } && label@
                == l + ": "@ && initial@ == v,
            PrefView::Text(l, v) => a matches PrefAction::Ask { label, initial } && label@ == l
                + ": "@ && initial@ == v,
            PrefView::Color(_, c) => a matches PrefAction::Ask { label, initial } && label@
                == "Color (0-255): "@ && initial@ == decimal(c as nat),
        }
    } else {
        a is Stay
    }
}

/// The dialogue after the user's answer for the item under the cursor.
pub open spec fn answered(p: PreferencesView, answer: Seq<char>) -> PreferencesView {
    match p.items[p.sel] {
        PrefView::Bool(_, _) => p,
        PrefView::Choice(l, o, _) => if answer.len() > 0 {
            with_item(p, PrefView::Choice(l, o, answer))
        } else {
            p
        },
        PrefView::Text(l, _) => if answer.len() > 0 {
            with_item(p, PrefView::Text(l, answer))
        } else {
            p
        },
        PrefView::Color(l, _) => match parsed(answer, u16::MAX as nat) {
            Some(n) => with_item(p, PrefView::Color(l, n as u16)),
            None => p,
        },
    }
}

/// The line of the item at `i`.
pub open spec fn item_line(p: PreferencesView, i: int) -> Seq<char> {
    let label = padded(label_of(p.items[i]), 18);
    let value = shown_value(p.items[i]);
    if i == p.sel {
        " "@ + reversed(label) + " \u{25C0} "@ + value + " \u{25B6}"@
    } else {
        " "@ + label + "   "@ + value + "  "@
    }
}

/// The lines of the dialogue.
pub open spec fn dialogue_lines(p: PreferencesView) -> Seq<Seq<char>> {
    seq![" "@ + painted(emboldened("Preferences"@), 81), ""@] + Seq::new(
        p.items.len(),
        |i: int| item_line(p, i),
    ) + seq![""@, painted(" j/k h/l Enter ESC"@, 245)]
}

/// The settings with the item of a known label taken over.
pub open spec fn applied(c: ConfigView, item: PrefView) -> ConfigView {
    match item {
        PrefView::Bool(l, v) => if l == "Match site colors"@ {
            ConfigView { match_site_colors: v, ..c }
        } else if l == "Show images"@ {
            ConfigView { show_images: v, ..c }
        } else {
            c
        },
        PrefView::Choice(l, _, v) => if l == "Image mode"@ {
            ConfigView { image_mode: v, ..c }
        } else if l == "Search engine"@ {
            ConfigView { search_engine: v, ..c }
        } else {
            c
        },
        PrefView::Text(l, v) => if l == "Homepage"@ {
            ConfigView { homepage: v, ..c }
        } else if l == "Download folder"@ {
            ConfigView { download_folder: v, ..c }
        } else {
            c
        },
        PrefView::Color(l, v) => color_applied(c, l, v),
    }
}

pub open spec fn color_applied(c: ConfigView, l: Seq<char>, v: u16) -> ConfigView {
    if l == "Info bar fg"@ {
        ConfigView { c_info_fg: v, ..c }
    } else if l == "Info bar bg"@ {
        ConfigView { c_info_bg: v, ..c }
    } else if l == "Tab bar fg"@ {
        ConfigView { c_tab_fg: v, ..c }
    } else if l == "Tab bar bg"@ {
        ConfigView { c_tab_bg: v, ..c }
    } else if l == "Active tab"@ {
        ConfigView { c_active_tab: v, ..c }
    } else if l == "Content fg"@ {
        ConfigView { c_content_fg: v, ..c }
    } else if l == "Content bg"@ {
        ConfigView { c_content_bg: v, ..c }
    } else if l == "Status fg"@ {
        ConfigView { c_status_fg: v, ..c }
    } else if l == "Status bg"@ {
        ConfigView { c_status_bg: v, ..c }
    } else if l == "Link color"@ {
        ConfigView { c_link: v, ..c }
    } else if l == "Link numbers"@ {
        ConfigView { c_link_num: v, ..c }
    } else if l == "Heading h1"@ {
        ConfigView { c_h1: v, ..c }
    } else if l == "Heading h2"@ {
        ConfigView { c_h2: v, ..c }
    } else if l == "Heading h3"@ {
        ConfigView { c_h3: v, ..c }
    } else {
        c
    }
}

pub open spec fn all_applied(c: ConfigView, items: Seq<PrefView>) -> ConfigView
    decreases items.len(),
{
    if items.len() == 0 {
        c
    } else {
        applied(all_applied(c, items.drop_last()), items.last())
    }
}

/// Moving the cursor, changing values and answering keep the dialogue sound.
pub proof fn law_dialogue_kept(p: PreferencesView, key: Seq<char>, answer: Seq<char>)
    requires
        is_dialogue(p),
    ensures
        is_dialogue(after_key(p, key)),
        is_dialogue(answered(p, answer)),
        after_key(p, key).items.len() == p.items.len(),
{
    assert(is_item(p.items[p.sel]));
    let a = after_key(p, key);
    assert forall|k: int| 0 <= k < a.items.len() implies is_item(#[trigger] a.items[k]) by {
        assert(is_item(p.items[k]));
    }
    let b = answered(p, answer);
    assert forall|k: int| 0 <= k < b.items.len() implies is_item(#[trigger] b.items[k]) by {
        assert(is_item(p.items[k]));
    }
}

/// No two colours have one label.
proof fn lemma_color_labels()
    ensures
        "Info bar fg"@ != "Info bar bg"@,
        "Info bar fg"@ != "Tab bar fg"@,
        "Info bar fg"@ != "Tab bar bg"@,
        "Info bar fg"@ != "Active tab"@,
        "Info bar fg"@ != "Content fg"@,
        "Info bar fg"@ != "Content bg"@,
        "Info bar fg"@ != "Status fg"@,
        "Info bar fg"@ != "Status bg"@,
        "Info bar fg"@ != "Link color"@,
        "Info bar fg"@ != "Link numbers"@,
        "Info bar fg"@ != "Heading h1"@,
        "Info bar fg"@ != "Heading h2"@,
        "Info bar fg"@ != "Heading h3"@,
        "Info bar bg"@ != "Tab bar fg"@,
        "Info bar bg"@ != "Tab bar bg"@,
        "Info bar bg"@ != "Active tab"@,
        "Info bar bg"@ != "Content fg"@,
        "Info bar bg"@ != "Content bg"@,
        "Info bar bg"@ != "Status fg"@,
        "Info bar bg"@ != "Status bg"@,
        "Info bar bg"@ != "Link color"@,
        "Info bar bg"@ != "Link numbers"@,
        "Info bar bg"@ != "Heading h1"@,
        "Info bar bg"@ != "Heading h2"@,
        "Info bar bg"@ != "Heading h3"@,
        "Tab bar fg"@ != "Tab bar bg"@,
        "Tab bar fg"@ != "Active tab"@,
        "Tab bar fg"@ != "Content fg"@,
        "Tab bar fg"@ != "Content bg"@,
        "Tab bar fg"@ != "Status fg"@,
        "Tab bar fg"@ != "Status bg"@,
        "Tab bar fg"@ != "Link color"@,
        "Tab bar fg"@ != "Link numbers"@,
        "Tab bar fg"@ != "Heading h1"@,
        "Tab bar fg"@ != "Heading h2"@,
        "Tab bar fg"@ != "Heading h3"@,
        "Tab bar bg"@ != "Active tab"@,
        "Tab bar bg"@ != "Content fg"@,
        "Tab bar bg"@ != "Content bg"@,
        "Tab bar bg"@ != "Status fg"@,
        "Tab bar bg"@ != "Status bg"@,
        "Tab bar bg"@ != "Link color"@,
        "Tab bar bg"@ != "Link numbers"@,
        "Tab bar bg"@ != "Heading h1"@,
        "Tab bar bg"@ != "Heading h2"@,
        "Tab bar bg"@ != "Heading h3"@,
        "Active tab"@ != "Content fg"@,
        "Active tab"@ != "Content bg"@,
        "Active tab"@ != "Status fg"@,
        "Active tab"@ != "Status bg"@,
        "Active tab"@ != "Link color"@,
        "Active tab"@ != "Link numbers"@,
        "Active tab"@ != "Heading h1"@,
        "Active tab"@ != "Heading h2"@,
        "Active tab"@ != "Heading h3"@,
        "Content fg"@ != "Content bg"@,
        "Content fg"@ != "Status fg"@,
        "Content fg"@ != "Status bg"@,
        "Content fg"@ != "Link color"@,
        "Content fg"@ != "Link numbers"@,
        "Content fg"@ != "Heading h1"@,
        "Content fg"@ != "Heading h2"@,
        "Content fg"@ != "Heading h3"@,
        "Content bg"@ != "Status fg"@,
        "Content bg"@ != "Status bg"@,
        "Content bg"@ != "Link color"@,
        "Content bg"@ != "Link numbers"@,
        "Content bg"@ != "Heading h1"@,
        "Content bg"@ != "Heading h2"@,
        "Content bg"@ != "Heading h3"@,
        "Status fg"@ != "Status bg"@,
        "Status fg"@ != "Link color"@,
        "Status fg"@ != "Link numbers"@,
        "Status fg"@ != "Heading h1"@,
        "Status fg"@ != "Heading h2"@,
        "Status fg"@ != "Heading h3"@,
        "Status bg"@ != "Link color"@,
        "Status bg"@ != "Link numbers"@,
        "Status bg"@ != "Heading h1"@,
        "Status bg"@ != "Heading h2"@,
        "Status bg"@ != "Heading h3"@,
        "Link color"@ != "Link numbers"@,
        "Link color"@ != "Heading h1"@,
        "Link color"@ != "Heading h2"@,
        "Link color"@ != "Heading h3"@,
        "Link numbers"@ != "Heading h1"@,
        "Link numbers"@ != "Heading h2"@,
        "Link numbers"@ != "Heading h3"@,
        "Heading h1"@ != "Heading h2"@,
        "Heading h1"@ != "Heading h3"@,
        "Heading h2"@ != "Heading h3"@,
{
    reveal_strlit("Info bar fg");
    reveal_strlit("Info bar bg");
    reveal_strlit("Tab bar fg");
    reveal_strlit("Tab bar bg");
    reveal_strlit("Active tab");
    reveal_strlit("Content fg");
    reveal_strlit("Content bg");
    reveal_strlit("Status fg");
    reveal_strlit("Status bg");
    reveal_strlit("Link color");
    reveal_strlit("Link numbers");
    reveal_strlit("Heading h1");
    reveal_strlit("Heading h2");
    reveal_strlit("Heading h3");
    assert("Info bar fg"@.len() != "Tab bar fg"@.len());
    assert("Info bar fg"@.len() != "Tab bar bg"@.len());
    assert("Info bar fg"@.len() != "Active tab"@.len());
    assert("Info bar fg"@.len() != "Content fg"@.len());
    assert("Info bar fg"@.len() != "Content bg"@.len());
    assert("Info bar fg"@.len() != "Status fg"@.len());
    assert("Info bar fg"@.len() != "Status bg"@.len());
    assert("Info bar fg"@.len() != "Link color"@.len());
    assert("Info bar fg"@.len() != "Link numbers"@.len());
    assert("Info bar fg"@.len() != "Heading h1"@.len());
    assert("Info bar fg"@.len() != "Heading h2"@.len());
    assert("Info bar fg"@.len() != "Heading h3"@.len());
    assert("Info bar bg"@.len() != "Tab bar fg"@.len());
    assert("Info bar bg"@.len() != "Tab bar bg"@.len());
    assert("Info bar bg"@.len() != "Active tab"@.len());
    assert("Info bar bg"@.len() != "Content fg"@.len());
    assert("Info bar bg"@.len() != "Content bg"@.len());
    assert("Info bar bg"@.len() != "Status fg"@.len());
    assert("Info bar bg"@.len() != "Status bg"@.len());
    assert("Info bar bg"@.len() != "Link color"@.len());
    assert("Info bar bg"@.len() != "Link numbers"@.len());
    assert("Info bar bg"@.len() != "Heading h1"@.len());
    assert("Info bar bg"@.len() != "Heading h2"@.len());
    assert("Info bar bg"@.len() != "Heading h3"@.len());
    assert("Tab bar fg"@.len() != "Status fg"@.len());
    assert("Tab bar fg"@.len() != "Status bg"@.len());
    assert("Tab bar fg"@.len() != "Link numbers"@.len());
    assert("Tab bar bg"@.len() != "Status fg"@.len());
    assert("Tab bar bg"@.len() != "Status bg"@.len());
    assert("Tab bar bg"@.len() != "Link numbers"@.len());
    assert("Active tab"@.len() != "Status fg"@.len());
    assert("Active tab"@.len() != "Status bg"@.len());
    assert("Active tab"@.len() != "Link numbers"@.len());
    assert("Content fg"@.len() != "Status fg"@.len());
    assert("Content fg"@.len() != "Status bg"@.len());
    assert("Content fg"@.len() != "Link numbers"@.len());
    assert("Content bg"@.len() != "Status fg"@.len());
    assert("Content bg"@.len() != "Status bg"@.len());
    assert("Content bg"@.len() != "Link numbers"@.len());
    assert("Status fg"@.len() != "Link color"@.len());
    assert("Status fg"@.len() != "Link numbers"@.len());
    assert("Status fg"@.len() != "Heading h1"@.len());
    assert("Status fg"@.len() != "Heading h2"@.len());
    assert("Status fg"@.len() != "Heading h3"@.len());
    assert("Status bg"@.len() != "Link color"@.len());
    assert("Status bg"@.len() != "Link numbers"@.len());
    assert("Status bg"@.len() != "Heading h1"@.len());
    assert("Status bg"@.len() != "Heading h2"@.len());
    assert("Status bg"@.len() != "Heading h3"@.len());
    assert("Link color"@.len() != "Link numbers"@.len());
    assert("Link numbers"@.len() != "Heading h1"@.len());
    assert("Link numbers"@.len() != "Heading h2"@.len());
    assert("Link numbers"@.len() != "Heading h3"@.len());
    assert("Info bar fg"@[9] != "Info bar bg"@[9]);
    assert("Tab bar fg"@[8] != "Tab bar bg"@[8]);
    assert("Tab bar fg"@[0] != "Active tab"@[0]);
    assert("Tab bar fg"@[0] != "Content fg"@[0]);
    assert("Tab bar fg"@[0] != "Content bg"@[0]);
    assert("Tab bar fg"@[0] != "Link color"@[0]);
    assert("Tab bar fg"@[0] != "Heading h1"@[0]);
    assert("Tab bar fg"@[0] != "Heading h2"@[0]);
    assert("Tab bar fg"@[0] != "Heading h3"@[0]);
    assert("Tab bar bg"@[0] != "Active tab"@[0]);
    assert("Tab bar bg"@[0] != "Content fg"@[0]);
    assert("Tab bar bg"@[0] != "Content bg"@[0]);
    assert("Tab bar bg"@[0] != "Link color"@[0]);
    assert("Tab bar bg"@[0] != "Heading h1"@[0]);
    assert("Tab bar bg"@[0] != "Heading h2"@[0]);
    assert("Tab bar bg"@[0] != "Heading h3"@[0]);
    assert("Active tab"@[0] != "Content fg"@[0]);
    assert("Active tab"@[0] != "Content bg"@[0]);
    assert("Active tab"@[0] != "Link color"@[0]);
    assert("Active tab"@[0] != "Heading h1"@[0]);
    assert("Active tab"@[0] != "Heading h2"@[0]);
    assert("Active tab"@[0] != "Heading h3"@[0]);
    assert("Content fg"@[8] != "Content bg"@[8]);
    assert("Content fg"@[0] != "Link color"@[0]);
    assert("Content fg"@[0] != "Heading h1"@[0]);
    assert("Content fg"@[0] != "Heading h2"@[0]);
    assert("Content fg"@[0] != "Heading h3"@[0]);
    assert("Content bg"@[0] != "Link color"@[0]);
    assert("Content bg"@[0] != "Heading h1"@[0]);
    assert("Content bg"@[0] != "Heading h2"@[0]);
    assert("Content bg"@[0] != "Heading h3"@[0]);
    assert("Status fg"@[7] != "Status bg"@[7]);
    assert("Link color"@[0] != "Heading h1"@[0]);
    assert("Link color"@[0] != "Heading h2"@[0]);
    assert("Link color"@[0] != "Heading h3"@[0]);
    assert("Heading h1"@[9] != "Heading h2"@[9]);
    assert("Heading h1"@[9] != "Heading h3"@[9]);
    assert("Heading h2"@[9] != "Heading h3"@[9]);
}

/// The settings `c` with what the dialogue offers taken from `d`.
pub open spec fn offered_from(c: ConfigView, d: ConfigView) -> ConfigView {
    ConfigView {
        match_site_colors: d.match_site_colors,
        image_mode: d.image_mode,
        show_images: d.show_images,
        homepage: d.homepage,
        search_engine: d.search_engine,
        download_folder: d.download_folder,
        c_info_fg: d.c_info_fg,
        c_info_bg: d.c_info_bg,
        c_tab_fg: d.c_tab_fg,
        c_tab_bg: d.c_tab_bg,
        c_active_tab: d.c_active_tab,
        c_content_fg: d.c_content_fg,
        c_content_bg: d.c_content_bg,
        c_status_fg: d.c_status_fg,
        c_status_bg: d.c_status_bg,
        c_link: d.c_link,
        c_link_num: d.c_link_num,
        c_h1: d.c_h1,
        c_h2: d.c_h2,
        c_h3: d.c_h3,
        ..c
    }
}

/// Applying the dialogue takes over each setting that it offers, from the item with its
/// label, and no other setting. So a dialogue whose values were left as they were changes
/// nothing.
pub proof fn law_apply(c: ConfigView, d: ConfigView)
    ensures
        all_applied(c, offered(d)) == offered_from(c, d),
        all_applied(c, offered(c)) == c,
{
    lemma_apply(c, d);
    lemma_apply(c, c);
}

proof fn lemma_apply(c: ConfigView, d: ConfigView)
    ensures
        all_applied(c, offered(d)) == offered_from(c, d),
{
    lemma_color_labels();
    reveal_strlit("Match site colors");
    reveal_strlit("Show images");
    reveal_strlit("Image mode");
    reveal_strlit("Search engine");
    reveal_strlit("Homepage");
    reveal_strlit("Download folder");
    let s = offered(d);
    assert(s.take(0) =~= Seq::empty());
    assert(all_applied(c, s.take(0)) == c);
    assert("Match site colors"@.len() != "Show images"@.len());
    assert("Image mode"@.len() != "Search engine"@.len());
    assert("Homepage"@.len() != "Download folder"@.len());
    let c0 = c;
    let c1 = ConfigView { match_site_colors: d.match_site_colors, ..c0 };
    assert(s.take(1).drop_last() =~= s.take(0));
    assert(s.take(1).last() == s[0]);
    assert(all_applied(c, s.take(1)) == c1);
    let c2 = ConfigView { image_mode: d.image_mode, ..c1 };
    assert(s.take(2).drop_last() =~= s.take(1));
    assert(s.take(2).last() == s[1]);
    assert(all_applied(c, s.take(2)) == c2);
    let c3 = ConfigView { show_images: d.show_images, ..c2 };
    assert(s.take(3).drop_last() =~= s.take(2));
    assert(s.take(3).last() == s[2]);
    assert(all_applied(c, s.take(3)) == c3);
    let c4 = ConfigView { homepage: d.homepage, ..c3 };
    assert(s.take(4).drop_last() =~= s.take(3));
    assert(s.take(4).last() == s[3]);
    assert(all_applied(c, s.take(4)) == c4);
    let c5 = ConfigView { search_engine: d.search_engine, ..c4 };
    assert(s.take(5).drop_last() =~= s.take(4));
    assert(s.take(5).last() == s[4]);
    assert(all_applied(c, s.take(5)) == c5);
    let c6 = ConfigView { download_folder: d.download_folder, ..c5 };
    assert(s.take(6).drop_last() =~= s.take(5));
    assert(s.take(6).last() == s[5]);
    assert(all_applied(c, s.take(6)) == c6);
    let c7 = ConfigView { c_info_fg: d.c_info_fg, ..c6 };
    assert(s.take(7).drop_last() =~= s.take(6));
    assert(s.take(7).last() == s[6]);
    assert(all_applied(c, s.take(7)) == c7);
    let c8 = ConfigView { c_info_bg: d.c_info_bg, ..c7 };
    assert(s.take(8).drop_last() =~= s.take(7));
    assert(s.take(8).last() == s[7]);
    assert(all_applied(c, s.take(8)) == c8);
    let c9 = ConfigView { c_tab_fg: d.c_tab_fg, ..c8 };
    assert(s.take(9).drop_last() =~= s.take(8));
    assert(s.take(9).last() == s[8]);
    assert(all_applied(c, s.take(9)) == c9);
    let c10 = ConfigView { c_tab_bg: d.c_tab_bg, ..c9 };
    assert(s.take(10).drop_last() =~= s.take(9));
    assert(s.take(10).last() == s[9]);
    assert(all_applied(c, s.take(10)) == c10);
    let c11 = ConfigView { c_active_tab: d.c_active_tab, ..c10 };
    assert(s.take(11).drop_last() =~= s.take(10));
    assert(s.take(11).last() == s[10]);
    assert(all_applied(c, s.take(11)) == c11);
    let c12 = ConfigView { c_content_fg: d.c_content_fg, ..c11 };
    assert(s.take(12).drop_last() =~= s.take(11));
    assert(s.take(12).last() == s[11]);
    assert(all_applied(c, s.take(12)) == c12);
    let c13 = ConfigView { c_content_bg: d.c_content_bg, ..c12 };
    assert(s.take(13).drop_last() =~= s.take(12));
    assert(s.take(13).last() == s[12]);
    assert(all_applied(c, s.take(13)) == c13);
    let c14 = ConfigView { c_status_fg: d.c_status_fg, ..c13 };
    assert(s.take(14).drop_last() =~= s.take(13));
    assert(s.take(14).last() == s[13]);
    assert(all_applied(c, s.take(14)) == c14);
    let c15 = ConfigView { c_status_bg: d.c_status_bg, ..c14 };
    assert(s.take(15).drop_last() =~= s.take(14));
    assert(s.take(15).last() == s[14]);
    assert(all_applied(c, s.take(15)) == c15);
    let c16 = ConfigView { c_link: d.c_link, ..c15 };
    assert(s.take(16).drop_last() =~= s.take(15));
    assert(s.take(16).last() == s[15]);
    assert(all_applied(c, s.take(16)) == c16);
    let c17 = ConfigView { c_link_num: d.c_link_num, ..c16 };
    assert(s.take(17).drop_last() =~= s.take(16));
    assert(s.take(17).last() == s[16]);
    assert(all_applied(c, s.take(17)) == c17);
    let c18 = ConfigView { c_h1: d.c_h1, ..c17 };
    assert(s.take(18).drop_last() =~= s.take(17));
    assert(s.take(18).last() == s[17]);
    assert(all_applied(c, s.take(18)) == c18);
    let c19 = ConfigView { c_h2: d.c_h2, ..c18 };
    assert(s.take(19).drop_last() =~= s.take(18));
    assert(s.take(19).last() == s[18]);
    assert(all_applied(c, s.take(19)) == c19);
    let c20 = ConfigView { c_h3: d.c_h3, ..c19 };
    assert(s.take(20).drop_last() =~= s.take(19));
    assert(s.take(20).last() == s[19]);
    assert(all_applied(c, s.take(20)) == c20);
    assert(s.take(20) =~= s);
}

fn apply_color(conf: &mut Config, l: &str, v: u16)
    ensures
        final(conf)@ == color_applied(old(conf)@, l@, v),
{
    if same(l, "Info bar fg") {
        conf.c_info_fg = v;
    } else if same(l, "Info bar bg") {
        conf.c_info_bg = v;
    } else if same(l, "Tab bar fg") {
        conf.c_tab_fg = v;
    } else if same(l, "Tab bar bg") {
        conf.c_tab_bg = v;
    } else if same(l, "Active tab") {
        conf.c_active_tab = v;
    } else if same(l, "Content fg") {
        conf.c_content_fg = v;
    } else if same(l, "Content bg") {
        conf.c_content_bg = v;
    } else if same(l, "Status fg") {
        conf.c_status_fg = v;
    } else if same(l, "Status bg") {
        conf.c_status_bg = v;
    } else if same(l, "Link color") {
        conf.c_link = v;
    } else if same(l, "Link numbers") {
        conf.c_link_num = v;
    } else if same(l, "Heading h1") {
        conf.c_h1 = v;
    } else if same(l, "Heading h2") {
        conf.c_h2 = v;
    } else if same(l, "Heading h3") {
        conf.c_h3 = v;
    }
}

fn apply_item(conf: &mut Config, item: &PrefItem)
    ensures
        final(conf)@ == applied(old(conf)@, item@),
{
    match item {
        PrefItem::Bool(l, v) => {
            if same(l, "Match site colors") {
                conf.match_site_colors = *v;
            } else if same(l, "Show images") {
                conf.show_images = *v;
            }
        },
        PrefItem::Choice(l, _, v) => {
            if same(l, "Image mode") {
                conf.image_mode = v.clone();
            } else if same(l, "Search engine") {
                conf.search_engine = v.clone();
            }
        },
        PrefItem::Text(l, v) => {
            if same(l, "Homepage") {
                conf.homepage = v.clone();
            } else if same(l, "Download folder") {
                conf.download_folder = v.clone();
            }
        },
        PrefItem::Color(l, v) => {
            apply_color(conf, l, *v);
        },
    }
}

impl Preferences {
    /// The dialogue for the settings as they are.
    pub fn new(conf: &Config) -> (r: Self)
        ensures
            r@ == (PreferencesView { items: offered(conf@), sel: 0, dirty: false }),
            is_dialogue(r@),
    {
        let modes: Vec<&'static str> = vec!["auto", "ascii", "off"];
        let engines: Vec<&'static str> = vec!["g", "ddg", "w"];
        assert(option_texts(modes@) =~= seq!["auto"@, "ascii"@, "off"@]);
        assert(option_texts(engines@) =~= seq!["g"@, "ddg"@, "w"@]);
        let items: Vec<PrefItem> = vec![
            PrefItem::Bool("Match site colors", conf.match_site_colors),
            PrefItem::Choice("Image mode", modes, conf.image_mode.clone()),
            PrefItem::Bool("Show images", conf.show_images),
            PrefItem::Text("Homepage", conf.homepage.clone()),
            PrefItem::Choice("Search engine", engines, conf.search_engine.clone()),
            PrefItem::Text("Download folder", conf.download_folder.clone()),
            PrefItem::Color("Info bar fg", conf.c_info_fg),
            PrefItem::Color("Info bar bg", conf.c_info_bg),
            PrefItem::Color("Tab bar fg", conf.c_tab_fg),
            PrefItem::Color("Tab bar bg", conf.c_tab_bg),
            PrefItem::Color("Active tab", conf.c_active_tab),
            PrefItem::Color("Content fg", conf.c_content_fg),
            PrefItem::Color("Content bg", conf.c_content_bg),
            PrefItem::Color("Status fg", conf.c_status_fg),
            PrefItem::Color("Status bg", conf.c_status_bg),
            PrefItem::Color("Link color", conf.c_link),
            PrefItem::Color("Link numbers", conf.c_link_num),
            PrefItem::Color("Heading h1", conf.c_h1),
            PrefItem::Color("Heading h2", conf.c_h2),
            PrefItem::Color("Heading h3", conf.c_h3),
        ];
        let r = Preferences { items, sel: 0, dirty: false };
        assert(views(r.items@) =~= offered(conf@));
        r
    }

    /// Handles a key.
    pub fn key(&mut self, key: &str) -> (r: PrefAction)
        requires
            is_dialogue(old(self)@),
        ensures
            final(self)@ == after_key(old(self)@, key@),
            is_action(r, old(self)@, key@),
            is_dialogue(final(self)@),
    {
        let ghost p = self@;
        proof {
            law_dialogue_kept(p, key@, Seq::empty());
            reveal_strlit("ESC");
            reveal_strlit("q");
            reveal_strlit("j");
            reveal_strlit("DOWN");
            reveal_strlit("k");
            reveal_strlit("UP");
            reveal_strlit("l");
            reveal_strlit("RIGHT");
            reveal_strlit("h");
            reveal_strlit("LEFT");
            reveal_strlit("ENTER");
            assert("q"@[0] == 'q' && "j"@[0] == 'j' && "k"@[0] == 'k' && "l"@[0] == 'l' && "h"@[0]
                == 'h');
            assert("ESC"@[0] == 'E' && "ENTER"@.len() == 5 && "RIGHT"@[0] == 'R' && "ENTER"@[0]
                == 'E' && "DOWN"@[0] == 'D' && "UP"@[0] == 'U' && "LEFT"@[0] == 'L');
            assert(p.items[p.sel] == self.items@[p.sel]@);
            assert(is_item(p.items[p.sel]));
        }
        let n: usize = self.items.len();
        if same(key, "ESC") || same(key, "q") {
            PrefAction::Close
        } else if same(key, "j") || same(key, "DOWN") {
            if self.sel < n - 1 {
                self.sel = self.sel + 1;
            }
            PrefAction::Stay
        } else if same(key, "k") || same(key, "UP") {
            if self.sel > 0 {
                self.sel = self.sel - 1;
            }
            PrefAction::Stay
        } else if same(key, "l") || same(key, "RIGHT") {
            self.items[self.sel].next();
            self.dirty = true;
            assert(views(self.items@) =~= p.items.update(p.sel, next_value(p.items[p.sel])));
            PrefAction::Stay
        } else if same(key, "h") || same(key, "LEFT") {
            self.items[self.sel].prev();
            self.dirty = true;
            assert(views(self.items@) =~= p.items.update(p.sel, prev_value(p.items[p.sel])));
            PrefAction::Stay
        } else if same(key, "ENTER") {
            match &self.items[self.sel] {
                PrefItem::Bool(_, _) => PrefAction::Stay,
                PrefItem::Choice(l, _, v) => PrefAction::Ask {
                    label: concat(l, ": "),
                    initial: v.clone(),
                },
                PrefItem::Text(l, v) => PrefAction::Ask {
                    label: concat(l, ": "),
                    initial: v.clone(),
                },
                PrefItem::Color(_, c) => PrefAction::Ask {
                    label: "Color (0-255): ".to_string(),
                    initial: number(*c as usize),
                },
            }
        } else {
            PrefAction::Stay
        }
    }

    /// Takes the user's answer for the item under the cursor.
    pub fn answer(&mut self, answer: &str)
        requires
            is_dialogue(old(self)@),
        ensures
            final(self)@ == answered(old(self)@, answer@),
            is_dialogue(final(self)@),
    {
        let ghost p = self@;
        proof {
            law_dialogue_kept(p, Seq::empty(), answer@);
            assert(p.items[p.sel] == self.items@[p.sel]@);
        }
        let i: usize = self.sel;
        let mut changed = false;
        match &mut self.items[i] {
            PrefItem::Bool(_, _) => {},
            PrefItem::Choice(_, _, v) => {
                if !answer.is_empty() {
                    *v = answer.to_string();
                    changed = true;
                }
            },
            PrefItem::Text(_, v) => {
                if !answer.is_empty() {
                    *v = answer.to_string();
                    changed = true;
                }
            },
            PrefItem::Color(_, c) => {
                if let Some(n) = parse_number(&chars_of(answer), 65535) {
                    *c = n as u16;
                    changed = true;
                }
            },
        }
        if changed {
            self.dirty = true;
        }
        assert(views(self.items@) =~= answered(p, answer@).items);
    }

    /// The lines of the dialogue.
    pub fn lines(&self) -> (r: Vec<String>)
        ensures
            views(r@) == dialogue_lines(self@),
    {
        let mut out: Vec<String> = Vec::new();
        let title = crust::style::fg(crust::style::bold("Preferences").as_str(), 81);
        out.push(concat(" ", title.as_str()));
        out.push("".to_string());
        let ghost p = self@;
        assert(views(out@) =~= seq![" "@ + painted(emboldened("Preferences"@), 81), ""@]
            + Seq::new(0, |i: int| item_line(p, i)));
        for i in 0..self.items.len()
            invariant
                p == self@,
                views(out@) == seq![" "@ + painted(emboldened("Preferences"@), 81), ""@]
                    + Seq::new(i as nat, |i: int| item_line(p, i)),
        {
            let item = &self.items[i];
            assert(p.items[i as int] == item@);
            let label = pad(item.label(), 18);
            let value = item.display();
            let mut line = " ".to_string();
            if i == self.sel {
                line.append(crust::style::reverse(label.as_str()).as_str());
                line.append(" \u{25C0} ");
                line.append(value.as_str());
                line.append(" \u{25B6}");
            } else {
                line.append(label.as_str());
                line.append("   ");
                line.append(value.as_str());
                line.append("  ");
            }
            assert(line@ == item_line(p, i as int));
            let ghost before = views(out@);
            proof {
                lemma_views_push(out@, line);
            }
            out.push(line);
            assert(views(out@) =~= seq![" "@ + painted(emboldened("Preferences"@), 81), ""@]
                + Seq::new(i as nat + 1, |i: int| item_line(p, i)));
        }
        let ghost before = views(out@);
        out.push("".to_string());
        out.push(crust::style::fg(" j/k h/l Enter ESC", 245));
        assert(views(out@) =~= before + seq![""@, painted(" j/k h/l Enter ESC"@, 245)]);
        out
    }

    /// Takes the items over into the settings, where anything was changed.
    pub fn apply(&self, conf: &mut Config)
        ensures
            final(conf)@ == (if self@.dirty {
                all_applied(old(conf)@, self@.items)
            } else {
                old(conf)@
            }),
    {
        if !self.dirty {
            return;
        }
        let ghost all = self@.items;
        assert(all.take(0) =~= Seq::empty());
        for i in 0..self.items.len()
            invariant
                all == views(self.items@),
                conf@ == all_applied(old(conf)@, all.take(i as int)),
        {
            let ghost t = all.take(i + 1);
            assert(t.drop_last() =~= all.take(i as int));
            assert(t.last() == self.items@[i as int]@);
            apply_item(conf, &self.items[i]);
        }
        assert(all.take(all.len() as int) =~= all);
    }
}

} // verus!
