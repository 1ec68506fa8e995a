//! The lines around the page: title, tabs and status.

use vstd::prelude::*;
use crate::browser::{in_current_set, members, Browser, BrowserView};
use crate::canvas::sum;
use crate::config::{Config, ConfigView};
use crate::number::{decimal, ints, number};
use crate::pages::less_by;
use crate::renderer::{bracketed, entry};
use crate::style::{emboldened, painted, reversed, width_of};
use crate::tab::{Link, LinkView, Tab, TabView};
use crate::table::byte_len;
use crate::text::{
    chars_of, concat, concat3, join, join_strings, part_string, repeat_char, repeated, texts,
};

verus! {

broadcast use vstd::string::group_string_axioms;

// --- The title line ---

/// The title of the page, or its address, between marks for the ways back and forward.
pub open spec fn title_line(t: TabView) -> Seq<char> {
    " "@ + (if t.back_history.len() > 0 {
        "\u{25C0} "@
    } else {
        ""@
    }) + (if t.title.len() == 0 {
        t.url
    } else {
        t.title
    }) + (if t.forward_history.len() > 0 {
        " \u{25B6}"@
    } else {
        ""@
    })
}

pub fn render_info(tab: &Tab) -> (r: String)
    ensures
        r@ == title_line(tab@),
{
    let mut r = " ".to_string();
    if tab.can_go_back() {
        r.append("\u{25C0} ");
    } else {
        r.append("");
    }
    if tab.title.as_str().is_empty() {
        r.append(tab.url.as_str());
    } else {
        r.append(tab.title.as_str());
    }
    if tab.can_go_forward() {
        r.append(" \u{25B6}");
    } else {
        r.append("");
    }
    r
}

// --- The tab line ---

/// The colour of the `i`-th set.
pub open spec fn color_of_set(c: ConfigView, i: int) -> u8 {
    if c.set_colors.len() == 0 {
        entry(c.c_active_tab)
    } else {
        entry(c.set_colors[i % (c.set_colors.len() as int)])
    }
}

pub fn set_color(conf: &Config, i: usize) -> (r: u8)
    ensures
        r == color_of_set(conf@, i as int),
{
    let n: usize = conf.set_colors.len();
    if n == 0 {
        (conf.c_active_tab % 256) as u8
    } else {
        (conf.set_colors[i % n] % 256) as u8
    }
}

/// The mark of the `i`-th set: its name and the number of its tabs.
pub open spec fn set_chip(b: BrowserView, c: ConfigView, i: int) -> Seq<char> {
    let label = b.sets[i] + ": "@ + decimal(members(b.tab_set, i).len());
    if i == b.current_set {
        emboldened(painted(" ["@ + label + "] "@, color_of_set(c, i)))
    } else {
        painted(" "@ + label + " "@, color_of_set(c, i))
    }
}

pub open spec fn set_chips(b: BrowserView, c: ConfigView) -> Seq<Seq<char>> {
    Seq::new(b.sets.len(), |i: int| set_chip(b, c, i))
}

/// The first 20 characters of a text.
pub open spec fn shortened(s: Seq<char>) -> Seq<char> {
    if s.len() > 20 {
        s.take(20)
    } else {
        s
    }
}

/// The mark of a tab: the beginning of its title, or of its address.
pub open spec fn tab_mark(b: BrowserView, i: int) -> Seq<char> {
    let t = b.tabs[i];
    let label = " "@ + shortened(
        if t.title.len() == 0 {
            t.url
        } else {
            t.title
        },
    ) + " "@;
    if i == b.current_tab {
        emboldened(painted(label, 255))
    } else {
        painted(label, 244)
    }
}

pub open spec fn tab_marks(b: BrowserView) -> Seq<Seq<char>> {
    in_current_set(b).map_values(|i: int| tab_mark(b, i))
}

/// The marks of the sets and, where the current set has more than one tab, of its tabs.
pub open spec fn tab_line(b: BrowserView, c: ConfigView) -> Seq<char> {
    let chips = join(set_chips(b, c), ""@);
    if in_current_set(b).len() <= 1 {
        chips
    } else {
        chips + "  "@ + join(tab_marks(b), "\u{2502}"@)
    }
}

fn shorten(s: &str) -> (r: String)
    ensures
        r@ == shortened(s@),
{
    let c = chars_of(s);
    if c.len() > 20 {
        let r = part_string(&c, 0, 20);
        assert(r@ =~= s@.take(20));
        r
    } else {
        s.to_string()
    }
}

fn count_members(tab_set: &Vec<usize>, set: usize) -> (r: usize)
    ensures
        r == members(tab_set@, set as int).len(),
{
    let mut n: usize = 0;
    for i in 0..tab_set.len()
        invariant
            n == crate::browser::members_to(tab_set@, set as int, i as int).len(),
            n <= i,
    {
        if tab_set[i] == set {
            n += 1;
        }
    }
    n
}

fn make_chip(b: &Browser, conf: &Config, i: usize) -> (r: String)
    requires
        i < b.sets@.len(),
    ensures
        r@ == set_chip(b@, conf@, i as int),
{
    assert(b@.sets[i as int] == b.sets@[i as int]@);
    let count = count_members(&b.tab_set, i);
    let label = concat3(b.sets[i].as_str(), ": ", number(count).as_str());
    let color = set_color(conf, i);
    if i == b.current_set {
        let text = concat3(" [", label.as_str(), "] ");
        crust::style::bold(crust::style::fg(text.as_str(), color).as_str())
    } else {
        let text = concat3(" ", label.as_str(), " ");
        crust::style::fg(text.as_str(), color)
    }
}

fn make_mark(b: &Browser, i: usize) -> (r: String)
    requires
        i < b.tabs@.len(),
    ensures
        r@ == tab_mark(b@, i as int),
{
    let t = &b.tabs[i];
    assert(b@.tabs[i as int] == t@);
    let text = if t.title.as_str().is_empty() {
        shorten(t.url.as_str())
    } else {
        shorten(t.title.as_str())
    };
    let label = concat3(" ", text.as_str(), " ");
    if i == b.current_tab {
        crust::style::bold(crust::style::fg(label.as_str(), 255).as_str())
    } else {
        crust::style::fg(label.as_str(), 244)
    }
}

pub fn render_tabs(b: &Browser, conf: &Config) -> (r: String)
    requires
        crate::browser::well_formed(b@),
    ensures
        r@ == tab_line(b@, conf@),
{
    let mut chips: Vec<String> = Vec::new();
    for i in 0..b.sets.len()
        invariant
            chips@.len() == i,
            forall|j: int| 0 <= j < i ==> (#[trigger] chips@[j])@ == set_chip(b@, conf@, j),
    {
        chips.push(make_chip(b, conf, i));
    }
    assert(texts(chips@) =~= set_chips(b@, conf@));
    let block = join_strings(&chips, "");
    let m = b.tabs_in_current_set();
    let ghost all = in_current_set(b@);
    if m.len() <= 1 {
        return block;
    }
    let mut marks: Vec<String> = Vec::new();
    for k in 0..m.len()
        invariant
            all == ints(m@),
            marks@.len() == k,
            forall|j: int| 0 <= j < m@.len() ==> (#[trigger] m@[j]) < b@.tabs.len(),
            forall|j: int| 0 <= j < k ==> (#[trigger] marks@[j])@ == tab_mark(b@, all[j]),
    {
        assert(m@[k as int] < b@.tabs.len());
        marks.push(make_mark(b, m[k]));
    }
    assert(texts(marks@) =~= tab_marks(b@));
    concat3(block.as_str(), "  ", join_strings(&marks, "\u{2502}").as_str())
}

// --- The status line ---

/// How the page is to be read.
pub open spec fn hints(n: int) -> Seq<char> {
    if n > 0 {
        " "@ + decimal(n as nat) + " links | ? help | : command"@
    } else {
        " ? help | : command"@
    }
}

/// The hints, the address and, at the right, the version.
pub open spec fn status_line(n: int, url: Seq<char>, version: Seq<char>, cols: int) -> Seq<char> {
    let left = hints(n);
    let mid = " | "@ + url;
    let taken = sum(
        sum(sum(width_of(left) as int, width_of(mid) as int), byte_len(version)),
        1,
    );
    left + mid + repeated(' ', less_by(cols, taken) as nat) + version
}

pub fn render_status(n: usize, url: &str, version: &str, cols: u16) -> (r: String)
    ensures
        r@ == status_line(n as int, url@, version@, cols as int),
{
    let mut r = if n > 0 {
        concat3(" ", number(n).as_str(), " links | ? help | : command")
    } else {
        " ? help | : command".to_string()
    };
    let mid = concat(" | ", url);
    let taken: usize = crust::display_width(r.as_str()).saturating_add(
        crust::display_width(mid.as_str()),
    ).saturating_add(version.len()).saturating_add(1);
    let gap = repeat_char(' ', (cols as usize).saturating_sub(taken));
    r.append(mid.as_str());
    r.append(gap.as_str());
    r.append(version);
    r
}

/// The number, the text and the address of a link.
pub open spec fn link_line(l: LinkView, c: ConfigView) -> Seq<char> {
    " "@ + painted(bracketed(decimal(l.index as nat)), entry(c.c_link_num)) + " "@ + reversed(
        l.text,
    ) + " "@ + painted(l.href, 245)
}

pub fn render_link(l: &Link, conf: &Config) -> (r: String)
    ensures
        r@ == link_line(l@, conf@),
{
    let mark = concat3("[", number(l.index).as_str(), "]");
    let mut r = concat3(
        " ",
        crust::style::fg(mark.as_str(), (conf.c_link_num % 256) as u8).as_str(),
        " ",
    );
    r.append(crust::style::reverse(l.text.as_str()).as_str());
    r.append(" ");
    r.append(crust::style::fg(l.href.as_str(), 245).as_str());
    r
}

/// The foreground and background of the page: those of the site where it sets them, else
/// those of the settings. `None` where the settings leave the colours alone.
pub open spec fn page_colors(
    c: ConfigView,
    site_fg: Option<u8>,
    site_bg: Option<u8>,
) -> Option<(u16, u16)> {
    if c.match_site_colors {
        Some(
            (
                match site_fg {
                    Some(x) => x as u16,
                    None => c.c_content_fg,
                },
                match site_bg {
                    Some(x) => x as u16,
                    None => c.c_content_bg,
                },
            ),
        )
    } else {
        None
    }
}

pub fn main_colors(conf: &Config, site_fg: Option<u8>, site_bg: Option<u8>) -> (r: Option<
    (u16, u16),
>)
    ensures
        r == page_colors(conf@, site_fg, site_bg),
{
    if conf.match_site_colors {
        let fg: u16 = match site_fg {
            Some(x) => x as u16,
            None => conf.c_content_fg,
        };
        let bg: u16 = match site_bg {
            Some(x) => x as u16,
            None => conf.c_content_bg,
        };
        Some((fg, bg))
    } else {
        None
    }
}

} // verus!
