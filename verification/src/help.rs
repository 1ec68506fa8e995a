//! The help text.

use vstd::prelude::*;
use crate::style::{emboldened, painted};
use crate::tab::views;
use crate::text::concat;

verus! {

/// A heading of the help text.
pub open spec fn section(t: Seq<char>) -> Seq<char> {
    " "@ + painted(emboldened(t), 220)
}

/// The lines of the help text.
pub open spec fn help_text() -> Seq<Seq<char>> {
    seq![
        " "@ + painted(emboldened("Scroll \u{2014} Terminal Web Browser"@), 81),
        ""@,
        section("Scrolling"@),
        "   j / k   \u{2193} / \u{2191}      line down / up"@,
        "   Space / PgDn       page down"@,
        "   PgUp               page up"@,
        "   C-d / C-u          half-page down / up"@,
        "   gg / G  Home/End   top / bottom"@,
        "   < / >              horizontal scroll"@,
        ""@,
        section("Tabs"@),
        "   \u{2192}  /  \u{2190}            next / prev tab in current set"@,
        "   S-\u{2192} / S-\u{2190}          move active tab right / left"@,
        "   t                  open in new tab"@,
        "   d                  close tab"@,
        "   u                  undo close"@,
        ""@,
        section("Sets (per-set cookie jars / identities)"@),
        "   C-\u{2192} / C-\u{2190}          next / prev set"@,
        "   gn                 rename current set"@,
        "   gN                 new set"@,
        "   gm                 move active tab to another set"@,
        "   D                  delete current set (with confirmation)"@,
        ""@,
        section("Navigation"@),
        "   o                  open URL"@,
        "   O                  edit current URL"@,
        "   H  /  Backspace    back"@,
        "   L  /  Delete       forward"@,
        "   r                  reload"@,
        ""@,
        section("Links & forms"@),
        "   Tab / S-Tab        focus next / prev link or field"@,
        "   Enter              follow focused link / edit field"@,
        "   Enter then NN      follow link by [N] number (e.g. 42)"@,
        "   Enter then NNt     open link [N] in a new tab (e.g. 42t)"@,
        "   T                  open focused link in a new tab"@,
        "   f                  fill and submit form"@,
        "   e                  edit page source in $EDITOR"@,
        "   C-g                edit focused form field in $EDITOR"@,
        "   p                  show stored password for site"@,
        "   y / Y              copy page URL / focused link URL"@,
        ""@,
        section("Search"@),
        "   /                  search page"@,
        "   n / N              next / prev match"@,
        ""@,
        section("Bookmarks & quickmarks"@),
        "   b                  bookmark current page"@,
        "   B                  show bookmarks"@,
        "   m{key}             set quickmark"@,
        "   '{key}             go to quickmark"@,
        ""@,
        section("Other"@),
        "   i                  toggle images"@,
        "   I                  AI page summary"@,
        "   P                  preferences"@,
        "   C-l                hard redraw (resets kitty image state)"@,
        "   :                  command mode (see below)"@,
        "   ?                  this help"@,
        "   q                  quit"@,
        ""@,
        section(":commands"@),
        "   :back / :forward / :reload / :help"@,
        "   :password          save credentials for current site"@,
        "   :adblock           update ad-block list"@,
        "   :ffimport          re-import cookies from current set's FF profile"@,
        "   :browse / :ff      open current URL in Firefox (uses set's profile)"@,
        "   :jslog             show captured console output for this page"@,
        ""@,
        painted(" j/k or \u{2193}/\u{2191} scroll \u{B7} ESC / q / ? close"@, 245),
    ]
}

fn heading(t: &str) -> (r: String)
    ensures
        r@ == section(t@),
{
    concat(" ", crust::style::fg(crust::style::bold(t).as_str(), 220).as_str())
}

/// The lines of the help text.
pub fn help_lines() -> (r: Vec<String>)
    ensures
        views(r@) == help_text(),
{
    let title = crust::style::fg(crust::style::bold("Scroll \u{2014} Terminal Web Browser").as_str(), 81);
    let r: Vec<String> = vec![
        concat(" ", title.as_str()),
        "".to_string(),
        heading("Scrolling"),
        "   j / k   \u{2193} / \u{2191}      line down / up".to_string(),
        "   Space / PgDn       page down".to_string(),
        "   PgUp               page up".to_string(),
        "   C-d / C-u          half-page down / up".to_string(),
        "   gg / G  Home/End   top / bottom".to_string(),
        "   < / >              horizontal scroll".to_string(),
        "".to_string(),
        heading("Tabs"),
        "   \u{2192}  /  \u{2190}            next / prev tab in current set".to_string(),
        "   S-\u{2192} / S-\u{2190}          move active tab right / left".to_string(),
        "   t                  open in new tab".to_string(),
        "   d                  close tab".to_string(),
        "   u                  undo close".to_string(),
        "".to_string(),
        heading("Sets (per-set cookie jars / identities)"),
        "   C-\u{2192} / C-\u{2190}          next / prev set".to_string(),
        "   gn                 rename current set".to_string(),
        "   gN                 new set".to_string(),
        "   gm                 move active tab to another set".to_string(),
        "   D                  delete current set (with confirmation)".to_string(),
        "".to_string(),
        heading("Navigation"),
        "   o                  open URL".to_string(),
        "   O                  edit current URL".to_string(),
        "   H  /  Backspace    back".to_string(),
        "   L  /  Delete       forward".to_string(),
        "   r                  reload".to_string(),
        "".to_string(),
        heading("Links & forms"),
        "   Tab / S-Tab        focus next / prev link or field".to_string(),
        "   Enter              follow focused link / edit field".to_string(),
        "   Enter then NN      follow link by [N] number (e.g. 42)".to_string(),
        "   Enter then NNt     open link [N] in a new tab (e.g. 42t)".to_string(),
        "   T                  open focused link in a new tab".to_string(),
        "   f                  fill and submit form".to_string(),
        "   e                  edit page source in $EDITOR".to_string(),
        "   C-g                edit focused form field in $EDITOR".to_string(),
        "   p                  show stored password for site".to_string(),
        "   y / Y              copy page URL / focused link URL".to_string(),
        "".to_string(),
        heading("Search"),
        "   /                  search page".to_string(),
        "   n / N              next / prev match".to_string(),
        "".to_string(),
        heading("Bookmarks & quickmarks"),
        "   b                  bookmark current page".to_string(),
        "   B                  show bookmarks".to_string(),
        "   m{key}             set quickmark".to_string(),
        "   '{key}             go to quickmark".to_string(),
        "".to_string(),
        heading("Other"),
        "   i                  toggle images".to_string(),
        "   I                  AI page summary".to_string(),
        "   P                  preferences".to_string(),
        "   C-l                hard redraw (resets kitty image state)".to_string(),
        "   :                  command mode (see below)".to_string(),
        "   ?                  this help".to_string(),
        "   q                  quit".to_string(),
        "".to_string(),
        heading(":commands"),
        "   :back / :forward / :reload / :help".to_string(),
        "   :password          save credentials for current site".to_string(),
        "   :adblock           update ad-block list".to_string(),
        "   :ffimport          re-import cookies from current set's FF profile".to_string(),
        "   :browse / :ff      open current URL in Firefox (uses set's profile)".to_string(),
        "   :jslog             show captured console output for this page".to_string(),
        "".to_string(),
        crust::style::fg(" j/k or \u{2193}/\u{2191} scroll \u{B7} ESC / q / ? close", 245),
    ];
    assert(views(r@) =~= help_text());
    r
}

} // verus!
