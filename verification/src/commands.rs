//! What keys and commands ask for.

use vstd::prelude::*;
use crate::number::{parse_number, parsed};
use crate::tab::{views, Link, LinkView};
use crate::text::{
    chars_of, cut, part, same, split_once, string_of, trim, trim_chars, trim_left, trim_left_chars,
    trim_right, trim_right_chars,
};

verus! {

broadcast use vstd::string::group_string_axioms;

// --- Keys ---

/// What a key asks for.
#[derive(Clone, Copy, PartialEq, Eq, Structural)]
pub enum Action {
    LineDown,
    LineUp,
    PageDown,
    PageUp,
    Prefix,
    Bottom,
    Top,
    HalfDown,
    HalfUp,
    ScrollLeft,
    ScrollRight,
    NextTab,
    PrevTab,
    MoveTabRight,
    MoveTabLeft,
    NextSet,
    PrevSet,
    CloseTab,
    DeleteSet,
    UndoClose,
    OpenUrl,
    EditUrl,
    OpenInNewTab,
    TabOpenFocused,
    Back,
    Forward,
    Reload,
    FocusNext,
    FocusPrev,
    Follow,
    FillForm,
    Search,
    SearchNext,
    SearchPrev,
    Bookmark,
    ShowBookmarks,
    SetQuickmark,
    GotoQuickmark,
    CopyUrl,
    CopyFocused,
    EditSource,
    EditField,
    ShowPassword,
    ToggleImages,
    Preferences,
    Help,
    Summary,
    Redraw,
    Command,
    Quit,
    Resize,
    RenameSet,
    NewSet,
    MoveTabToSet,
    Ignore,
}

/// What a key asks for by itself.
pub open spec fn plain_action(key: Seq<char>) -> Action {
    if key == "j"@ || key == "DOWN"@ {
        Action::LineDown
    } else if key == "k"@ || key == "UP"@ {
        Action::LineUp
    } else if key == " "@ || key == "PgDOWN"@ {
        Action::PageDown
    } else if key == "PgUP"@ {
        Action::PageUp
    } else if key == "g"@ {
        Action::Prefix
    } else if key == "G"@ || key == "END"@ {
        Action::Bottom
    } else if key == "HOME"@ {
        Action::Top
    } else if key == "C-D"@ {
        Action::HalfDown
    } else if key == "C-U"@ {
        Action::HalfUp
    } else if key == "<"@ {
        Action::ScrollLeft
    } else if key == ">"@ {
        Action::ScrollRight
    } else if key == "J"@ || key == "RIGHT"@ {
        Action::NextTab
    } else if key == "K"@ || key == "LEFT"@ {
        Action::PrevTab
    } else if key == "S-RIGHT"@ {
        Action::MoveTabRight
    } else if key == "S-LEFT"@ {
        Action::MoveTabLeft
    } else if key == "C-RIGHT"@ {
        Action::NextSet
    } else if key == "C-LEFT"@ {
        Action::PrevSet
    } else if key == "d"@ {
        Action::CloseTab
    } else if key == "D"@ {
        Action::DeleteSet
    } else if key == "u"@ {
        Action::UndoClose
    } else if key == "o"@ {
        Action::OpenUrl
    } else if key == "O"@ {
        Action::EditUrl
    } else if key == "t"@ {
        Action::OpenInNewTab
    } else if key == "T"@ {
        Action::TabOpenFocused
    } else if key == "H"@ || key == "BACK"@ {
        Action::Back
    } else if key == "L"@ || key == "DEL"@ || key == "S-BACK"@ {
        Action::Forward
    } else if key == "r"@ {
        Action::Reload
    } else if key == "TAB"@ {
        Action::FocusNext
    } else if key == "S-TAB"@ {
        Action::FocusPrev
    } else if key == "ENTER"@ {
        Action::Follow
    } else if key == "f"@ {
        Action::FillForm
    } else if key == "/"@ {
        Action::Search
    } else if key == "n"@ {
        Action::SearchNext
    } else if key == "N"@ {
        Action::SearchPrev
    } else if key == "b"@ {
        Action::Bookmark
    } else if key == "B"@ {
        Action::ShowBookmarks
    } else if key == "m"@ {
        Action::SetQuickmark
    } else if key == "'"@ {
        Action::GotoQuickmark
    } else if key == "y"@ {
        Action::CopyUrl
    } else if key == "Y"@ {
        Action::CopyFocused
    } else if key == "e"@ {
        Action::EditSource
    } else if key == "C-G"@ {
        Action::EditField
    } else if key == "p"@ {
        Action::ShowPassword
    } else if key == "i"@ {
        Action::ToggleImages
    } else if key == "P"@ {
        Action::Preferences
    } else if key == "?"@ {
        Action::Help
    } else if key == "I"@ {
        Action::Summary
    } else if key == "C-L"@ {
        Action::Redraw
    } else if key == ":"@ {
        Action::Command
    } else if key == "q"@ {
        Action::Quit
    } else if key == "RESIZE"@ {
        Action::Resize
    } else {
        Action::Ignore
    }
}

/// What a key asks for behind the prefix key.
pub open spec fn prefixed_action(key: Seq<char>) -> Action {
    if key == "g"@ {
        Action::Top
    } else if key == "n"@ {
        Action::RenameSet
    } else if key == "N"@ {
        Action::NewSet
    } else if key == "m"@ {
        Action::MoveTabToSet
    } else {
        plain_action(key)
    }
}

fn plain_key(key: &str) -> (r: Action)
    ensures
        r == plain_action(key@),
{
    if same(key, "j") || same(key, "DOWN") {
        Action::LineDown
    } else if same(key, "k") || same(key, "UP") {
        Action::LineUp
    } else if same(key, " ") || same(key, "PgDOWN") {
        Action::PageDown
    } else if same(key, "PgUP") {
        Action::PageUp
    } else if same(key, "g") {
        Action::Prefix
    } else if same(key, "G") || same(key, "END") {
        Action::Bottom
    } else if same(key, "HOME") {
        Action::Top
    } else if same(key, "C-D") {
        Action::HalfDown
    } else if same(key, "C-U") {
        Action::HalfUp
    } else if same(key, "<") {
        Action::ScrollLeft
    } else if same(key, ">") {
        Action::ScrollRight
    } else if same(key, "J") || same(key, "RIGHT") {
        Action::NextTab
    } else if same(key, "K") || same(key, "LEFT") {
        Action::PrevTab
    } else if same(key, "S-RIGHT") {
        Action::MoveTabRight
    } else if same(key, "S-LEFT") {
        Action::MoveTabLeft
    } else if same(key, "C-RIGHT") {
        Action::NextSet
    } else if same(key, "C-LEFT") {
        Action::PrevSet
    } else if same(key, "d") {
        Action::CloseTab
    } else if same(key, "D") {
        Action::DeleteSet
    } else if same(key, "u") {
        Action::UndoClose
    } else if same(key, "o") {
        Action::OpenUrl
    } else if same(key, "O") {
        Action::EditUrl
    } else if same(key, "t") {
        Action::OpenInNewTab
    } else if same(key, "T") {
        Action::TabOpenFocused
    } else if same(key, "H") || same(key, "BACK") {
        Action::Back
    } else if same(key, "L") || same(key, "DEL") || same(key, "S-BACK") {
        Action::Forward
    } else if same(key, "r") {
        Action::Reload
    } else if same(key, "TAB") {
        Action::FocusNext
    } else if same(key, "S-TAB") {
        Action::FocusPrev
    } else if same(key, "ENTER") {
        Action::Follow
    } else if same(key, "f") {
        Action::FillForm
    } else if same(key, "/") {
        Action::Search
    } else if same(key, "n") {
        Action::SearchNext
    } else if same(key, "N") {
        Action::SearchPrev
    } else if same(key, "b") {
        Action::Bookmark
    } else if same(key, "B") {
        Action::ShowBookmarks
    } else if same(key, "m") {
        Action::SetQuickmark
    } else if same(key, "'") {
        Action::GotoQuickmark
    } else if same(key, "y") {
        Action::CopyUrl
    } else if same(key, "Y") {
        Action::CopyFocused
    } else if same(key, "e") {
        Action::EditSource
    } else if same(key, "C-G") {
        Action::EditField
    } else if same(key, "p") {
        Action::ShowPassword
    } else if same(key, "i") {
        Action::ToggleImages
    } else if same(key, "P") {
        Action::Preferences
    } else if same(key, "?") {
        Action::Help
    } else if same(key, "I") {
        Action::Summary
    } else if same(key, "C-L") {
        Action::Redraw
    } else if same(key, ":") {
        Action::Command
    } else if same(key, "q") {
        Action::Quit
    } else if same(key, "RESIZE") {
        Action::Resize
    } else {
        Action::Ignore
    }
}

/// What a key asks for; `prefixed` says whether the prefix key came before it.
pub fn key_action(key: &str, prefixed: bool) -> (r: Action)
    ensures
        r == (if prefixed {
            prefixed_action(key@)
        } else {
            plain_action(key@)
        }),
{
    if prefixed {
        if same(key, "g") {
            Action::Top
        } else if same(key, "n") {
            Action::RenameSet
        } else if same(key, "N") {
            Action::NewSet
        } else if same(key, "m") {
            Action::MoveTabToSet
        } else {
            plain_key(key)
        }
    } else {
        plain_key(key)
    }
}

// --- Commands ---

/// What a command line asks for.
pub enum Command {
    Nothing,
    Open(String),
    TabOpen(String),
    Back,
    Forward,
    Close,
    Quit,
    Reload,
    Help,
    Bookmark,
    FindBookmark(String),
    Bookmarks,
    Download(String),
    Password,
    Adblock,
    ImportCookies,
    Browse,
    ScriptLog,
    Unknown(String),
}

pub enum CommandView {
    Nothing,
    Open(Seq<char>),
    TabOpen(Seq<char>),
    Back,
    Forward,
    Close,
    Quit,
    Reload,
    Help,
    Bookmark,
    FindBookmark(Seq<char>),
    Bookmarks,
    Download(Seq<char>),
    Password,
    Adblock,
    ImportCookies,
    Browse,
    ScriptLog,
    Unknown(Seq<char>),
}

impl View for Command {
    type V = CommandView;

    open spec fn view(&self) -> CommandView {
        match *self {
            Command::Nothing => CommandView::Nothing,
            Command::Open(s) => CommandView::Open(s@),
            Command::TabOpen(s) => CommandView::TabOpen(s@),
            Command::Back => CommandView::Back,
            Command::Forward => CommandView::Forward,
            Command::Close => CommandView::Close,
            Command::Quit => CommandView::Quit,
            Command::Reload => CommandView::Reload,
            Command::Help => CommandView::Help,
            Command::Bookmark => CommandView::Bookmark,
            Command::FindBookmark(s) => CommandView::FindBookmark(s@),
            Command::Bookmarks => CommandView::Bookmarks,
            Command::Download(s) => CommandView::Download(s@),
            Command::Password => CommandView::Password,
            Command::Adblock => CommandView::Adblock,
            Command::ImportCookies => CommandView::ImportCookies,
            Command::Browse => CommandView::Browse,
            Command::ScriptLog => CommandView::ScriptLog,
            Command::Unknown(s) => CommandView::Unknown(s@),
        }
    }
}

/// What a command with its arguments asks for. Without arguments, the commands that need
/// an address ask for nothing.
pub open spec fn command_of(name: Seq<char>, args: Seq<char>) -> CommandView {
    if name == "open"@ || name == "o"@ {
        if args.len() > 0 {
            CommandView::Open(args)
        } else {
            CommandView::Nothing
        }
    } else if name == "tabopen"@ || name == "to"@ {
        if args.len() > 0 {
            CommandView::TabOpen(args)
        } else {
            CommandView::Nothing
        }
    } else if name == "back"@ {
        CommandView::Back
    } else if name == "forward"@ {
        CommandView::Forward
    } else if name == "close"@ || name == "q"@ {
        CommandView::Close
    } else if name == "quit"@ || name == "qa"@ {
        CommandView::Quit
    } else if name == "reload"@ {
        CommandView::Reload
    } else if name == "help"@ {
        CommandView::Help
    } else if name == "bookmark"@ || name == "bm"@ {
        if args.len() > 0 {
            CommandView::FindBookmark(args)
        } else {
            CommandView::Bookmark
        }
    } else if name == "bookmarks"@ || name == "bms"@ {
        CommandView::Bookmarks
    } else if name == "download"@ || name == "dl"@ {
        if args.len() > 0 {
            CommandView::Download(args)
        } else {
            CommandView::Nothing
        }
    } else if name == "password"@ || name == "pw"@ {
        CommandView::Password
    } else if name == "adblock"@ {
        CommandView::Adblock
    } else if name == "ffimport"@ {
        CommandView::ImportCookies
    } else if name == "browse"@ || name == "ff"@ {
        CommandView::Browse
    } else if name == "jslog"@ {
        CommandView::ScriptLog
    } else {
        CommandView::Unknown(name)
    }
}

/// What a command line asks for: the command is what stands before the first space.
pub open spec fn command_line(line: Seq<char>) -> CommandView {
    if line.len() == 0 {
        CommandView::Nothing
    } else {
        match split_once(line, ' ') {
            Some((name, args)) => command_of(name, trim(args)),
            None => command_of(line, Seq::empty()),
        }
    }
}

fn read_command(name: &str, args: String) -> (r: Command)
    ensures
        r@ == command_of(name@, args@),
{
    if same(name, "open") || same(name, "o") {
        if !args.as_str().is_empty() {
            Command::Open(args)
        } else {
            Command::Nothing
        }
    } else if same(name, "tabopen") || same(name, "to") {
        if !args.as_str().is_empty() {
            Command::TabOpen(args)
        } else {
            Command::Nothing
        }
    } else if same(name, "back") {
        Command::Back
    } else if same(name, "forward") {
        Command::Forward
    } else if same(name, "close") || same(name, "q") {
        Command::Close
    } else if same(name, "quit") || same(name, "qa") {
        Command::Quit
    } else if same(name, "reload") {
        Command::Reload
    } else if same(name, "help") {
        Command::Help
    } else if same(name, "bookmark") || same(name, "bm") {
        if !args.as_str().is_empty() {
            Command::FindBookmark(args)
        } else {
            Command::Bookmark
        }
    } else if same(name, "bookmarks") || same(name, "bms") {
        Command::Bookmarks
    } else if same(name, "download") || same(name, "dl") {
        if !args.as_str().is_empty() {
            Command::Download(args)
        } else {
            Command::Nothing
        }
    } else if same(name, "password") || same(name, "pw") {
        Command::Password
    } else if same(name, "adblock") {
        Command::Adblock
    } else if same(name, "ffimport") {
        Command::ImportCookies
    } else if same(name, "browse") || same(name, "ff") {
        Command::Browse
    } else if same(name, "jslog") {
        Command::ScriptLog
    } else {
        Command::Unknown(name.to_string())
    }
}

pub fn parse_command(line: &str) -> (r: Command)
    ensures
        r@ == command_line(line@),
{
    if line.is_empty() {
        return Command::Nothing;
    }
    match cut(&chars_of(line), ' ') {
        Some((name, args)) => read_command(
            string_of(&name).as_str(),
            string_of(&trim_chars(&args)),
        ),
        None => {
            let none = String::new();
            assert(none@ =~= Seq::empty());
            read_command(line, none)
        },
    }
}

// --- Link numbers ---

/// Which link the user asked for.
pub enum LinkSpec {
    Nothing,
    Invalid(String),
    Number(usize, bool),
}

pub enum LinkSpecView {
    Nothing,
    Invalid(Seq<char>),
    Number(nat, bool),
}

impl View for LinkSpec {
    type V = LinkSpecView;

    open spec fn view(&self) -> LinkSpecView {
        match *self {
            LinkSpec::Nothing => LinkSpecView::Nothing,
            LinkSpec::Invalid(s) => LinkSpecView::Invalid(s@),
            LinkSpec::Number(n, t) => LinkSpecView::Number(n as nat, t),
        }
    }
}

pub open spec fn is_tab_mark(c: char) -> bool {
    c == 't' || c == 'T'
}

/// The number, and whether a `t` behind or before it asks for a new tab.
pub open spec fn number_part(s: Seq<char>) -> (Seq<char>, bool) {
    if s.len() > 0 && is_tab_mark(s.last()) {
        (trim_right(s.drop_last()), true)
    } else if s.len() > 0 && is_tab_mark(s[0]) {
        (trim_left(s.drop_first()), true)
    } else {
        (s, false)
    }
}

pub open spec fn link_spec(input: Seq<char>) -> LinkSpecView {
    let s = trim(input);
    if s.len() == 0 {
        LinkSpecView::Nothing
    } else {
        let (number, tab) = number_part(s);
        match parsed(number, usize::MAX as nat) {
            Some(n) => LinkSpecView::Number(n, tab),
            None => LinkSpecView::Invalid(s),
        }
    }
}

pub fn parse_link_spec(input: &str) -> (r: LinkSpec)
    ensures
        r@ == link_spec(input@),
{
    let s = trim_chars(&chars_of(input));
    let n: usize = s.len();
    if n == 0 {
        return LinkSpec::Nothing;
    }
    let (digits, tab) = if s[n - 1] == 't' || s[n - 1] == 'T' {
        let rest = part(&s, 0, n - 1);
        assert(rest@ =~= s@.drop_last());
        (trim_right_chars(&rest), true)
    } else if s[0] == 't' || s[0] == 'T' {
        let rest = part(&s, 1, n);
        assert(rest@ =~= s@.drop_first());
        (trim_left_chars(&rest), true)
    } else {
        (part(&s, 0, n), false)
    };
    if !tab {
        assert(digits@ =~= s@);
    }
    match parse_number(&digits, usize::MAX) {
        Some(k) => LinkSpec::Number(k, tab),
        None => LinkSpec::Invalid(string_of(&s)),
    }
}

/// The address of the first link at or after the `i`-th that has a number.
pub open spec fn link_address(links: Seq<LinkView>, number: int, i: int) -> Option<Seq<char>>
    decreases links.len() - i,
{
    if i < 0 || i >= links.len() {
        None
    } else if links[i].index == number {
        Some(links[i].href)
    } else {
        link_address(links, number, i + 1)
    }
}

/// The address of the link with a number.
pub fn find_link(links: &Vec<Link>, number: usize) -> (r: Option<String>)
    ensures
        crate::address::opt_text(r) == link_address(views(links@), number as int, 0),
{
    let ghost all = views(links@);
    let mut i: usize = 0;
    while i < links.len()
        invariant
            i <= links@.len(),
            all == views(links@),
            link_address(all, number as int, i as int) == link_address(all, number as int, 0),
        decreases links@.len() - i,
    {
        assert(all[i as int] == links@[i as int]@);
        if links[i].index == number {
            return Some(links[i].href.clone());
        }
        i += 1;
    }
    None
}

/// Where links are numbered in order, number `k + 1` leads to the `k`-th link.
pub proof fn law_numbers_lead(links: Seq<LinkView>, k: int)
    requires
        crate::render_laws::numbered(links),
        0 <= k < links.len(),
    ensures
        link_address(links, k + 1, 0) == Some(links[k].href),
{
    lemma_link_address(links, k, 0);
}

proof fn lemma_link_address(links: Seq<LinkView>, k: int, i: int)
    requires
        crate::render_laws::numbered(links),
        0 <= i <= k < links.len(),
    ensures
        link_address(links, k + 1, i) == Some(links[k].href),
    decreases k - i,
{
    assert(links[i].index == i + 1);
    if i < k {
        lemma_link_address(links, k, i + 1);
    }
}

} // verus!
