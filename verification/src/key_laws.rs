//! What each key and each command does.

use vstd::prelude::*;
use crate::commands::{
    command_line, command_of, link_spec, plain_action, prefixed_action, Action, CommandView,
    LinkSpecView,
};
use crate::help::help_text;
use crate::number::{decimal, law_decimal_parses};
use crate::popup::{is_placed, is_prefs_placed, scrolled};
use crate::text::{is_white, lemma_next_char, next_char, trim, trim_left, trim_right, trimmed_end};

verus! {

broadcast use vstd::string::group_string_axioms;

// --- Keys ---

proof fn lemma_keys()
    ensures
        plain_action("j"@) == Action::LineDown,
        plain_action("DOWN"@) == Action::LineDown,
        plain_action("k"@) == Action::LineUp,
        plain_action("UP"@) == Action::LineUp,
        plain_action(" "@) == Action::PageDown,
        plain_action("PgDOWN"@) == Action::PageDown,
        plain_action("PgUP"@) == Action::PageUp,
        plain_action("G"@) == Action::Bottom,
        plain_action("END"@) == Action::Bottom,
        plain_action("HOME"@) == Action::Top,
        plain_action("C-D"@) == Action::HalfDown,
        plain_action("C-U"@) == Action::HalfUp,
        plain_action("<"@) == Action::ScrollLeft,
        plain_action(">"@) == Action::ScrollRight,
        plain_action("J"@) == Action::NextTab,
        plain_action("RIGHT"@) == Action::NextTab,
        plain_action("K"@) == Action::PrevTab,
        plain_action("LEFT"@) == Action::PrevTab,
        plain_action("S-RIGHT"@) == Action::MoveTabRight,
        plain_action("S-LEFT"@) == Action::MoveTabLeft,
        plain_action("C-RIGHT"@) == Action::NextSet,
        plain_action("C-LEFT"@) == Action::PrevSet,
        plain_action("d"@) == Action::CloseTab,
        plain_action("D"@) == Action::DeleteSet,
        plain_action("u"@) == Action::UndoClose,
        plain_action("g"@) == Action::Prefix,
        plain_action("o"@) == Action::OpenUrl,
        plain_action("O"@) == Action::EditUrl,
        plain_action("t"@) == Action::OpenInNewTab,
        plain_action("T"@) == Action::TabOpenFocused,
        plain_action("H"@) == Action::Back,
        plain_action("BACK"@) == Action::Back,
        plain_action("L"@) == Action::Forward,
        plain_action("DEL"@) == Action::Forward,
        plain_action("S-BACK"@) == Action::Forward,
        plain_action("r"@) == Action::Reload,
        plain_action("TAB"@) == Action::FocusNext,
        plain_action("S-TAB"@) == Action::FocusPrev,
        plain_action("ENTER"@) == Action::Follow,
        plain_action("f"@) == Action::FillForm,
        plain_action("/"@) == Action::Search,
        plain_action("n"@) == Action::SearchNext,
        plain_action("N"@) == Action::SearchPrev,
        plain_action("b"@) == Action::Bookmark,
        plain_action("B"@) == Action::ShowBookmarks,
        plain_action("m"@) == Action::SetQuickmark,
        plain_action("'"@) == Action::GotoQuickmark,
        plain_action("y"@) == Action::CopyUrl,
        plain_action("Y"@) == Action::CopyFocused,
        plain_action("e"@) == Action::EditSource,
        plain_action("C-G"@) == Action::EditField,
        plain_action("p"@) == Action::ShowPassword,
        plain_action("i"@) == Action::ToggleImages,
        plain_action("P"@) == Action::Preferences,
        plain_action("?"@) == Action::Help,
        plain_action("I"@) == Action::Summary,
        plain_action("C-L"@) == Action::Redraw,
        plain_action(":"@) == Action::Command,
        plain_action("q"@) == Action::Quit,
        plain_action("RESIZE"@) == Action::Resize,
{
    reveal_strlit("j");
    reveal_strlit("DOWN");
    reveal_strlit("k");
    reveal_strlit("UP");
    reveal_strlit(" ");
    reveal_strlit("PgDOWN");
    reveal_strlit("PgUP");
    reveal_strlit("G");
    reveal_strlit("END");
    reveal_strlit("HOME");
    reveal_strlit("C-D");
    reveal_strlit("C-U");
    reveal_strlit("<");
    reveal_strlit(">");
    reveal_strlit("J");
    reveal_strlit("RIGHT");
    reveal_strlit("K");
    reveal_strlit("LEFT");
    reveal_strlit("S-RIGHT");
    reveal_strlit("S-LEFT");
    reveal_strlit("C-RIGHT");
    reveal_strlit("C-LEFT");
    reveal_strlit("d");
    reveal_strlit("D");
    reveal_strlit("u");
    reveal_strlit("g");
    reveal_strlit("o");
    reveal_strlit("O");
    reveal_strlit("t");
    reveal_strlit("T");
    reveal_strlit("H");
    reveal_strlit("BACK");
    reveal_strlit("L");
    reveal_strlit("DEL");
    reveal_strlit("S-BACK");
    reveal_strlit("r");
    reveal_strlit("TAB");
    reveal_strlit("S-TAB");
    reveal_strlit("ENTER");
    reveal_strlit("f");
    reveal_strlit("/");
    reveal_strlit("n");
    reveal_strlit("N");
    reveal_strlit("b");
    reveal_strlit("B");
    reveal_strlit("m");
    reveal_strlit("'");
    reveal_strlit("y");
    reveal_strlit("Y");
    reveal_strlit("e");
    reveal_strlit("C-G");
    reveal_strlit("p");
    reveal_strlit("i");
    reveal_strlit("P");
    reveal_strlit("?");
    reveal_strlit("I");
    reveal_strlit("C-L");
    reveal_strlit(":");
    reveal_strlit("q");
    reveal_strlit("RESIZE");
    assert("j"@.len() == 1);
    assert("j"@[0] == 'j');
    assert("DOWN"@.len() == 4);
    assert("DOWN"@[0] == 'D');
    assert("k"@.len() == 1);
    assert("k"@[0] == 'k');
    assert("UP"@.len() == 2);
    assert(" "@.len() == 1);
    assert(" "@[0] == ' ');
    assert("PgDOWN"@.len() == 6);
    assert("PgDOWN"@[0] == 'P');
    assert("PgUP"@.len() == 4);
    assert("PgUP"@[0] == 'P');
    assert("G"@.len() == 1);
    assert("G"@[0] == 'G');
    assert("END"@.len() == 3);
    assert("END"@[0] == 'E');
    assert("HOME"@.len() == 4);
    assert("HOME"@[0] == 'H');
    assert("C-D"@.len() == 3);
    assert("C-D"@[0] == 'C');
    assert("C-D"@[2] == 'D');
    assert("C-U"@.len() == 3);
    assert("C-U"@[0] == 'C');
    assert("C-U"@[2] == 'U');
    assert("<"@.len() == 1);
    assert("<"@[0] == '<');
    assert(">"@.len() == 1);
    assert(">"@[0] == '>');
    assert("J"@.len() == 1);
    assert("J"@[0] == 'J');
    assert("RIGHT"@.len() == 5);
    assert("RIGHT"@[0] == 'R');
    assert("K"@.len() == 1);
    assert("K"@[0] == 'K');
    assert("LEFT"@.len() == 4);
    assert("LEFT"@[0] == 'L');
    assert("S-RIGHT"@.len() == 7);
    assert("S-RIGHT"@[0] == 'S');
    assert("S-LEFT"@.len() == 6);
    assert("S-LEFT"@[0] == 'S');
    assert("S-LEFT"@[2] == 'L');
    assert("C-RIGHT"@.len() == 7);
    assert("C-RIGHT"@[0] == 'C');
    assert("C-LEFT"@.len() == 6);
    assert("C-LEFT"@[0] == 'C');
    assert("d"@.len() == 1);
    assert("d"@[0] == 'd');
    assert("D"@.len() == 1);
    assert("D"@[0] == 'D');
    assert("u"@.len() == 1);
    assert("u"@[0] == 'u');
    assert("g"@.len() == 1);
    assert("g"@[0] == 'g');
    assert("o"@.len() == 1);
    assert("o"@[0] == 'o');
    assert("O"@.len() == 1);
    assert("O"@[0] == 'O');
    assert("t"@.len() == 1);
    assert("t"@[0] == 't');
    assert("T"@.len() == 1);
    assert("T"@[0] == 'T');
    assert("H"@.len() == 1);
    assert("H"@[0] == 'H');
    assert("BACK"@.len() == 4);
    assert("BACK"@[0] == 'B');
    assert("L"@.len() == 1);
    assert("L"@[0] == 'L');
    assert("DEL"@.len() == 3);
    assert("DEL"@[0] == 'D');
    assert("S-BACK"@.len() == 6);
    assert("S-BACK"@[0] == 'S');
    assert("S-BACK"@[2] == 'B');
    assert("r"@.len() == 1);
    assert("r"@[0] == 'r');
    assert("TAB"@.len() == 3);
    assert("TAB"@[0] == 'T');
    assert("S-TAB"@.len() == 5);
    assert("S-TAB"@[0] == 'S');
    assert("ENTER"@.len() == 5);
    assert("ENTER"@[0] == 'E');
    assert("f"@.len() == 1);
    assert("f"@[0] == 'f');
    assert("/"@.len() == 1);
    assert("/"@[0] == '/');
    assert("n"@.len() == 1);
    assert("n"@[0] == 'n');
    assert("N"@.len() == 1);
    assert("N"@[0] == 'N');
    assert("b"@.len() == 1);
    assert("b"@[0] == 'b');
    assert("B"@.len() == 1);
    assert("B"@[0] == 'B');
    assert("m"@.len() == 1);
    assert("m"@[0] == 'm');
    assert("'"@.len() == 1);
    assert("'"@[0] == '\'');
    assert("y"@.len() == 1);
    assert("y"@[0] == 'y');
    assert("Y"@.len() == 1);
    assert("Y"@[0] == 'Y');
    assert("e"@.len() == 1);
    assert("e"@[0] == 'e');
    assert("C-G"@.len() == 3);
    assert("C-G"@[0] == 'C');
    assert("C-G"@[2] == 'G');
    assert("p"@.len() == 1);
    assert("p"@[0] == 'p');
    assert("i"@.len() == 1);
    assert("i"@[0] == 'i');
    assert("P"@.len() == 1);
    assert("P"@[0] == 'P');
    assert("?"@.len() == 1);
    assert("?"@[0] == '?');
    assert("I"@.len() == 1);
    assert("I"@[0] == 'I');
    assert("C-L"@.len() == 3);
    assert("C-L"@[0] == 'C');
    assert("C-L"@[2] == 'L');
    assert(":"@.len() == 1);
    assert(":"@[0] == ':');
    assert("q"@.len() == 1);
    assert("q"@[0] == 'q');
    assert("RESIZE"@.len() == 6);
    assert("RESIZE"@[0] == 'R');
}

/// The keys that move on the page: by lines, by pages and by half pages, to its ends, and
/// sideways.
pub proof fn law_keys_moving()
    ensures
        plain_action("j"@) == Action::LineDown,
        plain_action("DOWN"@) == Action::LineDown,
        plain_action("k"@) == Action::LineUp,
        plain_action("UP"@) == Action::LineUp,
        plain_action(" "@) == Action::PageDown,
        plain_action("PgDOWN"@) == Action::PageDown,
        plain_action("PgUP"@) == Action::PageUp,
        plain_action("G"@) == Action::Bottom,
        plain_action("END"@) == Action::Bottom,
        plain_action("HOME"@) == Action::Top,
        plain_action("C-D"@) == Action::HalfDown,
        plain_action("C-U"@) == Action::HalfUp,
        plain_action("<"@) == Action::ScrollLeft,
        plain_action(">"@) == Action::ScrollRight,
{
    lemma_keys();
}

/// The keys for tabs and sets: to the next and the one before, to move a tab, to close it and
/// to have it back.
pub proof fn law_keys_tabs()
    ensures
        plain_action("J"@) == Action::NextTab,
        plain_action("RIGHT"@) == Action::NextTab,
        plain_action("K"@) == Action::PrevTab,
        plain_action("LEFT"@) == Action::PrevTab,
        plain_action("S-RIGHT"@) == Action::MoveTabRight,
        plain_action("S-LEFT"@) == Action::MoveTabLeft,
        plain_action("C-RIGHT"@) == Action::NextSet,
        plain_action("C-LEFT"@) == Action::PrevSet,
        plain_action("d"@) == Action::CloseTab,
        plain_action("D"@) == Action::DeleteSet,
        plain_action("u"@) == Action::UndoClose,
        plain_action("g"@) == Action::Prefix,
{
    lemma_keys();
}

/// The keys for pages, links, forms and searches.
pub proof fn law_keys_pages()
    ensures
        plain_action("o"@) == Action::OpenUrl,
        plain_action("O"@) == Action::EditUrl,
        plain_action("t"@) == Action::OpenInNewTab,
        plain_action("T"@) == Action::TabOpenFocused,
        plain_action("H"@) == Action::Back,
        plain_action("BACK"@) == Action::Back,
        plain_action("L"@) == Action::Forward,
        plain_action("DEL"@) == Action::Forward,
        plain_action("S-BACK"@) == Action::Forward,
        plain_action("r"@) == Action::Reload,
        plain_action("TAB"@) == Action::FocusNext,
        plain_action("S-TAB"@) == Action::FocusPrev,
        plain_action("ENTER"@) == Action::Follow,
        plain_action("f"@) == Action::FillForm,
        plain_action("/"@) == Action::Search,
        plain_action("n"@) == Action::SearchNext,
        plain_action("N"@) == Action::SearchPrev,
{
    lemma_keys();
}

/// The keys for marks, for copies, and for all else.
pub proof fn law_keys_marks()
    ensures
        plain_action("b"@) == Action::Bookmark,
        plain_action("B"@) == Action::ShowBookmarks,
        plain_action("m"@) == Action::SetQuickmark,
        plain_action("'"@) == Action::GotoQuickmark,
        plain_action("y"@) == Action::CopyUrl,
        plain_action("Y"@) == Action::CopyFocused,
        plain_action("e"@) == Action::EditSource,
        plain_action("C-G"@) == Action::EditField,
        plain_action("p"@) == Action::ShowPassword,
        plain_action("i"@) == Action::ToggleImages,
        plain_action("P"@) == Action::Preferences,
        plain_action("?"@) == Action::Help,
        plain_action("I"@) == Action::Summary,
        plain_action("C-L"@) == Action::Redraw,
        plain_action(":"@) == Action::Command,
        plain_action("q"@) == Action::Quit,
        plain_action("RESIZE"@) == Action::Resize,
{
    lemma_keys();
}

/// Any other key does nothing.
pub proof fn law_other_keys(key: Seq<char>)
    requires
        key != "j"@,
        key != "DOWN"@,
        key != "k"@,
        key != "UP"@,
        key != " "@,
        key != "PgDOWN"@,
        key != "PgUP"@,
        key != "G"@,
        key != "END"@,
        key != "HOME"@,
        key != "C-D"@,
        key != "C-U"@,
        key != "<"@,
        key != ">"@,
        key != "J"@,
        key != "RIGHT"@,
        key != "K"@,
        key != "LEFT"@,
        key != "S-RIGHT"@,
        key != "S-LEFT"@,
        key != "C-RIGHT"@,
        key != "C-LEFT"@,
        key != "d"@,
        key != "D"@,
        key != "u"@,
        key != "g"@,
        key != "o"@,
        key != "O"@,
        key != "t"@,
        key != "T"@,
        key != "H"@,
        key != "BACK"@,
        key != "L"@,
        key != "DEL"@,
        key != "S-BACK"@,
        key != "r"@,
        key != "TAB"@,
        key != "S-TAB"@,
        key != "ENTER"@,
        key != "f"@,
        key != "/"@,
        key != "n"@,
        key != "N"@,
        key != "b"@,
        key != "B"@,
        key != "m"@,
        key != "'"@,
        key != "y"@,
        key != "Y"@,
        key != "e"@,
        key != "C-G"@,
        key != "p"@,
        key != "i"@,
        key != "P"@,
        key != "?"@,
        key != "I"@,
        key != "C-L"@,
        key != ":"@,
        key != "q"@,
        key != "RESIZE"@,
    ensures
        plain_action(key) is Ignore,
{
}

/// Behind the prefix, `g` goes to the top, `n` renames the set, `N` makes a new one, `m`
/// moves the tab, and any other key is as without it.
pub proof fn law_prefixed(key: Seq<char>)
    ensures
        prefixed_action("g"@) is Top,
        prefixed_action("n"@) is RenameSet,
        prefixed_action("N"@) is NewSet,
        prefixed_action("m"@) is MoveTabToSet,
        key != "g"@ && key != "n"@ && key != "N"@ && key != "m"@ ==> prefixed_action(key)
            == plain_action(key),
{
    reveal_strlit("g");
    reveal_strlit("n");
    reveal_strlit("N");
    reveal_strlit("m");
    assert("g"@.len() == 1);
    assert("g"@[0] == 'g');
    assert("n"@.len() == 1);
    assert("n"@[0] == 'n');
    assert("N"@.len() == 1);
    assert("N"@[0] == 'N');
    assert("m"@.len() == 1);
    assert("m"@[0] == 'm');
}

// --- Commands ---

/// The commands that take no argument, by their names and their short forms.
pub proof fn law_plain_commands(args: Seq<char>)
    ensures
        command_of("back"@, args) is Back,
        command_of("forward"@, args) is Forward,
        command_of("close"@, args) is Close,
        command_of("q"@, args) is Close,
        command_of("quit"@, args) is Quit,
        command_of("qa"@, args) is Quit,
        command_of("reload"@, args) is Reload,
        command_of("help"@, args) is Help,
        command_of("bookmarks"@, args) is Bookmarks,
        command_of("bms"@, args) is Bookmarks,
        command_of("password"@, args) is Password,
        command_of("pw"@, args) is Password,
        command_of("adblock"@, args) is Adblock,
        command_of("ffimport"@, args) is ImportCookies,
        command_of("browse"@, args) is Browse,
        command_of("ff"@, args) is Browse,
        command_of("jslog"@, args) is ScriptLog,
{
    reveal_strlit("open");
    reveal_strlit("o");
    reveal_strlit("tabopen");
    reveal_strlit("to");
    reveal_strlit("back");
    reveal_strlit("forward");
    reveal_strlit("close");
    reveal_strlit("q");
    reveal_strlit("quit");
    reveal_strlit("qa");
    reveal_strlit("reload");
    reveal_strlit("help");
    reveal_strlit("bookmark");
    reveal_strlit("bm");
    reveal_strlit("bookmarks");
    reveal_strlit("bms");
    reveal_strlit("download");
    reveal_strlit("dl");
    reveal_strlit("password");
    reveal_strlit("pw");
    reveal_strlit("adblock");
    reveal_strlit("ffimport");
    reveal_strlit("browse");
    reveal_strlit("ff");
    reveal_strlit("jslog");
    assert("open"@.len() == 4);
    assert("open"@[0] == 'o');
    assert("o"@.len() == 1);
    assert("o"@[0] == 'o');
    assert("tabopen"@.len() == 7);
    assert("tabopen"@[0] == 't');
    assert("to"@.len() == 2);
    assert("to"@[0] == 't');
    assert("back"@.len() == 4);
    assert("back"@[0] == 'b');
    assert("forward"@.len() == 7);
    assert("forward"@[0] == 'f');
    assert("close"@.len() == 5);
    assert("close"@[0] == 'c');
    assert("q"@.len() == 1);
    assert("q"@[0] == 'q');
    assert("quit"@.len() == 4);
    assert("quit"@[0] == 'q');
    assert("qa"@.len() == 2);
    assert("qa"@[0] == 'q');
    assert("reload"@.len() == 6);
    assert("reload"@[0] == 'r');
    assert("help"@.len() == 4);
    assert("help"@[0] == 'h');
    assert("bookmark"@.len() == 8);
    assert("bookmark"@[0] == 'b');
    assert("bm"@.len() == 2);
    assert("bm"@[0] == 'b');
    assert("bookmarks"@.len() == 9);
    assert("bms"@.len() == 3);
    assert("download"@.len() == 8);
    assert("download"@[0] == 'd');
    assert("dl"@.len() == 2);
    assert("dl"@[0] == 'd');
    assert("password"@.len() == 8);
    assert("password"@[0] == 'p');
    assert("pw"@.len() == 2);
    assert("pw"@[0] == 'p');
    assert("adblock"@.len() == 7);
    assert("adblock"@[0] == 'a');
    assert("ffimport"@.len() == 8);
    assert("ffimport"@[0] == 'f');
    assert("browse"@.len() == 6);
    assert("browse"@[0] == 'b');
    assert("ff"@.len() == 2);
    assert("ff"@[0] == 'f');
    assert("jslog"@.len() == 5);
    assert("jslog"@[0] == 'j');
}

/// The commands that take an argument act on it, all of it; without one they do nothing,
/// and `bookmark` marks the page.
pub proof fn law_argument_commands(args: Seq<char>)
    ensures
        args.len() > 0 ==> command_of("open"@, args) == CommandView::Open(args),
        args.len() == 0 ==> command_of("open"@, args) is Nothing,
        args.len() > 0 ==> command_of("o"@, args) == CommandView::Open(args),
        args.len() == 0 ==> command_of("o"@, args) is Nothing,
        args.len() > 0 ==> command_of("tabopen"@, args) == CommandView::TabOpen(args),
        args.len() == 0 ==> command_of("tabopen"@, args) is Nothing,
        args.len() > 0 ==> command_of("to"@, args) == CommandView::TabOpen(args),
        args.len() == 0 ==> command_of("to"@, args) is Nothing,
        args.len() > 0 ==> command_of("download"@, args) == CommandView::Download(args),
        args.len() == 0 ==> command_of("download"@, args) is Nothing,
        args.len() > 0 ==> command_of("dl"@, args) == CommandView::Download(args),
        args.len() == 0 ==> command_of("dl"@, args) is Nothing,
        args.len() > 0 ==> command_of("bookmark"@, args) == CommandView::FindBookmark(args),
        args.len() == 0 ==> command_of("bookmark"@, args) is Bookmark,
        args.len() > 0 ==> command_of("bm"@, args) == CommandView::FindBookmark(args),
        args.len() == 0 ==> command_of("bm"@, args) is Bookmark,
{
    reveal_strlit("open");
    reveal_strlit("o");
    reveal_strlit("tabopen");
    reveal_strlit("to");
    reveal_strlit("back");
    reveal_strlit("forward");
    reveal_strlit("close");
    reveal_strlit("q");
    reveal_strlit("quit");
    reveal_strlit("qa");
    reveal_strlit("reload");
    reveal_strlit("help");
    reveal_strlit("bookmark");
    reveal_strlit("bm");
    reveal_strlit("bookmarks");
    reveal_strlit("bms");
    reveal_strlit("download");
    reveal_strlit("dl");
    reveal_strlit("password");
    reveal_strlit("pw");
    reveal_strlit("adblock");
    reveal_strlit("ffimport");
    reveal_strlit("browse");
    reveal_strlit("ff");
    reveal_strlit("jslog");
    assert("open"@.len() == 4);
    assert("open"@[0] == 'o');
    assert("o"@.len() == 1);
    assert("o"@[0] == 'o');
    assert("tabopen"@.len() == 7);
    assert("tabopen"@[0] == 't');
    assert("to"@.len() == 2);
    assert("to"@[0] == 't');
    assert("back"@.len() == 4);
    assert("back"@[0] == 'b');
    assert("forward"@.len() == 7);
    assert("forward"@[0] == 'f');
    assert("close"@.len() == 5);
    assert("close"@[0] == 'c');
    assert("q"@.len() == 1);
    assert("q"@[0] == 'q');
    assert("quit"@.len() == 4);
    assert("quit"@[0] == 'q');
    assert("qa"@.len() == 2);
    assert("qa"@[0] == 'q');
    assert("reload"@.len() == 6);
    assert("reload"@[0] == 'r');
    assert("help"@.len() == 4);
    assert("help"@[0] == 'h');
    assert("bookmark"@.len() == 8);
    assert("bookmark"@[0] == 'b');
    assert("bm"@.len() == 2);
    assert("bm"@[0] == 'b');
    assert("bookmarks"@.len() == 9);
    assert("bms"@.len() == 3);
    assert("download"@.len() == 8);
    assert("download"@[0] == 'd');
    assert("dl"@.len() == 2);
    assert("dl"@[0] == 'd');
    assert("password"@.len() == 8);
    assert("password"@[0] == 'p');
    assert("pw"@.len() == 2);
    assert("pw"@[0] == 'p');
    assert("adblock"@.len() == 7);
    assert("adblock"@[0] == 'a');
    assert("ffimport"@.len() == 8);
    assert("ffimport"@[0] == 'f');
    assert("browse"@.len() == 6);
    assert("browse"@[0] == 'b');
    assert("ff"@.len() == 2);
    assert("ff"@[0] == 'f');
    assert("jslog"@.len() == 5);
    assert("jslog"@[0] == 'j');
}

/// Any other command is unknown, and named so.
pub proof fn law_unknown_command(name: Seq<char>, args: Seq<char>)
    requires
        name != "open"@,
        name != "o"@,
        name != "tabopen"@,
        name != "to"@,
        name != "back"@,
        name != "forward"@,
        name != "close"@,
        name != "q"@,
        name != "quit"@,
        name != "qa"@,
        name != "reload"@,
        name != "help"@,
        name != "bookmark"@,
        name != "bm"@,
        name != "bookmarks"@,
        name != "bms"@,
        name != "download"@,
        name != "dl"@,
        name != "password"@,
        name != "pw"@,
        name != "adblock"@,
        name != "ffimport"@,
        name != "browse"@,
        name != "ff"@,
        name != "jslog"@,
    ensures
        command_of(name, args) == CommandView::Unknown(name),
{
}

/// A command line is the command, a space, and its argument without white space around it.
pub proof fn law_command_line(name: Seq<char>, args: Seq<char>)
    requires
        name.len() > 0,
        !name.contains(' '),
    ensures
        command_line(name) == command_of(name, Seq::empty()),
        command_line(name + seq![' '] + args) == command_of(name, trim(args)),
        command_line(Seq::empty()) is Nothing,
{
    let line = name + seq![' '] + args;
    lemma_next_char(line, ' ', 0);
    lemma_next_char(name, ' ', 0);
    let e = next_char(line, ' ', 0);
    let f = next_char(name, ' ', 0);
    assert(f == name.len()) by {
        if f < name.len() {
            assert(name[f] == ' ');
        }
    }
    assert(line[name.len() as int] == ' ');
    assert(e == name.len()) by {
        if e < name.len() {
            assert(name[e] == ' ');
        }
    }
    assert(line.take(e) =~= name);
    assert(line.skip(e + 1) =~= args);
}

// --- Numbers of links ---

/// A number opens its link here; with a `t` behind or before it, in a new tab.
pub proof fn law_link_number(n: nat)
    requires
        n <= usize::MAX,
    ensures
        link_spec(decimal(n)) == LinkSpecView::Number(n, false),
        link_spec(decimal(n) + seq!['t']) == LinkSpecView::Number(n, true),
        link_spec(seq!['t'] + decimal(n)) == LinkSpecView::Number(n, true),
        link_spec(decimal(n) + seq!['T']) == LinkSpecView::Number(n, true),
        link_spec(seq!['T'] + decimal(n)) == LinkSpecView::Number(n, true),
        link_spec(Seq::empty()) is Nothing,
{
    let d = decimal(n);
    crate::number::lemma_decimal(n);
    law_decimal_parses(n, usize::MAX as nat);
    crate::fetch_laws::lemma_trim_tight(d);
    let a = d + seq!['t'];
    let b = seq!['t'] + d;
    let e = d + seq!['T'];
    let f = seq!['T'] + d;
    crate::fetch_laws::lemma_trim_tight(a);
    crate::fetch_laws::lemma_trim_tight(b);
    crate::fetch_laws::lemma_trim_tight(e);
    crate::fetch_laws::lemma_trim_tight(f);
    assert(a.drop_last() =~= d);
    assert(b.drop_first() =~= d);
    assert(e.drop_last() =~= d);
    assert(f.drop_first() =~= d);
    assert(trim_right(d) == d) by {
        assert(trimmed_end(d, d.len() as int) == d.len());
        assert(d.take(d.len() as int) =~= d);
    }
    assert(trim_left(d) == d) by {
        crate::text::lemma_first_where(d, |x: char| !is_white(x), 0);
        assert(d.skip(0) =~= d);
    }
    assert(trim(Seq::empty()) =~= Seq::<char>::empty()) by {
        crate::text::lemma_first_where(Seq::empty(), |x: char| !is_white(x), 0);
    }
}

// --- Help ---

/// The help lists each key with what it does, and the key does it.
pub proof fn law_help_keys()
    ensures
        help_text().contains("   j / k   \u{2193} / \u{2191}      line down / up"@)
            && plain_action("j"@) is LineDown
            && plain_action("k"@) is LineUp
            && plain_action("DOWN"@) is LineDown
            && plain_action("UP"@) is LineUp,
        help_text().contains("   Space / PgDn       page down"@)
            && plain_action(" "@) is PageDown
            && plain_action("PgDOWN"@) is PageDown,
        help_text().contains("   PgUp               page up"@) && plain_action("PgUP"@) is PageUp,
        help_text().contains("   C-d / C-u          half-page down / up"@)
            && plain_action("C-D"@) is HalfDown
            && plain_action("C-U"@) is HalfUp,
        help_text().contains("   gg / G  Home/End   top / bottom"@)
            && plain_action("G"@) is Bottom
            && plain_action("HOME"@) is Top
            && plain_action("END"@) is Bottom
            && prefixed_action("g"@) is Top,
        help_text().contains("   < / >              horizontal scroll"@)
            && plain_action("<"@) is ScrollLeft
            && plain_action(">"@) is ScrollRight,
        help_text().contains("   \u{2192}  /  \u{2190}            next / prev tab in current set"@)
            && plain_action("RIGHT"@) is NextTab
            && plain_action("LEFT"@) is PrevTab,
        help_text().contains("   S-\u{2192} / S-\u{2190}          move active tab right / left"@)
            && plain_action("S-RIGHT"@) is MoveTabRight
            && plain_action("S-LEFT"@) is MoveTabLeft,
        help_text().contains("   t                  open in new tab"@)
            && plain_action("t"@) is OpenInNewTab,
        help_text().contains("   d                  close tab"@) && plain_action("d"@) is CloseTab,
        help_text().contains("   u                  undo close"@)
            && plain_action("u"@) is UndoClose,
        help_text().contains("   C-\u{2192} / C-\u{2190}          next / prev set"@)
            && plain_action("C-RIGHT"@) is NextSet
            && plain_action("C-LEFT"@) is PrevSet,
        help_text().contains("   gn                 rename current set"@)
            && prefixed_action("n"@) is RenameSet,
        help_text().contains("   gN                 new set"@) && prefixed_action("N"@) is NewSet,
        help_text().contains("   gm                 move active tab to another set"@)
            && prefixed_action("m"@) is MoveTabToSet,
        help_text().contains("   D                  delete current set (with confirmation)"@)
            && plain_action("D"@) is DeleteSet,
        help_text().contains("   o                  open URL"@) && plain_action("o"@) is OpenUrl,
        help_text().contains("   O                  edit current URL"@)
            && plain_action("O"@) is EditUrl,
        help_text().contains("   H  /  Backspace    back"@)
            && plain_action("H"@) is Back
            && plain_action("BACK"@) is Back,
        help_text().contains("   L  /  Delete       forward"@)
            && plain_action("L"@) is Forward
            && plain_action("DEL"@) is Forward,
        help_text().contains("   r                  reload"@) && plain_action("r"@) is Reload,
        help_text().contains("   Tab / S-Tab        focus next / prev link or field"@)
            && plain_action("TAB"@) is FocusNext
            && plain_action("S-TAB"@) is FocusPrev,
        help_text().contains("   Enter              follow focused link / edit field"@)
            && plain_action("ENTER"@) is Follow,
        help_text().contains("   T                  open focused link in a new tab"@)
            && plain_action("T"@) is TabOpenFocused,
        help_text().contains("   f                  fill and submit form"@)
            && plain_action("f"@) is FillForm,
        help_text().contains("   e                  edit page source in $EDITOR"@)
            && plain_action("e"@) is EditSource,
        help_text().contains("   C-g                edit focused form field in $EDITOR"@)
            && plain_action("C-G"@) is EditField,
        help_text().contains("   p                  show stored password for site"@)
            && plain_action("p"@) is ShowPassword,
        help_text().contains("   y / Y              copy page URL / focused link URL"@)
            && plain_action("y"@) is CopyUrl
            && plain_action("Y"@) is CopyFocused,
        help_text().contains("   /                  search page"@) && plain_action("/"@) is Search,
        help_text().contains("   n / N              next / prev match"@)
            && plain_action("n"@) is SearchNext
            && plain_action("N"@) is SearchPrev,
        help_text().contains("   b                  bookmark current page"@)
            && plain_action("b"@) is Bookmark,
        help_text().contains("   B                  show bookmarks"@)
            && plain_action("B"@) is ShowBookmarks,
        help_text().contains("   m{key}             set quickmark"@)
            && plain_action("m"@) is SetQuickmark,
        help_text().contains("   '{key}             go to quickmark"@)
            && plain_action("'"@) is GotoQuickmark,
        help_text().contains("   i                  toggle images"@)
            && plain_action("i"@) is ToggleImages,
        help_text().contains("   I                  AI page summary"@)
            && plain_action("I"@) is Summary,
        help_text().contains("   P                  preferences"@)
            && plain_action("P"@) is Preferences,
        help_text().contains("   C-l                hard redraw (resets kitty image state)"@)
            && plain_action("C-L"@) is Redraw,
        help_text().contains("   :                  command mode (see below)"@)
            && plain_action(":"@) is Command,
        help_text().contains("   ?                  this help"@) && plain_action("?"@) is Help,
        help_text().contains("   q                  quit"@) && plain_action("q"@) is Quit,
{
    lemma_keys();
    law_prefixed(Seq::empty());
    let all = help_text();
    assert(all[3] == "   j / k   \u{2193} / \u{2191}      line down / up"@);
    assert(all[4] == "   Space / PgDn       page down"@);
    assert(all[5] == "   PgUp               page up"@);
    assert(all[6] == "   C-d / C-u          half-page down / up"@);
    assert(all[7] == "   gg / G  Home/End   top / bottom"@);
    assert(all[8] == "   < / >              horizontal scroll"@);
    assert(all[11] == "   \u{2192}  /  \u{2190}            next / prev tab in current set"@);
    assert(all[12] == "   S-\u{2192} / S-\u{2190}          move active tab right / left"@);
    assert(all[13] == "   t                  open in new tab"@);
    assert(all[14] == "   d                  close tab"@);
    assert(all[15] == "   u                  undo close"@);
    assert(all[18] == "   C-\u{2192} / C-\u{2190}          next / prev set"@);
    assert(all[19] == "   gn                 rename current set"@);
    assert(all[20] == "   gN                 new set"@);
    assert(all[21] == "   gm                 move active tab to another set"@);
    assert(all[22] == "   D                  delete current set (with confirmation)"@);
    assert(all[25] == "   o                  open URL"@);
    assert(all[26] == "   O                  edit current URL"@);
    assert(all[27] == "   H  /  Backspace    back"@);
    assert(all[28] == "   L  /  Delete       forward"@);
    assert(all[29] == "   r                  reload"@);
    assert(all[32] == "   Tab / S-Tab        focus next / prev link or field"@);
    assert(all[33] == "   Enter              follow focused link / edit field"@);
    assert(all[36] == "   T                  open focused link in a new tab"@);
    assert(all[37] == "   f                  fill and submit form"@);
    assert(all[38] == "   e                  edit page source in $EDITOR"@);
    assert(all[39] == "   C-g                edit focused form field in $EDITOR"@);
    assert(all[40] == "   p                  show stored password for site"@);
    assert(all[41] == "   y / Y              copy page URL / focused link URL"@);
    assert(all[44] == "   /                  search page"@);
    assert(all[45] == "   n / N              next / prev match"@);
    assert(all[48] == "   b                  bookmark current page"@);
    assert(all[49] == "   B                  show bookmarks"@);
    assert(all[50] == "   m{key}             set quickmark"@);
    assert(all[51] == "   '{key}             go to quickmark"@);
    assert(all[54] == "   i                  toggle images"@);
    assert(all[55] == "   I                  AI page summary"@);
    assert(all[56] == "   P                  preferences"@);
    assert(all[57] == "   C-l                hard redraw (resets kitty image state)"@);
    assert(all[58] == "   :                  command mode (see below)"@);
    assert(all[59] == "   ?                  this help"@);
    assert(all[60] == "   q                  quit"@);
}

/// The help lists commands that there are.
pub proof fn law_help_commands(args: Seq<char>)
    ensures
        help_text().contains("   :back / :forward / :reload / :help"@)
            && command_of("back"@, args) is Back
            && command_of("forward"@, args) is Forward
            && command_of("reload"@, args) is Reload
            && command_of("help"@, args) is Help,
        help_text().contains("   :password          save credentials for current site"@)
            && command_of("password"@, args) is Password,
        help_text().contains("   :adblock           update ad-block list"@)
            && command_of("adblock"@, args) is Adblock,
        help_text().contains("   :ffimport          re-import cookies from current set's FF profile"@)
            && command_of("ffimport"@, args) is ImportCookies,
        help_text().contains("   :browse / :ff      open current URL in Firefox (uses set's profile)"@)
            && command_of("browse"@, args) is Browse
            && command_of("ff"@, args) is Browse,
        help_text().contains("   :jslog             show captured console output for this page"@)
            && command_of("jslog"@, args) is ScriptLog,
{
    law_plain_commands(args);
    let all = help_text();
    assert(all[63] == "   :back / :forward / :reload / :help"@);
    assert(all[64] == "   :password          save credentials for current site"@);
    assert(all[65] == "   :adblock           update ad-block list"@);
    assert(all[66] == "   :ffimport          re-import cookies from current set's FF profile"@);
    assert(all[67] == "   :browse / :ff      open current URL in Firefox (uses set's profile)"@);
    assert(all[68] == "   :jslog             show captured console output for this page"@);
}

// --- Windows ---

/// A window is centred, within two cells of every edge of the screen, and no larger than
/// it asks to be.
pub proof fn law_window_centred(r: (u16, u16, u16, u16), cols: u16, rows: u16, w: u16, h: u16)
    requires
        is_placed(r, cols, rows, w, h),
    ensures
        r.2 <= w && r.3 <= h,
        cols >= 4 ==> r.0 >= 2 && r.0 + r.2 <= cols - 2,
        rows >= 4 ==> r.1 >= 2 && r.1 + r.3 <= rows - 2,
        w + 4 <= cols ==> r.2 == w,
        h + 4 <= rows ==> r.3 == h,
        -1 <= (cols - r.2 - r.0) - r.0 <= 1,
        -1 <= (rows - r.3 - r.1) - r.1 <= 1,
{
}

/// The window of the settings is centred, with a line for each setting and five more where
/// the screen has them.
pub proof fn law_prefs_centred(r: (u16, u16, u16, u16), cols: u16, rows: u16, n: int)
    requires
        0 <= n,
        is_prefs_placed(r, cols, rows, n),
    ensures
        r.2 <= 56,
        r.3 <= n + 5,
        cols >= 60 ==> r.2 == 56,
        rows >= n + 11 ==> r.3 == n + 5,
        -1 <= (cols - r.2 - r.0) - r.0 <= 1,
        -1 <= (rows - r.3 - r.1) - r.1 <= 1,
{
}

/// The keys of a window: a line down and up, a page down and up, to the top and to the
/// bottom, and to close it.
pub proof fn law_window_keys(ix: int, total: int, view: int, question_closes: bool)
    requires
        0 <= ix,
        0 <= view,
    ensures
        scrolled(ix, total, view, "ESC"@, question_closes) is None,
        scrolled(ix, total, view, "q"@, question_closes) is None,
        question_closes ==> scrolled(ix, total, view, "?"@, question_closes) is None,
        ix + view < total ==> scrolled(ix, total, view, "j"@, question_closes) == Some(ix + 1),
        ix + view < total ==> scrolled(ix, total, view, "DOWN"@, question_closes) == Some(ix + 1),
        ix > 0 ==> scrolled(ix, total, view, "k"@, question_closes) == Some(ix - 1),
        ix > 0 ==> scrolled(ix, total, view, "UP"@, question_closes) == Some(ix - 1),
        ix + 2 * view <= total
            && view > 0 ==> scrolled(ix, total, view, "PgDOWN"@, question_closes) == Some(
            ix + view,
        ),
        ix + 2 * view <= total
            && view > 0 ==> scrolled(ix, total, view, " "@, question_closes) == Some(
            ix + view,
        ),
        ix >= view ==> scrolled(ix, total, view, "PgUP"@, question_closes) == Some(ix - view),
        scrolled(ix, total, view, "g"@, question_closes) == Some(0int),
        total >= view ==> scrolled(ix, total, view, "G"@, question_closes) == Some(total - view),
{
    reveal_strlit("ESC");
    reveal_strlit("q");
    reveal_strlit("?");
    reveal_strlit("j");
    reveal_strlit("DOWN");
    reveal_strlit("k");
    reveal_strlit("UP");
    reveal_strlit("PgDOWN");
    reveal_strlit(" ");
    reveal_strlit("PgUP");
    reveal_strlit("g");
    reveal_strlit("G");
    assert("ESC"@.len() == 3);
    assert("q"@.len() == 1);
    assert("q"@[0] == 'q');
    assert("?"@.len() == 1);
    assert("?"@[0] == '?');
    assert("j"@.len() == 1);
    assert("j"@[0] == 'j');
    assert("DOWN"@.len() == 4);
    assert("DOWN"@[0] == 'D');
    assert("k"@.len() == 1);
    assert("k"@[0] == 'k');
    assert("UP"@.len() == 2);
    assert("PgDOWN"@.len() == 6);
    assert(" "@.len() == 1);
    assert(" "@[0] == ' ');
    assert("PgUP"@.len() == 4);
    assert("PgUP"@[0] == 'P');
    assert("g"@.len() == 1);
    assert("g"@[0] == 'g');
    assert("G"@.len() == 1);
    assert("G"@[0] == 'G');
}

} // verus!
