//! Bookmarks, quickmarks and the script log.

use vstd::prelude::*;
use crate::config::Bookmark;
use crate::number::{decimal, number};
use crate::style::{emboldened, painted, underlined};
use crate::tab::{lemma_views_push, views};
use crate::text::{
    concat, concat3, contains, has_text, join, join_strings, lowercase_of, starts, starts_with,
    texts,
};

verus! {

broadcast use vstd::string::group_string_axioms;

// --- Bookmarks ---

/// A number at the right of two places.
pub open spec fn right_of_two(s: Seq<char>) -> Seq<char> {
    if s.len() < 2 {
        " "@ + s
    } else {
        s
    }
}

/// The line of the `i`-th bookmark.
pub open spec fn bookmark_line(b: (Seq<char>, Seq<char>), i: int) -> Seq<char> {
    "  "@ + painted(right_of_two(decimal((i + 1) as nat)), 220) + " "@ + underlined(
        painted(b.1, 81),
    ) + " "@ + painted(b.0, 245)
}

pub open spec fn bookmark_lines(bms: Seq<(Seq<char>, Seq<char>)>) -> Seq<Seq<char>> {
    seq![emboldened("Bookmarks"@), ""@] + Seq::new(
        bms.len(),
        |i: int| bookmark_line(bms[i], i),
    )
}

fn write_bookmark(b: &Bookmark, i: usize) -> (r: String)
    requires
        i < usize::MAX,
    ensures
        r@ == bookmark_line(b@, i as int),
{
    let n: usize = i + 1;
    let digits = number(n);
    let short = n < 10;
    proof {
        reveal_with_fuel(decimal, 3);
    }
    let place = if short {
        concat(" ", digits.as_str())
    } else {
        digits
    };
    let mut r = concat3("  ", crust::style::fg(place.as_str(), 220).as_str(), " ");
    r.append(
        crust::style::underline(crust::style::fg(b.title.as_str(), 81).as_str()).as_str(),
    );
    r.append(" ");
    r.append(crust::style::fg(b.url.as_str(), 245).as_str());
    r
}

/// The page that lists the bookmarks.
pub fn show_bookmarks(bms: &Vec<Bookmark>) -> (r: String)
    ensures
        r@ == join(bookmark_lines(views(bms@)), "\n"@),
{
    let mut out: Vec<String> = Vec::new();
    out.push(crust::style::bold("Bookmarks"));
    out.push("".to_string());
    let ghost all = views(bms@);
    assert(texts(out@) =~= seq![emboldened("Bookmarks"@), ""@] + Seq::new(
        0,
        |i: int| bookmark_line(all[i], i),
    ));
    let n: usize = bms.len();
    for i in 0..n
        invariant
            n == bms@.len(),
            all == views(bms@),
            texts(out@) == seq![emboldened("Bookmarks"@), ""@] + Seq::new(
                i as nat,
                |i: int| bookmark_line(all[i], i),
            ),
    {
        assert(all[i as int] == bms@[i as int]@);
        let line = write_bookmark(&bms[i], i);
        let ghost text = line@;
        let ghost before = texts(out@);
        out.push(line);
        assert(texts(out@) =~= before.push(text));
        assert(texts(out@) =~= seq![emboldened("Bookmarks"@), ""@] + Seq::new(
            i as nat + 1,
            |i: int| bookmark_line(all[i], i),
        ));
    }
    assert(texts(out@) == bookmark_lines(all));
    join_strings(&out, "\n")
}

/// The address of the first bookmark at or after the `i`-th whose title, in lower case,
/// holds `query`.
pub open spec fn bookmark_address(
    lower: Seq<Seq<char>>,
    bms: Seq<(Seq<char>, Seq<char>)>,
    query: Seq<char>,
    i: int,
) -> Option<Seq<char>>
    decreases bms.len() - i,
{
    if i < 0 || i >= bms.len() {
        None
    } else if has_text(lower[i], query) {
        Some(bms[i].0)
    } else {
        bookmark_address(lower, bms, query, i + 1)
    }
}

pub open spec fn lower_titles(bms: Seq<(Seq<char>, Seq<char>)>) -> Seq<Seq<char>> {
    bms.map_values(|b: (Seq<char>, Seq<char>)| lowercase_of(b.1))
}

/// The address of the first bookmark whose title, given in lower case, holds `query`.
pub fn match_bookmark(lower: &Vec<String>, bms: &Vec<Bookmark>, query: &str) -> (r: Option<String>)
    requires
        lower@.len() == bms@.len(),
    ensures
        crate::address::opt_text(r) == bookmark_address(views(lower@), views(bms@), query@, 0),
{
    let ghost ls = views(lower@);
    let ghost all = views(bms@);
    let mut i: usize = 0;
    while i < bms.len()
        invariant
            i <= bms@.len(),
            lower@.len() == bms@.len(),
            ls == views(lower@),
            all == views(bms@),
            bookmark_address(ls, all, query@, i as int) == bookmark_address(ls, all, query@, 0),
        decreases bms@.len() - i,
    {
        assert(all[i as int] == bms@[i as int]@ && ls[i as int] == lower@[i as int]@);
        if contains(lower[i].as_str(), query) {
            return Some(bms[i].url.clone());
        }
        i += 1;
    }
    None
}

/// The address of the first bookmark whose title holds what the user typed, whatever the
/// case.
pub fn find_bookmark(bms: &Vec<Bookmark>, typed: &str) -> (r: Option<String>)
    ensures
        crate::address::opt_text(r) == bookmark_address(
            lower_titles(views(bms@)),
            views(bms@),
            lowercase_of(typed@),
            0,
        ),
{
    let query = typed.to_lowercase();
    let mut lower: Vec<String> = Vec::new();
    for i in 0..bms.len()
        invariant
            lower@.len() == i,
            forall|j: int| 0 <= j < i ==> (#[trigger] lower@[j])@ == lowercase_of(bms@[j].title@),
    {
        lower.push(bms[i].title.as_str().to_lowercase());
    }
    assert(views(lower@) =~= lower_titles(views(bms@)));
    match_bookmark(&lower, bms, query.as_str())
}

// --- Quickmarks ---

/// Whether a key can name a quickmark: it is one byte.
pub fn is_quickmark(key: &str) -> (r: bool)
    ensures
        r == (crate::table::byte_len(key@) == 1),
{
    key.len() == 1
}

// --- The script log ---

/// A line of the log in the colour of its channel.
pub open spec fn log_entry(s: Seq<char>) -> Seq<char> {
    if starts(s, "[error]"@) {
        painted(s, 196)
    } else if starts(s, "[warn]"@) {
        painted(s, 220)
    } else if starts(s, "[info]"@) {
        painted(s, 81)
    } else {
        s
    }
}

/// The lines of the log's window.
pub open spec fn log_window(log: Seq<Seq<char>>) -> Seq<Seq<char>> {
    seq![" "@ + painted(emboldened("JS console"@), 81), ""@] + log.map_values(
        |s: Seq<char>| " "@ + log_entry(s),
    ) + seq![
        ""@,
        painted(" j/k or \u{2193}/\u{2191} scroll \u{B7} ESC / q close"@, 245),
    ]
}

fn color_entry(s: &str) -> (r: String)
    ensures
        r@ == log_entry(s@),
{
    if starts_with(s, "[error]") {
        crust::style::fg(s, 196)
    } else if starts_with(s, "[warn]") {
        crust::style::fg(s, 220)
    } else if starts_with(s, "[info]") {
        crust::style::fg(s, 81)
    } else {
        s.to_string()
    }
}

/// The lines of the log's window.
pub fn show_jslog(log: &Vec<String>) -> (r: Vec<String>)
    ensures
        views(r@) == log_window(views(log@)),
{
    let mut out: Vec<String> = Vec::new();
    let title = crust::style::fg(crust::style::bold("JS console").as_str(), 81);
    out.push(concat(" ", title.as_str()));
    out.push("".to_string());
    let ghost head = seq![" "@ + painted(emboldened("JS console"@), 81), ""@];
    let ghost all = views(log@);
    let ghost mapped = all.map_values(|s: Seq<char>| " "@ + log_entry(s));
    assert(views(out@) =~= head + mapped.take(0));
    for i in 0..log.len()
        invariant
            all == views(log@),
            mapped == all.map_values(|s: Seq<char>| " "@ + log_entry(s)),
            views(out@) == head + mapped.take(i as int),
    {
        assert(all[i as int] == log@[i as int]@);
        let line = concat(" ", color_entry(log[i].as_str()).as_str());
        proof {
            lemma_views_push(out@, line);
        }
        out.push(line);
        assert(views(out@) =~= head + mapped.take(i + 1));
    }
    assert(mapped.take(log@.len() as int) =~= mapped);
    let ghost before = views(out@);
    out.push("".to_string());
    out.push(
        crust::style::fg(" j/k or \u{2193}/\u{2191} scroll \u{B7} ESC / q close", 245),
    );
    assert(views(out@) =~= before + seq![
        ""@,
        painted(" j/k or \u{2193}/\u{2191} scroll \u{B7} ESC / q close"@, 245),
    ]);
    out
}

} // verus!
