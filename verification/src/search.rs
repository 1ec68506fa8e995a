//! Searching the page.

use vstd::prelude::*;
use crate::number::{decimal, ints, number};
use crate::style::plain_text;
use crate::text::{
    chars2, chars_of, concat3, contains, has_text, lines, lines_chars, lowercase_of, string_of,
};

verus! {

broadcast use vstd::string::group_string_axioms;

/// The first `n` lines, without escape sequences and in lower case, that hold `term`.
pub open spec fn matching_to(plain: Seq<Seq<char>>, term: Seq<char>, n: int) -> Seq<int>
    decreases n,
{
    if n <= 0 {
        Seq::empty()
    } else if has_text(plain[n - 1], term) {
        matching_to(plain, term, n - 1).push(n - 1)
    } else {
        matching_to(plain, term, n - 1)
    }
}

pub open spec fn searchable(content: Seq<char>) -> Seq<Seq<char>> {
    lines(content).map_values(|l: Seq<char>| lowercase_of(plain_text(l)))
}

/// A search: the term in lower case, the lines that hold it, and which of them is shown.
pub struct Search {
    pub term: String,
    pub matches: Vec<usize>,
    pub index: usize,
}

pub struct SearchView {
    pub term: Seq<char>,
    pub matches: Seq<int>,
    pub index: int,
}

impl View for Search {
    type V = SearchView;

    open spec fn view(&self) -> SearchView {
        SearchView { term: self.term@, matches: ints(self.matches@), index: self.index as int }
    }
}

/// The match on show is one of the matches.
pub open spec fn is_search(s: SearchView) -> bool {
    s.matches.len() > 0 ==> 0 <= s.index < s.matches.len()
}

/// The first line on screen so that a line is in sight.
pub open spec fn in_sight(line: int) -> int {
    if line < 3 {
        0
    } else {
        line - 3
    }
}

pub fn bring_in_sight(line: usize) -> (r: usize)
    ensures
        r == in_sight(line as int),
{
    line.saturating_sub(3)
}

/// The message for the match on show.
pub open spec fn match_message(s: SearchView) -> Seq<char> {
    if s.matches.len() == 0 {
        " No matches"@
    } else {
        " Match "@ + decimal((s.index + 1) as nat) + "/"@ + decimal(s.matches.len())
    }
}

/// The search one match on, around the end.
pub open spec fn next_match(s: SearchView) -> SearchView {
    if s.matches.len() == 0 {
        s
    } else {
        SearchView {
            index: if s.index + 1 < s.matches.len() {
                s.index + 1
            } else {
                0
            },
            ..s
        }
    }
}

/// The search one match back, around the start.
pub open spec fn prev_match(s: SearchView) -> SearchView {
    if s.matches.len() == 0 {
        s
    } else {
        SearchView {
            index: if s.index == 0 {
                s.matches.len() - 1
            } else {
                s.index - 1
            },
            ..s
        }
    }
}

/// Stepping on and back shows the same match.
pub proof fn law_matches_around(s: SearchView)
    requires
        is_search(s),
    ensures
        is_search(next_match(s)),
        is_search(prev_match(s)),
        prev_match(next_match(s)) == s,
        next_match(prev_match(s)) == s,
{
}

/// The lines found are exactly those that hold the term, in order.
pub proof fn law_matches(plain: Seq<Seq<char>>, term: Seq<char>, n: int)
    requires
        0 <= n <= plain.len(),
    ensures
        forall|k: int|
            0 <= k < matching_to(plain, term, n).len() ==> 0 <= (#[trigger] matching_to(
                plain,
                term,
                n,
            )[k]) < n && has_text(plain[matching_to(plain, term, n)[k]], term),
        forall|i: int|
            0 <= i < n && has_text(#[trigger] plain[i], term) ==> matching_to(
                plain,
                term,
                n,
            ).contains(i),
        forall|j: int, k: int|
            0 <= j < k < matching_to(plain, term, n).len() ==> (#[trigger] matching_to(
                plain,
                term,
                n,
            )[j]) < (#[trigger] matching_to(plain, term, n)[k]),
    decreases n,
{
    if n > 0 {
        law_matches(plain, term, n - 1);
        let before = matching_to(plain, term, n - 1);
        let after = matching_to(plain, term, n);
        assert forall|i: int| 0 <= i < n && has_text(
            #[trigger] plain[i],
            term,
        ) implies after.contains(i) by {
            if i < n - 1 {
                assert(before.contains(i));
                let k = choose|k: int| 0 <= k < before.len() && before[k] == i;
                assert(after[k] == i);
            } else {
                assert(after[before.len() as int] == i);
            }
        }
    }
}

/// The lines of `plain` that hold `term`.
pub fn find_matches(plain: &Vec<String>, term: &str) -> (r: Vec<usize>)
    ensures
        ints(r@) == matching_to(crate::tab::views(plain@), term@, plain@.len() as int),
{
    let ghost all = crate::tab::views(plain@);
    let mut out: Vec<usize> = Vec::new();
    assert(ints(out@) =~= Seq::empty());
    for n in 0..plain.len()
        invariant
            all == crate::tab::views(plain@),
            ints(out@) == matching_to(all, term@, n as int),
    {
        assert(all[n as int] == plain@[n as int]@);
        if contains(plain[n].as_str(), term) {
            let ghost before = ints(out@);
            out.push(n);
            assert(ints(out@) =~= before.push(n as int));
        }
    }
    out
}

impl Search {
    /// A search of nothing.
    pub fn new() -> (r: Self)
        ensures
            r@ == (SearchView { term: Seq::empty(), matches: Seq::empty(), index: 0 }),
            is_search(r@),
    {
        let r = Search { term: String::new(), matches: Vec::new(), index: 0 };
        assert(r@.term =~= Seq::empty());
        assert(r@.matches =~= Seq::empty());
        r
    }

    /// Searches the page for what the user typed, whatever the case.
    pub fn search(content: &str, typed: &str) -> (r: Self)
        ensures
            r@ == (SearchView {
                term: lowercase_of(typed@),
                matches: matching_to(
                    searchable(content@),
                    lowercase_of(typed@),
                    searchable(content@).len() as int,
                ),
                index: 0,
            }),
            is_search(r@),
    {
        let term = typed.to_lowercase();
        let ls = lines_chars(&chars_of(content));
        let ghost all = lines(content@);
        let mut plain: Vec<String> = Vec::new();
        for n in 0..ls.len()
            invariant
                all == chars2(ls@),
                plain@.len() == n,
                forall|j: int|
                    0 <= j < n ==> (#[trigger] plain@[j])@ == lowercase_of(plain_text(all[j])),
        {
            assert(all[n as int] == ls@[n as int]@);
            let line = string_of(&ls[n]);
            plain.push(crust::strip_ansi(line.as_str()).as_str().to_lowercase());
        }
        assert(crate::tab::views(plain@) =~= searchable(content@));
        let matches = find_matches(&plain, term.as_str());
        Search { term, matches, index: 0 }
    }

    /// The first line on screen for the match on show.
    pub fn position(&self) -> (r: Option<usize>)
        requires
            is_search(self@),
        ensures
            match r {
                Some(ix) => self@.matches.len() > 0 && ix == in_sight(self@.matches[self@.index]),
                None => self@.matches.len() == 0,
            },
    {
        if self.matches.len() == 0 {
            None
        } else {
            assert(self@.matches[self@.index] == self.matches@[self.index as int]);
            Some(bring_in_sight(self.matches[self.index]))
        }
    }

    pub fn message(&self) -> (r: String)
        requires
            is_search(self@),
        ensures
            r@ == match_message(self@),
    {
        let n: usize = self.matches.len();
        if n == 0 {
            return " No matches".to_string();
        }
        let mut r = concat3(" Match ", number(self.index + 1).as_str(), "/");
        r.append(number(n).as_str());
        r
    }

    pub fn search_next(&mut self)
        requires
            is_search(old(self)@),
        ensures
            final(self)@ == next_match(old(self)@),
            is_search(final(self)@),
    {
        let n: usize = self.matches.len();
        if n > 0 {
            self.index = if self.index + 1 < n {
                self.index + 1
            } else {
                0
            };
        }
    }

    pub fn search_prev(&mut self)
        requires
            is_search(old(self)@),
        ensures
            final(self)@ == prev_match(old(self)@),
            is_search(final(self)@),
    {
        let n: usize = self.matches.len();
        if n > 0 {
            self.index = if self.index == 0 {
                n - 1
            } else {
                self.index - 1
            };
        }
    }
}

} // verus!
