//! Hosts from which nothing is loaded.

use vstd::prelude::*;
use vstd::hash_set::StringHashSet;
use crate::address::{parse_url, url_parsed};
use crate::config::opt_str;
use crate::fetcher::host_opt;
use crate::tab::{lemma_views_push, views};
use crate::text::{
    are_lines, chars2, chars_of, is_white, is_word, join, join_strings, law_joined_lines, law_words,
    lemma_trim_word, lines, lines_chars, same, string_of, texts, trim,
    trim_chars, words, words_chars, words_from,
};

verus! {

broadcast use {vstd::string::group_string_axioms, vstd::hash_set::group_hash_set_axioms};

/// The hosts that are blocked.
pub struct Blocklist {
    hosts: StringHashSet,
}

impl View for Blocklist {
    type V = Set<Seq<char>>;

    closed spec fn view(&self) -> Set<Seq<char>> {
        self.hosts@
    }
}

impl Blocklist {
    pub fn new() -> (r: Self)
        ensures
            r@ == Set::<Seq<char>>::empty(),
    {
        Blocklist { hosts: StringHashSet::new() }
    }

    pub fn insert(&mut self, host: String)
        ensures
            final(self)@ == old(self)@.insert(host@),
    {
        self.hosts.insert(host);
    }

    pub fn contains(&self, host: &str) -> (r: bool)
        ensures
            r == self@.contains(host@),
    {
        self.hosts.contains(host)
    }
}

/// The host that a line of a hosts file blocks.
pub open spec fn blocked_host(line: Seq<char>) -> Option<Seq<char>> {
    let t = trim(line);
    let w = words(t);
    if t.len() == 0 || t[0] == '#' {
        None
    } else if w.len() >= 2 && w[0] == "0.0.0.0"@ && w[1] != "0.0.0.0"@ {
        Some(w[1])
    } else {
        None
    }
}

/// The hosts that the first `n` lines block.
pub open spec fn blocked_to(ls: Seq<Seq<char>>, n: int) -> Seq<Seq<char>>
    decreases n,
{
    if n <= 0 {
        Seq::empty()
    } else {
        match blocked_host(ls[n - 1]) {
            Some(h) => blocked_to(ls, n - 1).push(h),
            None => blocked_to(ls, n - 1),
        }
    }
}

fn read_host(line: &[char]) -> (r: Option<String>)
    ensures
        match r {
            Some(h) => blocked_host(line@) == Some(h@),
            None => blocked_host(line@) is None,
        },
{
    let t = trim_chars(line);
    if t.len() == 0 || t[0] == '#' {
        return None;
    }
    let w = words_chars(&t);
    let ghost ws = words(t@);
    assert(ws == chars2(w@));
    if w.len() >= 2 {
        assert(ws[0] == w@[0]@ && ws[1] == w@[1]@);
        let first = string_of(&w[0]);
        let second = string_of(&w[1]);
        if same(first.as_str(), "0.0.0.0") && !same(second.as_str(), "0.0.0.0") {
            return Some(second);
        }
    }
    None
}

/// The hosts that a hosts file blocks.
pub fn parse_hosts(text: &str) -> (r: Vec<String>)
    ensures
        views(r@) == blocked_to(lines(text@), lines(text@).len() as int),
{
    let ls = lines_chars(&chars_of(text));
    let ghost all = lines(text@);
    let mut out: Vec<String> = Vec::new();
    assert(views(out@) =~= Seq::empty());
    for n in 0..ls.len()
        invariant
            all == chars2(ls@),
            views(out@) == blocked_to(all, n as int),
    {
        assert(all[n as int] == ls@[n as int]@);
        if let Some(h) = read_host(&ls[n]) {
            proof {
                lemma_views_push(out@, h);
            }
            out.push(h);
        }
    }
    out
}

/// The hosts as they are kept in a file.
pub fn write_hosts(hosts: &Vec<String>) -> (r: String)
    ensures
        r@ == join(views(hosts@), "\n"@),
{
    assert(texts(hosts@) =~= views(hosts@));
    join_strings(hosts, "\n")
}

/// The hosts in the first `n` lines of the file; empty lines and comments hold none.
pub open spec fn kept_to(ls: Seq<Seq<char>>, n: int) -> Set<Seq<char>>
    decreases n,
{
    if n <= 0 {
        Set::empty()
    } else if ls[n - 1].len() == 0 || ls[n - 1][0] == '#' {
        kept_to(ls, n - 1)
    } else {
        kept_to(ls, n - 1).insert(trim(ls[n - 1]))
    }
}

/// The hosts in the file.
pub fn load_adblock(text: &str) -> (r: Blocklist)
    ensures
        r@ == kept_to(lines(text@), lines(text@).len() as int),
{
    let ls = lines_chars(&chars_of(text));
    let ghost all = lines(text@);
    let mut out = Blocklist::new();
    for n in 0..ls.len()
        invariant
            all == chars2(ls@),
            out@ == kept_to(all, n as int),
    {
        assert(all[n as int] == ls@[n as int]@);
        if ls[n].len() > 0 && ls[n][0] != '#' {
            out.insert(string_of(&trim_chars(&ls[n])));
        }
    }
    out
}

/// A set of the hosts in a list.
pub fn host_set(hosts: &Vec<String>) -> (r: Blocklist)
    ensures
        r@ == views(hosts@).to_set(),
{
    let mut out = Blocklist::new();
    let ghost all = views(hosts@);
    assert(all.take(0).to_set() =~= Set::empty());
    for n in 0..hosts.len()
        invariant
            all == views(hosts@),
            out@ == all.take(n as int).to_set(),
    {
        out.insert(hosts[n].clone());
        let ghost t = all.take(n + 1);
        assert(t =~= all.take(n as int).push(hosts@[n as int]@));
        assert forall|x: Seq<char>| t.to_set().contains(x) implies (#[trigger] all.take(
            n as int,
        ).to_set().insert(hosts@[n as int]@)).contains(x) by {
            let i = choose|i: int| 0 <= i < t.len() && t[i] == x;
            if i < n {
                assert(all.take(n as int)[i] == x);
            }
        }
        assert forall|x: Seq<char>|
            all.take(n as int).to_set().insert(hosts@[n as int]@).contains(
                x,
            ) implies t.to_set().contains(x) by {
            if x == hosts@[n as int]@ {
                assert(t[n as int] == x);
            } else {
                let i = choose|i: int| 0 <= i < n && all.take(n as int)[i] == x;
                assert(t[i] == x);
            }
        }
        assert(t.to_set() =~= all.take(n as int).to_set().insert(hosts@[n as int]@));
    }
    assert(all.take(all.len() as int) =~= all);
    out
}

proof fn lemma_blocked_words(ls: Seq<Seq<char>>, n: int)
    requires
        0 <= n <= ls.len(),
    ensures
        forall|k: int| 0 <= k < blocked_to(ls, n).len() ==> is_word(#[trigger] blocked_to(ls, n)[k]),
    decreases n,
{
    if n > 0 {
        lemma_blocked_words(ls, n - 1);
        let t = trim(ls[n - 1]);
        law_words(t, 0);
        if let Some(h) = blocked_host(ls[n - 1]) {
            assert(h == words_from(t, 0)[1]);
            assert(is_word(h));
        }
        let before = blocked_to(ls, n - 1);
        let after = blocked_to(ls, n);
        assert forall|k: int| 0 <= k < after.len() implies is_word(#[trigger] after[k]) by {
            if k < before.len() {
                assert(after[k] == before[k]);
            }
        }
    }
}

proof fn lemma_kept(v: Seq<Seq<char>>, n: int)
    requires
        0 <= n <= v.len(),
        forall|k: int| 0 <= k < v.len() ==> is_word(#[trigger] v[k]) && v[k][0] != '#',
    ensures
        kept_to(v, n) == v.take(n).to_set(),
    decreases n,
{
    if n == 0 {
        assert(v.take(0).to_set() =~= Set::empty());
    } else {
        lemma_kept(v, n - 1);
        assert(is_word(v[n - 1]));
        lemma_trim_word(v[n - 1]);
        let t = v.take(n);
        let before = v.take(n - 1);
        assert forall|x: Seq<char>| t.to_set().contains(x) == before.to_set().insert(v[n - 1]).contains(x) by {
            if t.to_set().contains(x) {
                let i = choose|i: int| 0 <= i < t.len() && t[i] == x;
                if i < n - 1 {
                    assert(before[i] == x);
                }
            }
            if before.to_set().contains(x) {
                let i = choose|i: int| 0 <= i < before.len() && before[i] == x;
                assert(t[i] == x);
            }
            assert(t[n - 1] == v[n - 1]);
        }
        assert(t.to_set() =~= before.to_set().insert(v[n - 1]));
    }
}

/// The hosts that a list blocks are blocked again after they were written to the file and
/// read from it, where none of them begins like a comment.
pub proof fn law_hosts_kept(list: Seq<char>)
    requires
        ({
            let hosts = blocked_to(lines(list), lines(list).len() as int);
            forall|k: int| 0 <= k < hosts.len() ==> (#[trigger] hosts[k])[0] != '#'
        }),
    ensures
        ({
            let hosts = blocked_to(lines(list), lines(list).len() as int);
            let ls = lines(join(hosts, "\n"@));
            kept_to(ls, ls.len() as int) == hosts.to_set()
        }),
{
    let hosts = blocked_to(lines(list), lines(list).len() as int);
    lemma_blocked_words(lines(list), lines(list).len() as int);
    assert(are_lines(hosts)) by {
        if hosts.len() > 0 {
            assert(is_word(hosts[hosts.len() - 1]));
        }
        assert forall|i: int| 0 <= i < hosts.len() implies !(#[trigger] hosts[i]).contains('\n')
            && (hosts[i].len() > 0 ==> hosts[i].last() != '\r') by {
            assert(is_word(hosts[i]));
            assert(is_white('\n') && is_white('\r'));
            assert(!is_white(hosts[i][hosts[i].len() - 1]));
        }
    }
    law_joined_lines(hosts);
    lemma_kept(hosts, hosts.len() as int);
    assert(hosts.take(hosts.len() as int) =~= hosts);
}

/// Whether a host is blocked; an address without one is not.
pub open spec fn blocks(domains: Set<Seq<char>>, host: Option<Seq<char>>) -> bool {
    host matches Some(h) && domains.contains(h)
}

pub fn is_blocked_host(domains: &Blocklist, host: Option<&str>) -> (r: bool)
    ensures
        r == blocks(domains@, opt_str(host)),
{
    match host {
        Some(h) => domains.contains(h),
        None => false,
    }
}

/// Whether nothing is loaded from `url`.
pub fn is_blocked(domains: &Blocklist, url: &str) -> (r: bool)
    ensures
        r == blocks(domains@, host_opt(url_parsed(url@))),
{
    match parse_url(url) {
        Some(p) => match p.host {
            Some(h) => is_blocked_host(domains, Some(h.as_str())),
            None => false,
        },
        None => false,
    }
}

} // verus!
