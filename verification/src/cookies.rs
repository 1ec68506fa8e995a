//! Cookies: jars, headers, and which hosts share them.

use vstd::prelude::*;
use crate::strmap::{distinct, law_put_lookup, lookup, put, without, Duplicate, StrMap};
use crate::tab::{lemma_views_push, views};
use crate::text::{
    chars_of, concat3, cut, find_char, has_char, join, join_strings, lemma_next_char, next_char, part, part_string,
    split_once, string_of, texts, trim, trim_chars,
};

verus! {

broadcast use vstd::string::group_string_axioms;

/// Cookies by name.
pub type CookieViews = Seq<(Seq<char>, Seq<char>)>;

/// Cookies by host.
pub type JarView = Seq<(Seq<char>, CookieViews)>;

/// Cookies by host and name.
pub type CookieJar = StrMap<StrMap<String>>;

// --- The text of cookies ---

pub open spec fn cookie_texts(m: CookieViews) -> Seq<Seq<char>> {
    m.map_values(|c: (Seq<char>, Seq<char>)| c.0 + "="@ + c.1)
}

/// Cookies as a request carries them.
pub open spec fn cookie_line(m: CookieViews) -> Seq<char> {
    join(cookie_texts(m), "; "@)
}

pub fn write_cookies(m: &StrMap<String>) -> (r: String)
    ensures
        r@ == cookie_line(m@),
{
    let mut out: Vec<String> = Vec::new();
    let n: usize = m.len();
    for i in 0..n
        invariant
            n == m@.len(),
            out@.len() == i,
            forall|j: int| 0 <= j < i ==> (#[trigger] out@[j])@ == m@[j].0 + "="@ + m@[j].1,
    {
        let text = concat3(m.key_at(i), "=", m.value_at(i).as_str());
        out.push(text);
    }
    assert(texts(out@) =~= cookie_texts(m@));
    join_strings(&out, "; ")
}

/// The name and the value that a cookie's text sets: what stands before the first `;`,
/// around its first `=`.
pub open spec fn cookie_pair(raw: Seq<char>) -> Option<(Seq<char>, Seq<char>)> {
    match split_once(trim(raw.take(next_char(raw, ';', 0))), '=') {
        Some((name, value)) => Some((trim(name), trim(value))),
        None => None,
    }
}

pub fn read_cookie(raw: &str) -> (r: Option<(String, String)>)
    ensures
        match r {
            Some((name, value)) => cookie_pair(raw@) == Some((name@, value@)),
            None => cookie_pair(raw@) is None,
        },
{
    let c = chars_of(raw);
    let end = find_char(&c, ';', 0);
    let first = part(&c, 0, end);
    assert(first@ =~= raw@.take(end as int));
    match cut(&trim_chars(&first), '=') {
        Some((name, value)) => Some(
            (string_of(&trim_chars(&name)), string_of(&trim_chars(&value))),
        ),
        None => None,
    }
}

/// `m` with the cookie that `raw` sets, where it sets one.
pub open spec fn cookie_set(m: CookieViews, raw: Seq<char>) -> CookieViews {
    match cookie_pair(raw) {
        Some((name, value)) => put(m, name, value),
        None => m,
    }
}

pub open spec fn cookies_set(m: CookieViews, raws: Seq<Seq<char>>) -> CookieViews
    decreases raws.len(),
{
    if raws.len() == 0 {
        m
    } else {
        cookie_set(cookies_set(m, raws.drop_last()), raws.last())
    }
}

/// A cookie that was set can be read, and the others stay.
pub proof fn law_cookie_set(m: CookieViews, raw: Seq<char>, other: Seq<char>)
    requires
        cookie_pair(raw) is Some,
    ensures
        ({
            let (name, value) = cookie_pair(raw)->0;
            &&& lookup(cookie_set(m, raw), name) == Some(value)
            &&& other != name ==> lookup(cookie_set(m, raw), other) == lookup(m, other)
        }),
{
    let (name, value) = cookie_pair(raw)->0;
    law_put_lookup(m, name, value, other);
}

// --- Maps of cookies joined ---

/// `m` with those of the first `n` of `from` whose names it does not have.
pub open spec fn added_to(m: CookieViews, from: CookieViews, n: int) -> CookieViews
    decreases n,
{
    if n <= 0 {
        m
    } else {
        let before = added_to(m, from, n - 1);
        if lookup(before, from[n - 1].0) is Some {
            before
        } else {
            put(before, from[n - 1].0, from[n - 1].1)
        }
    }
}

pub open spec fn added(m: CookieViews, from: CookieViews) -> CookieViews {
    added_to(m, from, from.len() as int)
}

/// `m` with the first `n` of `from`, which take the place of its own.
pub open spec fn replaced_to(m: CookieViews, from: CookieViews, n: int) -> CookieViews
    decreases n,
{
    if n <= 0 {
        m
    } else {
        put(replaced_to(m, from, n - 1), from[n - 1].0, from[n - 1].1)
    }
}

pub open spec fn replaced(m: CookieViews, from: CookieViews) -> CookieViews {
    replaced_to(m, from, from.len() as int)
}

fn add_missing(m: &mut StrMap<String>, from: &StrMap<String>)
    ensures
        final(m)@ == added(old(m)@, from@),
{
    let n: usize = from.len();
    for i in 0..n
        invariant
            n == from@.len(),
            m@ == added_to(old(m)@, from@, i as int),
    {
        if !m.contains_key(from.key_at(i)) {
            m.insert(from.key_at(i).to_string(), from.value_at(i).clone());
        }
    }
}

fn replace_all(m: &mut StrMap<String>, from: &StrMap<String>)
    ensures
        final(m)@ == replaced(old(m)@, from@),
{
    let n: usize = from.len();
    for i in 0..n
        invariant
            n == from@.len(),
            m@ == replaced_to(old(m)@, from@, i as int),
    {
        m.insert(from.key_at(i).to_string(), from.value_at(i).clone());
    }
}

// --- The cookies of a host ---

/// The cookies under `host`, none where the jar does not know it.
pub open spec fn cookies_of(jar: JarView, host: Seq<char>) -> CookieViews {
    match lookup(jar, host) {
        Some(m) => m,
        None => Seq::empty(),
    }
}

/// A host and the domains above it, down to its last label.
pub open spec fn domains(host: Seq<char>) -> Seq<Seq<char>>
    decreases host.len(),
{
    let dot = next_char(host, '.', 0);
    if 0 <= dot < host.len() {
        seq![host] + domains(host.skip(dot + 1))
    } else {
        seq![host]
    }
}

/// The cookies of the first `n` of `hosts`; of two with one name the earlier counts.
pub open spec fn combined(jar: JarView, hosts: Seq<Seq<char>>, n: int) -> CookieViews
    decreases n,
{
    if n <= 0 {
        Seq::empty()
    } else {
        added(combined(jar, hosts, n - 1), cookies_of(jar, hosts[n - 1]))
    }
}

/// The cookies that a request to `host` carries: its own and those of the domains above
/// it, the nearest first.
pub open spec fn request_cookies(jar: JarView, host: Seq<char>) -> CookieViews {
    combined(jar, domains(host), domains(host).len() as int)
}

pub fn list_domains(host: &str) -> (r: Vec<String>)
    ensures
        views(r@) == domains(host@),
{
    let mut out: Vec<String> = Vec::new();
    let mut rest = chars_of(host);
    assert(views(out@) =~= Seq::empty());
    assert(views(out@) + domains(host@) =~= domains(host@));
    loop
        invariant
            views(out@) + domains(rest@) == domains(host@),
        decreases rest@.len(),
    {
        let dot = find_char(&rest, '.', 0);
        let s = string_of(&rest);
        let ghost before = views(out@);
        proof {
            lemma_views_push(out@, s);
        }
        out.push(s);
        if dot >= rest.len() {
            assert(before.push(rest@) =~= before + seq![rest@]);
            return out;
        }
        let next = part(&rest, dot + 1, rest.len());
        assert(next@ =~= rest@.skip(dot + 1));
        assert(before.push(rest@) + domains(next@) =~= before + (seq![rest@] + domains(next@)));
        rest = next;
    }
}

pub fn collect_cookies(jar: &CookieJar, host: &str) -> (r: StrMap<String>)
    ensures
        r@ == request_cookies(jar@, host@),
{
    let hosts = list_domains(host);
    let ghost all = views(hosts@);
    let mut out: StrMap<String> = StrMap::new();
    for n in 0..hosts.len()
        invariant
            all == views(hosts@),
            out@ == combined(jar@, all, n as int),
    {
        assert(all[n as int] == hosts@[n as int]@);
        match jar.get(hosts[n].as_str()) {
            Some(m) => {
                add_missing(&mut out, m);
            },
            None => {
                assert(added(out@, Seq::empty()) == out@);
            },
        }
    }
    out
}

proof fn lemma_added(m: CookieViews, from: CookieViews, n: int, name: Seq<char>)
    requires
        0 <= n <= from.len(),
        lookup(m, name) is Some,
    ensures
        lookup(added_to(m, from, n), name) == lookup(m, name),
    decreases n,
{
    if n > 0 {
        lemma_added(m, from, n - 1, name);
        law_put_lookup(added_to(m, from, n - 1), from[n - 1].0, from[n - 1].1, name);
    }
}

proof fn lemma_added_new(m: CookieViews, from: CookieViews, n: int, name: Seq<char>)
    requires
        0 <= n <= from.len(),
        lookup(m, name) is None,
    ensures
        lookup(added_to(m, from, n), name) == lookup(from.take(n), name),
    decreases n,
{
    if n == 0 {
        assert(from.take(0) =~= Seq::empty());
    } else {
        lemma_added_new(m, from, n - 1, name);
        let before = added_to(m, from, n - 1);
        law_put_lookup(before, from[n - 1].0, from[n - 1].1, name);
        crate::strmap::lemma_last(from.take(n - 1), from[n - 1].0, from[n - 1].1, name);
        assert(from.take(n) =~= from.take(n - 1).push(from[n - 1]));
    }
}

proof fn lemma_combined(jar: JarView, hosts: Seq<Seq<char>>, n: int, name: Seq<char>)
    requires
        1 <= n <= hosts.len(),
        lookup(cookies_of(jar, hosts[0]), name) is Some,
    ensures
        lookup(combined(jar, hosts, n), name) == lookup(cookies_of(jar, hosts[0]), name),
    decreases n,
{
    let own = cookies_of(jar, hosts[0]);
    if n == 1 {
        let none: CookieViews = Seq::empty();
        assert(combined(jar, hosts, 0) == none);
        assert(lookup(none, name) is None);
        lemma_added_new(none, own, own.len() as int, name);
        assert(own.take(own.len() as int) =~= own);
    } else {
        lemma_combined(jar, hosts, n - 1, name);
        let from = cookies_of(jar, hosts[n - 1]);
        lemma_added(combined(jar, hosts, n - 1), from, from.len() as int, name);
    }
}

pub proof fn lemma_combined_second(jar: JarView, hosts: Seq<Seq<char>>, n: int, name: Seq<char>)
    requires
        2 <= n <= hosts.len(),
        lookup(cookies_of(jar, hosts[0]), name) is None,
        lookup(cookies_of(jar, hosts[1]), name) is Some,
    ensures
        lookup(combined(jar, hosts, n), name) == lookup(cookies_of(jar, hosts[1]), name),
    decreases n,
{
    if n == 2 {
        let none: CookieViews = Seq::empty();
        let first = cookies_of(jar, hosts[0]);
        let second = cookies_of(jar, hosts[1]);
        assert(combined(jar, hosts, 0) == none);
        assert(lookup(none, name) is None);
        lemma_added_new(none, first, first.len() as int, name);
        assert(first.take(first.len() as int) =~= first);
        assert(combined(jar, hosts, 1) == added(none, first));
        lemma_added_new(added(none, first), second, second.len() as int, name);
        assert(second.take(second.len() as int) =~= second);
    } else {
        lemma_combined_second(jar, hosts, n - 1, name);
        let from = cookies_of(jar, hosts[n - 1]);
        lemma_added(combined(jar, hosts, n - 1), from, from.len() as int, name);
    }
}

/// A request carries a host's own cookies as the jar holds them, whatever the domains
/// above it set under the same names.
pub proof fn law_own_cookies_win(jar: JarView, host: Seq<char>, name: Seq<char>)
    requires
        lookup(cookies_of(jar, host), name) is Some,
    ensures
        lookup(request_cookies(jar, host), name) == lookup(cookies_of(jar, host), name),
{
    let d = domains(host);
    assert(d[0] == host);
    lemma_combined(jar, d, d.len() as int, name);
}

proof fn lemma_combined_from(jar: JarView, hosts: Seq<Seq<char>>, n: int, name: Seq<char>)
    requires
        0 <= n <= hosts.len(),
        lookup(combined(jar, hosts, n), name) is Some,
    ensures
        exists|k: int|
            0 <= k < n && lookup(cookies_of(jar, #[trigger] hosts[k]), name) == lookup(
                combined(jar, hosts, n),
                name,
            ),
    decreases n,
{
    if n > 0 {
        let before = combined(jar, hosts, n - 1);
        let from = cookies_of(jar, hosts[n - 1]);
        if lookup(before, name) is Some {
            lemma_combined_from(jar, hosts, n - 1, name);
            lemma_added(before, from, from.len() as int, name);
            let k = choose|k: int|
                0 <= k < n - 1 && lookup(cookies_of(jar, #[trigger] hosts[k]), name) == lookup(
                    before,
                    name,
                );
            assert(lookup(cookies_of(jar, hosts[k]), name) == lookup(
                combined(jar, hosts, n),
                name,
            ));
        } else {
            lemma_added_new(before, from, from.len() as int, name);
            assert(from.take(from.len() as int) =~= from);
            assert(lookup(cookies_of(jar, hosts[n - 1]), name) == lookup(
                combined(jar, hosts, n),
                name,
            ));
        }
    }
}

/// A request carries no cookie but those of its host and of the domains above it.
pub proof fn law_only_own_domains(jar: JarView, host: Seq<char>, name: Seq<char>)
    requires
        lookup(request_cookies(jar, host), name) is Some,
    ensures
        exists|k: int|
            0 <= k < domains(host).len() && lookup(
                cookies_of(jar, #[trigger] domains(host)[k]),
                name,
            ) == lookup(request_cookies(jar, host), name),
{
    lemma_combined_from(jar, domains(host), domains(host).len() as int, name);
}

/// The domains above a host are what follows a dot in it.
pub proof fn law_domains_are_suffixes(host: Seq<char>, k: int)
    requires
        0 <= k < domains(host).len(),
    ensures
        ({
            let d = domains(host)[k];
            let cut = host.len() - d.len();
            &&& 0 <= cut
            &&& d == host.skip(cut)
            &&& k > 0 ==> cut > 0 && host[cut - 1] == '.'
        }),
    decreases host.len(),
{
    let dot = next_char(host, '.', 0);
    lemma_next_char(host, '.', 0);
    if k == 0 {
        assert(host.skip(0) =~= host);
    } else {
        let rest = host.skip(dot + 1);
        law_domains_are_suffixes(rest, k - 1);
        let d = domains(host)[k];
        assert(d == domains(rest)[k - 1]);
        let cut = rest.len() - d.len();
        assert(rest.skip(cut) =~= host.skip(dot + 1 + cut));
        if k > 1 {
            assert(rest[cut - 1] == host[dot + cut]);
        } else {
            assert(d == rest);
        }
    }
}

// --- What a response sets ---

/// The jar with the cookies that a response from `host` set.
pub open spec fn response_stored(jar: JarView, host: Seq<char>, raws: Seq<Seq<char>>) -> JarView {
    put(jar, host, cookies_set(cookies_of(jar, host), raws))
}

/// The cookies under `host`, as a map of its own.
fn host_cookies(jar: &CookieJar, host: &str) -> (r: StrMap<String>)
    ensures
        r@ == cookies_of(jar@, host@),
{
    match jar.get(host) {
        Some(m) => m.duplicate(),
        None => StrMap::new(),
    }
}

pub fn store_response(jar: &mut CookieJar, host: &str, raws: &Vec<String>)
    ensures
        final(jar)@ == response_stored(old(jar)@, host@, views(raws@)),
{
    let mut m = host_cookies(jar, host);
    let ghost start = m@;
    let ghost all = views(raws@);
    assert(all.take(0) =~= Seq::empty());
    for n in 0..raws.len()
        invariant
            all == views(raws@),
            m@ == cookies_set(start, all.take(n as int)),
    {
        let ghost t = all.take(n + 1);
        assert(t.drop_last() =~= all.take(n as int));
        assert(t.last() == raws@[n as int]@);
        if let Some((name, value)) = read_cookie(raws[n].as_str()) {
            m.insert(name, value);
        }
    }
    assert(all.take(all.len() as int) =~= all);
    jar.insert(host.to_string(), m);
}

/// A cookie that a response set last is carried by the next request to its host.
pub proof fn law_stored_is_sent(jar: JarView, host: Seq<char>, raws: Seq<Seq<char>>)
    requires
        raws.len() > 0,
        cookie_pair(raws.last()) is Some,
    ensures
        ({
            let (name, value) = cookie_pair(raws.last())->0;
            lookup(request_cookies(response_stored(jar, host, raws), host), name) == Some(value)
        }),
{
    let (name, value) = cookie_pair(raws.last())->0;
    let before = cookies_set(cookies_of(jar, host), raws.drop_last());
    let after = cookies_set(cookies_of(jar, host), raws);
    law_cookie_set(before, raws.last(), name);
    law_put_lookup(jar, host, after, host);
    law_own_cookies_win(response_stored(jar, host, raws), host, name);
}

// --- Cookies of another browser ---

/// A host without the dot that marks it as shared with the hosts under it.
pub open spec fn bare_host(host: Seq<char>) -> Seq<char> {
    if host.len() > 0 && host[0] == '.' {
        host.skip(1)
    } else {
        host
    }
}

/// The jar with a cookie that it takes over.
pub open spec fn row_imported(jar: JarView, row: (Seq<char>, Seq<char>, Seq<char>)) -> JarView {
    let host = bare_host(row.0);
    put(jar, host, put(cookies_of(jar, host), row.1, row.2))
}

/// The jar with the cookies that it takes over; of two with one host and name it has the
/// first.
pub open spec fn rows_imported(
    jar: JarView,
    rows: Seq<(Seq<char>, Seq<char>, Seq<char>)>,
) -> JarView
    decreases rows.len(),
{
    if rows.len() == 0 {
        jar
    } else {
        row_imported(rows_imported(jar, rows.drop_first()), rows[0])
    }
}

pub open spec fn row_views(rows: Seq<(String, String, String)>) -> Seq<
    (Seq<char>, Seq<char>, Seq<char>),
> {
    rows.map_values(|r: (String, String, String)| (r.0@, r.1@, r.2@))
}

fn strip_dot(host: &str) -> (r: String)
    ensures
        r@ == bare_host(host@),
{
    let c = chars_of(host);
    if c.len() > 0 && c[0] == '.' {
        let r = part_string(&c, 1, c.len());
        assert(r@ =~= host@.skip(1));
        r
    } else {
        host.to_string()
    }
}

/// Takes over cookies, each with host, name and value, the latest first.
pub fn import_rows(jar: &mut CookieJar, rows: &Vec<(String, String, String)>)
    ensures
        final(jar)@ == rows_imported(old(jar)@, row_views(rows@)),
{
    let ghost all = row_views(rows@);
    let mut n: usize = rows.len();
    assert(all.skip(n as int) =~= Seq::empty());
    while n > 0
        invariant
            n <= rows@.len(),
            all == row_views(rows@),
            jar@ == rows_imported(old(jar)@, all.skip(n as int)),
        decreases n,
    {
        n -= 1;
        assert(all.skip(n as int).drop_first() =~= all.skip(n + 1));
        assert(all[n as int] == (rows@[n as int].0@, rows@[n as int].1@, rows@[n as int].2@));
        let host = strip_dot(rows[n].0.as_str());
        let mut own = host_cookies(jar, host.as_str());
        own.insert(rows[n].1.clone(), rows[n].2.clone());
        jar.insert(host, own);
    }
    assert(all.skip(0) =~= all);
}

/// The value of the first row with a host and a name.
pub open spec fn row_value(
    rows: Seq<(Seq<char>, Seq<char>, Seq<char>)>,
    host: Seq<char>,
    name: Seq<char>,
) -> Option<Seq<char>>
    decreases rows.len(),
{
    if rows.len() == 0 {
        None
    } else if bare_host(rows[0].0) == host && rows[0].1 == name {
        Some(rows[0].2)
    } else {
        row_value(rows.drop_first(), host, name)
    }
}

/// Taking cookies over refreshes the jar: each cookie has the value that was used last,
/// and one that is not among them keeps its own.
pub proof fn law_import_refreshes(
    jar: JarView,
    rows: Seq<(Seq<char>, Seq<char>, Seq<char>)>,
    host: Seq<char>,
    name: Seq<char>,
)
    ensures
        lookup(cookies_of(rows_imported(jar, rows), host), name) == (match row_value(
            rows,
            host,
            name,
        ) {
            Some(v) => Some(v),
            None => lookup(cookies_of(jar, host), name),
        }),
    decreases rows.len(),
{
    if rows.len() > 0 {
        let before = rows_imported(jar, rows.drop_first());
        law_import_refreshes(jar, rows.drop_first(), host, name);
        let row = rows[0];
        let h = bare_host(row.0);
        let own = cookies_of(before, h);
        law_put_lookup(before, h, put(own, row.1, row.2), host);
        law_put_lookup(own, row.1, row.2, name);
    }
}

// --- Cookies that move from jar to jar ---

/// The host and the domains above it whose cookies move with it: all but its last label.
pub open spec fn moving_domains(host: Seq<char>) -> Seq<Seq<char>>
    decreases host.len(),
{
    let dot = next_char(host, '.', 0);
    if 0 <= dot < host.len() && host.skip(dot + 1).contains('.') {
        seq![host] + moving_domains(host.skip(dot + 1))
    } else {
        seq![host]
    }
}

pub fn list_moving(host: &str) -> (r: Vec<String>)
    ensures
        views(r@) == moving_domains(host@),
{
    let mut out: Vec<String> = Vec::new();
    let mut rest = chars_of(host);
    assert(views(out@) =~= Seq::empty());
    assert(views(out@) + moving_domains(host@) =~= moving_domains(host@));
    loop
        invariant
            views(out@) + moving_domains(rest@) == moving_domains(host@),
        decreases rest@.len(),
    {
        let dot = find_char(&rest, '.', 0);
        let s = string_of(&rest);
        let ghost before = views(out@);
        proof {
            lemma_views_push(out@, s);
        }
        out.push(s);
        if dot >= rest.len() {
            assert(before.push(rest@) =~= before + seq![rest@]);
            return out;
        }
        let next = part(&rest, dot + 1, rest.len());
        assert(next@ =~= rest@.skip(dot + 1));
        let tail = string_of(&next);
        if !has_char(tail.as_str(), '.') {
            assert(before.push(rest@) =~= before + seq![rest@]);
            return out;
        }
        assert(before.push(rest@) + moving_domains(next@) =~= before + (seq![rest@]
            + moving_domains(next@)));
        rest = next;
    }
}

/// Two jars after the cookies of the first `n` of `hosts` have moved from the first to the
/// second, where they take the place of those with the same names.
pub open spec fn moved_to(
    from: JarView,
    to: JarView,
    hosts: Seq<Seq<char>>,
    n: int,
) -> (JarView, JarView)
    decreases n,
{
    if n <= 0 {
        (from, to)
    } else {
        let (f, t) = moved_to(from, to, hosts, n - 1);
        let h = hosts[n - 1];
        match lookup(f, h) {
            Some(m) => (without(f, h), put(t, h, replaced(cookies_of(t, h), m))),
            None => (f, t),
        }
    }
}

pub open spec fn moved(from: JarView, to: JarView, host: Seq<char>) -> (JarView, JarView) {
    moved_to(from, to, moving_domains(host), moving_domains(host).len() as int)
}

/// Moves the cookies of `host` and of the domains above it; says whether there were any.
pub fn move_cookies(from: &mut CookieJar, to: &mut CookieJar, host: &str) -> (r: bool)
    ensures
        (final(from)@, final(to)@) == moved(old(from)@, old(to)@, host@),
        r == exists|k: int|
            0 <= k < moving_domains(host@).len() && lookup(
                old(from)@,
                #[trigger] moving_domains(host@)[k],
            ) is Some,
{
    let hosts = list_moving(host);
    let ghost all = views(hosts@);
    let mut any = false;
    for n in 0..hosts.len()
        invariant
            all == views(hosts@),
            (from@, to@) == moved_to(old(from)@, old(to)@, all, n as int),
            any == exists|k: int| 0 <= k < n && lookup(old(from)@, #[trigger] all[k]) is Some,
    {
        let h = hosts[n].as_str();
        assert(all[n as int] == hosts@[n as int]@);
        proof {
            lemma_moved_from(old(from)@, old(to)@, all, n as int, all[n as int]);
        }
        let taken: Option<StrMap<String>> = match from.get(h) {
            Some(m) => Some(m.duplicate()),
            None => None,
        };
        if let Some(m) = taken {
            assert(lookup(old(from)@, all[n as int]) is Some);
            from.remove(h);
            let mut own = host_cookies(to, h);
            replace_all(&mut own, &m);
            to.insert(h.to_string(), own);
            any = true;
        } else if !any {
            proof {
                lemma_none_moved(old(from)@, old(to)@, all, n as int);
            }
        }
    }
    any
}

proof fn lemma_none_moved(from: JarView, to: JarView, hosts: Seq<Seq<char>>, n: int)
    requires
        0 <= n <= hosts.len(),
        forall|k: int| 0 <= k < n ==> lookup(from, #[trigger] hosts[k]) is None,
    ensures
        moved_to(from, to, hosts, n) == (from, to),
    decreases n,
{
    if n > 0 {
        lemma_none_moved(from, to, hosts, n - 1);
    }
}

proof fn lemma_moved_from(
    from: JarView,
    to: JarView,
    hosts: Seq<Seq<char>>,
    n: int,
    h: Seq<char>,
)
    requires
        0 <= n <= hosts.len(),
    ensures
        lookup(moved_to(from, to, hosts, n).0, h) is Some ==> lookup(from, h) is Some,
    decreases n,
{
    if n > 0 {
        lemma_moved_from(from, to, hosts, n - 1, h);
        crate::strmap::law_without_lookup(
            moved_to(from, to, hosts, n - 1).0,
            hosts[n - 1],
            h,
        );
    }
}

/// After a move the jar that gave has no cookies of the host and the domains that moved.
pub proof fn law_move_takes(from: JarView, to: JarView, hosts: Seq<Seq<char>>, n: int, k: int)
    requires
        0 <= k < n <= hosts.len(),
    ensures
        lookup(moved_to(from, to, hosts, n).0, hosts[k]) is None,
    decreases n,
{
    let before = moved_to(from, to, hosts, n - 1).0;
    if k < n - 1 {
        law_move_takes(from, to, hosts, n - 1, k);
    }
    crate::strmap::law_without_lookup(before, hosts[n - 1], hosts[k]);
}

proof fn lemma_replaced(m: CookieViews, from: CookieViews, n: int, name: Seq<char>)
    requires
        0 <= n <= from.len(),
        distinct(from),
    ensures
        lookup(replaced_to(m, from, n), name) == (match lookup(from.take(n), name) {
            Some(v) => Some(v),
            None => lookup(m, name),
        }),
    decreases n,
{
    if n == 0 {
        assert(from.take(0) =~= Seq::empty());
    } else {
        lemma_replaced(m, from, n - 1, name);
        let t = from.take(n - 1);
        let (k, v) = from[n - 1];
        assert(from.take(n) =~= t.push((k, v)));
        crate::strmap::lemma_last(t, k, v, name);
        law_put_lookup(replaced_to(m, from, n - 1), k, v, name);
        if name == k {
            crate::strmap::lemma_position(t, k, 0);
            let p = crate::strmap::position(t, k, 0);
            if p < t.len() {
                assert(from[p].0 == from[n - 1].0);
            }
        }
    }
}

proof fn lemma_moved_later(
    from: JarView,
    to: JarView,
    hosts: Seq<Seq<char>>,
    n: int,
    h: Seq<char>,
)
    requires
        0 <= n <= hosts.len(),
        forall|k: int| 0 <= k < n ==> (#[trigger] hosts[k]) != h,
    ensures
        lookup(moved_to(from, to, hosts, n).0, h) == lookup(from, h),
        lookup(moved_to(from, to, hosts, n).1, h) == lookup(to, h),
    decreases n,
{
    if n > 0 {
        lemma_moved_later(from, to, hosts, n - 1, h);
        let (f, t) = moved_to(from, to, hosts, n - 1);
        let g = hosts[n - 1];
        crate::strmap::law_without_lookup(f, g, h);
        if let Some(m) = lookup(f, g) {
            law_put_lookup(t, g, replaced(cookies_of(t, g), m), h);
        }
    }
}

/// A cookie that moves is found in the jar that took it, with its value.
pub proof fn law_move_gives(
    from: JarView,
    to: JarView,
    hosts: Seq<Seq<char>>,
    n: int,
    k: int,
    name: Seq<char>,
)
    requires
        0 <= k < n <= hosts.len(),
        hosts.no_duplicates(),
        lookup(from, hosts[k]) is Some,
        distinct(lookup(from, hosts[k])->0),
        lookup(lookup(from, hosts[k])->0, name) is Some,
    ensures
        lookup(cookies_of(moved_to(from, to, hosts, n).1, hosts[k]), name) == lookup(
            lookup(from, hosts[k])->0,
            name,
        ),
    decreases n,
{
    let h = hosts[k];
    let m = lookup(from, h)->0;
    let (f, t) = moved_to(from, to, hosts, n - 1);
    if k == n - 1 {
        assert forall|j: int| 0 <= j < n - 1 implies (#[trigger] hosts[j]) != h by {}
        lemma_moved_later(from, to, hosts, n - 1, h);
        lemma_replaced(cookies_of(t, h), m, m.len() as int, name);
        assert(m.take(m.len() as int) =~= m);
        law_put_lookup(t, h, replaced(cookies_of(t, h), m), h);
    } else {
        law_move_gives(from, to, hosts, n - 1, k, name);
        let g = hosts[n - 1];
        assert(g != h);
        if let Some(x) = lookup(f, g) {
            law_put_lookup(t, g, replaced(cookies_of(t, g), x), h);
        }
    }
}

/// No host comes twice among those whose cookies move.
pub proof fn law_moving_domains_differ(host: Seq<char>)
    ensures
        moving_domains(host).no_duplicates(),
        forall|k: int|
            0 <= k < moving_domains(host).len() ==> (#[trigger] moving_domains(host)[k]).len()
                <= host.len(),
    decreases host.len(),
{
    let dot = next_char(host, '.', 0);
    lemma_next_char(host, '.', 0);
    let all = moving_domains(host);
    if dot < host.len() && host.skip(dot + 1).contains('.') {
        let rest = moving_domains(host.skip(dot + 1));
        law_moving_domains_differ(host.skip(dot + 1));
        assert forall|k: int| 0 <= k < all.len() implies (#[trigger] all[k]).len() <= host.len() by {
            if k > 0 {
                assert(all[k] == rest[k - 1]);
            }
        }
        assert forall|i: int, j: int| 0 <= i < all.len() && 0 <= j < all.len() && i != j implies all[i]
            != all[j] by {
            if i > 0 {
                assert(all[i] == rest[i - 1]);
            }
            if j > 0 {
                assert(all[j] == rest[j - 1]);
            }
        }
    }
}

} // verus!
