//! Loading pages: cookie jars for each set, a small cache, and what goes out and comes in.

use vstd::prelude::*;
use crate::address::{opt_text, parse_url, url_parsed, UrlView};
use crate::config::{cookie_jar_path, cookies_path, jar_file, joined_path, opt_str, scroll_path};
use crate::cookies::{
    collect_cookies, cookie_line, cookie_pair, cookies_of, import_rows, law_stored_is_sent,
    move_cookies, moved, moving_domains, request_cookies, response_stored, row_views,
    rows_imported, store_response, write_cookies, CookieJar, CookieViews, JarView,
};
use crate::stored::{
    all_distinct, jar_in, json_pretty, same_jars, stored_jar, write_jar, RecordView,
};
use crate::strmap::{
    distinct, law_put_distinct, law_put_lookup, law_without_distinct, law_without_lookup,
    lemma_position, lemma_position_is, lookup, position, put, without, Duplicate, StrMap,
};
use crate::tab::{lemma_views_push, views};
use crate::text::{
    after_last, behind_last, chars_of, concat, lowercase_of, part_string, same, starts,
    starts_with,
};

verus! {

broadcast use vstd::string::group_string_axioms;

// --- Results ---

#[derive(Clone)]
pub struct FetchResult {
    pub body: String,
    pub content_type: String,
    /// The address of the page, after redirects.
    pub url: String,
    pub status: u16,
}

pub struct FetchView {
    pub body: Seq<char>,
    pub content_type: Seq<char>,
    pub url: Seq<char>,
    pub status: u16,
}

impl View for FetchResult {
    type V = FetchView;

    open spec fn view(&self) -> FetchView {
        FetchView {
            body: self.body@,
            content_type: self.content_type@,
            url: self.url@,
            status: self.status,
        }
    }
}

impl Duplicate for FetchResult {
    fn duplicate(&self) -> (r: Self) {
        FetchResult {
            body: self.body.clone(),
            content_type: self.content_type.clone(),
            url: self.url.clone(),
            status: self.status,
        }
    }
}

/// The content type that a file name's extension stands for.
pub open spec fn type_of_extension(ext: Seq<char>) -> Seq<char> {
    if ext == "txt"@ {
        "text/plain"@
    } else if ext == "json"@ {
        "application/json"@
    } else if ext == "xml"@ {
        "application/xml"@
    } else if ext == "css"@ {
        "text/css"@
    } else if ext == "js"@ {
        "application/javascript"@
    } else if ext == "png"@ {
        "image/png"@
    } else if ext == "jpg"@ || ext == "jpeg"@ {
        "image/jpeg"@
    } else if ext == "gif"@ {
        "image/gif"@
    } else if ext == "svg"@ {
        "image/svg+xml"@
    } else if ext == "pdf"@ {
        "application/pdf"@
    } else {
        "text/html"@
    }
}

pub fn content_type_of(ext: &str) -> (r: String)
    ensures
        r@ == type_of_extension(ext@),
{
    if same(ext, "txt") {
        "text/plain".to_string()
    } else if same(ext, "json") {
        "application/json".to_string()
    } else if same(ext, "xml") {
        "application/xml".to_string()
    } else if same(ext, "css") {
        "text/css".to_string()
    } else if same(ext, "js") {
        "application/javascript".to_string()
    } else if same(ext, "png") {
        "image/png".to_string()
    } else if same(ext, "jpg") || same(ext, "jpeg") {
        "image/jpeg".to_string()
    } else if same(ext, "gif") {
        "image/gif".to_string()
    } else if same(ext, "svg") {
        "image/svg+xml".to_string()
    } else if same(ext, "pdf") {
        "application/pdf".to_string()
    } else {
        "text/html".to_string()
    }
}

/// The content type of a file, by its name.
pub fn guess_content_type(path: &str) -> (r: String)
    ensures
        r@ == type_of_extension(lowercase_of(after_last(path@, '.'))),
{
    let ext = behind_last(path, '.');
    content_type_of(ext.as_str().to_lowercase().as_str())
}

// --- The fetcher ---

/// The most pages that the cache holds.
pub const MAX_CACHE: usize = 20;

pub struct Fetcher {
    /// The cookie jars that were loaded, by set.
    pub jars: StrMap<CookieJar>,
    /// The set whose jar serves requests; it is among the jars.
    pub active_set: String,
    pub cache: StrMap<FetchResult>,
    /// The addresses in the cache, the least recently used first.
    pub cache_order: Vec<String>,
}

pub struct FetcherView {
    pub jars: Seq<(Seq<char>, JarView)>,
    pub active_set: Seq<char>,
    pub cache: Seq<(Seq<char>, FetchView)>,
    pub cache_order: Seq<Seq<char>>,
}

impl View for Fetcher {
    type V = FetcherView;

    open spec fn view(&self) -> FetcherView {
        FetcherView {
            jars: self.jars@,
            active_set: self.active_set@,
            cache: self.cache@,
            cache_order: views(self.cache_order@),
        }
    }
}

pub open spec fn keys<T>(m: Seq<(Seq<char>, T)>) -> Seq<Seq<char>> {
    m.map_values(|e: (Seq<char>, T)| e.0)
}

/// The active set has a jar; the cache is within its bound, holds no address twice, and
/// its order lists exactly what it holds.
pub open spec fn well_formed(f: FetcherView) -> bool {
    &&& lookup(f.jars, f.active_set) is Some
    &&& distinct(f.jars)
    &&& distinct(f.cache)
    &&& f.cache.len() <= MAX_CACHE
    &&& f.cache_order == keys(f.cache)
}

/// The jar of the active set.
pub open spec fn active_jar(f: FetcherView) -> JarView {
    match lookup(f.jars, f.active_set) {
        Some(j) => j,
        None => Seq::empty(),
    }
}

pub open spec fn with_active_jar(f: FetcherView, jar: JarView) -> FetcherView {
    FetcherView { jars: put(f.jars, f.active_set, jar), ..f }
}

pub open spec fn loaded_jar(loaded: Option<CookieJar>) -> JarView {
    match loaded {
        Some(j) => j@,
        None => Seq::empty(),
    }
}

fn or_empty(loaded: Option<CookieJar>) -> (r: CookieJar)
    ensures
        r@ == loaded_jar(loaded),
{
    match loaded {
        Some(j) => j,
        None => StrMap::new(),
    }
}

/// The jars with one for `set`: the one that is there, else the one that was loaded.
pub open spec fn with_jar(
    jars: Seq<(Seq<char>, JarView)>,
    set: Seq<char>,
    loaded: JarView,
) -> Seq<(Seq<char>, JarView)> {
    if lookup(jars, set) is Some {
        jars
    } else {
        put(jars, set, loaded)
    }
}

/// The fetcher with another set active.
pub open spec fn set_activated(f: FetcherView, set: Seq<char>, loaded: JarView) -> FetcherView {
    if f.active_set == set {
        f
    } else {
        FetcherView { jars: with_jar(f.jars, set, loaded), active_set: set, ..f }
    }
}

/// The fetcher after a set took another name, and its jar with it.
pub open spec fn set_renamed(f: FetcherView, old_name: Seq<char>, new_name: Seq<char>) -> FetcherView {
    if old_name == new_name {
        f
    } else {
        FetcherView {
            jars: match lookup(f.jars, old_name) {
                Some(jar) => put(without(f.jars, old_name), new_name, jar),
                None => f.jars,
            },
            active_set: if f.active_set == old_name {
                new_name
            } else {
                f.active_set
            },
            ..f
        }
    }
}

/// The jar with `cookies` as all that `host` has.
pub open spec fn cookies_replaced(jar: JarView, host: Seq<char>, cookies: CookieViews) -> JarView {
    if cookies.len() == 0 {
        without(jar, host)
    } else {
        put(jar, host, cookies)
    }
}

/// The jars after the cookies of `host` moved from one set to another.
pub open spec fn jars_moved(
    jars: Seq<(Seq<char>, JarView)>,
    host: Seq<char>,
    source: Seq<char>,
    target: Seq<char>,
) -> Seq<(Seq<char>, JarView)> {
    match (lookup(jars, source), lookup(jars, target)) {
        (Some(from), Some(to)) => {
            let (f, t) = moved(from, to, host);
            put(put(jars, source, f), target, t)
        },
        _ => jars,
    }
}

/// Whether the jar has cookies of `host` or of a domain above it that moves with it.
pub open spec fn has_moving(jar: JarView, host: Seq<char>) -> bool {
    exists|k: int|
        0 <= k < moving_domains(host).len() && lookup(jar, #[trigger] moving_domains(host)[k]) is Some
}

// --- Requests and responses ---

/// The address that is asked for: `https` where none is given.
pub open spec fn normalized(url: Seq<char>) -> Seq<char> {
    if !starts(url, "http://"@) && !starts(url, "https://"@) {
        "https://"@ + url
    } else {
        url
    }
}

pub fn normalize_url(url: &str) -> (r: String)
    ensures
        r@ == normalized(url@),
{
    if !starts_with(url, "http://") && !starts_with(url, "https://") {
        concat("https://", url)
    } else {
        url.to_string()
    }
}

pub open spec fn host_opt(u: Option<UrlView>) -> Option<Seq<char>> {
    match u {
        Some(p) => p.host,
        None => None,
    }
}

fn find_host(url: &str) -> (r: Option<String>)
    ensures
        opt_text(r) == host_opt(url_parsed(url@)),
{
    match parse_url(url) {
        Some(p) => p.host,
        None => None,
    }
}

/// The cookies that a request to an address with this host carries, as text.
pub open spec fn header_for(f: FetcherView, host: Option<Seq<char>>) -> Seq<char> {
    match host {
        Some(h) => cookie_line(request_cookies(active_jar(f), h)),
        None => Seq::empty(),
    }
}

/// What is to be done for a page.
pub enum FetchPlan {
    /// The page is in the cache.
    Cached(FetchResult),
    /// The page is a local file.
    ReadFile(String),
    /// The page is to be asked for; the cookies are left out where there are none.
    Request { url: String, post: bool, cookie: Option<String> },
}

/// Whether a request can be answered from the cache, and its answer kept there.
pub open spec fn is_cacheable(method: Seq<char>, has_params: bool) -> bool {
    method == "GET"@ && !has_params
}

pub open spec fn is_plan(
    p: FetchPlan,
    f: FetcherView,
    url: Seq<char>,
    method: Seq<char>,
    has_params: bool,
) -> bool {
    let known = lookup(f.cache, url);
    let target = normalized(url);
    let header = header_for(f, host_opt(url_parsed(target)));
    match p {
        FetchPlan::Cached(r) => is_cacheable(method, has_params) && known == Some(r@),
        FetchPlan::ReadFile(path) => !(is_cacheable(method, has_params) && known is Some)
            && starts(url, "file://"@) && path@ == url.skip(7),
        FetchPlan::Request { url: u, post, cookie } => {
            &&& !(is_cacheable(method, has_params) && known is Some)
            &&& !starts(url, "file://"@)
            &&& u@ == target
            &&& post == (method == "POST"@)
            &&& opt_text(cookie) == (if header.len() > 0 {
                Some(header)
            } else {
                None
            })
        },
    }
}

/// A response: the address it came from, its status, type, cookies and text.
pub struct Response {
    pub url: String,
    pub status: u16,
    pub content_type: Option<String>,
    pub set_cookies: Vec<String>,
    pub body: String,
}

pub open spec fn response_result(resp: Response) -> FetchView {
    FetchView {
        body: resp.body@,
        content_type: match resp.content_type {
            Some(t) => t@,
            None => "text/html"@,
        },
        url: resp.url@,
        status: resp.status,
    }
}

/// The fetcher with the cookies that a response from `host` set.
pub open spec fn cookies_stored(f: FetcherView, host: Option<Seq<char>>, raws: Seq<Seq<char>>) -> FetcherView {
    match host {
        Some(h) => if raws.len() > 0 {
            with_active_jar(f, response_stored(active_jar(f), h, raws))
        } else {
            f
        },
        None => f,
    }
}

pub open spec fn invalidated(f: FetcherView, url: Seq<char>) -> FetcherView {
    let cache = without(f.cache, url);
    FetcherView { cache, cache_order: keys(cache), ..f }
}

/// The cache with a page as the one that was used last.
pub open spec fn placed(f: FetcherView, url: Seq<char>, r: FetchView) -> FetcherView {
    let g = invalidated(f, url);
    FetcherView { cache: g.cache.push((url, r)), cache_order: g.cache_order.push(url), ..g }
}

/// The page at `url` was asked for again and is now the one that was used last.
pub open spec fn refreshed(f: FetcherView, url: Seq<char>) -> FetcherView {
    match lookup(f.cache, url) {
        Some(r) => placed(f, url, r),
        None => f,
    }
}

/// The cache with one more page; the least recently used leaves where there would be too
/// many.
pub open spec fn cached(f: FetcherView, url: Seq<char>, r: FetchView) -> FetcherView {
    let g = placed(f, url, r);
    if g.cache.len() > MAX_CACHE {
        FetcherView {
            cache: g.cache.drop_first(),
            cache_order: g.cache_order.drop_first(),
            ..g
        }
    } else {
        g
    }
}

pub open spec fn received(
    f: FetcherView,
    url: Seq<char>,
    method: Seq<char>,
    has_params: bool,
    resp: Response,
) -> FetcherView {
    let g = cookies_stored(f, host_opt(url_parsed(resp.url@)), views(resp.set_cookies@));
    if is_cacheable(method, has_params) && resp.status == 200 {
        cached(g, url, response_result(resp))
    } else {
        g
    }
}

proof fn lemma_without_first<T>(m: Seq<(Seq<char>, T)>)
    requires
        m.len() > 0,
        distinct(m),
    ensures
        without(m, m[0].0) == m.drop_first(),
    decreases m.len(),
{
    let k = m[0].0;
    let d = m.drop_last();
    if m.len() == 1 {
        assert(without(d, k) =~= m.drop_first());
    } else {
        assert(d[0].0 == k);
        assert(m[0].0 != m[m.len() - 1].0);
        lemma_without_first(d);
        assert(d.drop_first().push(m.last()) =~= m.drop_first());
    }
}

proof fn lemma_drop_distinct<T>(m: Seq<(Seq<char>, T)>)
    requires
        m.len() > 0,
        distinct(m),
    ensures
        distinct(m.drop_first()),
{
    let d = m.drop_first();
    assert forall|i: int, j: int| 0 <= i < j < d.len() implies (#[trigger] d[i]).0 != (
    #[trigger] d[j]).0 by {
        assert(m[i + 1].0 != m[j + 1].0);
    }
}

proof fn lemma_placed(f: FetcherView, url: Seq<char>, r: FetchView)
    requires
        well_formed(f),
    ensures
        ({
            let g = placed(f, url, r);
            &&& distinct(g.cache)
            &&& g.cache_order == keys(g.cache)
            &&& g.cache.len() <= f.cache.len() + 1
            &&& lookup(f.cache, url) is Some ==> g.cache.len() <= f.cache.len()
            &&& lookup(g.cache, url) == Some(r)
        }),
{
    let g = invalidated(f, url);
    law_invalidated(f, url, url);
    law_put_distinct(g.cache, url, r);
    law_put_lookup(g.cache, url, r, url);
    lemma_position(g.cache, url, 0);
    lemma_without_len(f.cache, url);
    lemma_without_found(f.cache, url);
    assert(keys(g.cache.push((url, r))) =~= keys(g.cache).push(url));
}

/// Caching a page keeps the cache within its bound and in order, and the page is found
/// there as it came.
pub proof fn law_cached(f: FetcherView, url: Seq<char>, r: FetchView)
    requires
        well_formed(f),
    ensures
        well_formed(cached(f, url, r)),
        lookup(cached(f, url, r).cache, url) == Some(r),
{
    lemma_placed(f, url, r);
    let cache = placed(f, url, r).cache;
    if cache.len() > MAX_CACHE {
        lemma_drop_distinct(cache);
        let d = cache.drop_first();
        assert(d[d.len() - 1].0 == url);
        assert forall|j: int| 0 <= j < d.len() - 1 implies (#[trigger] d[j]).0 != url by {
            assert(cache[j + 1].0 != cache[cache.len() - 1].0);
        }
        lemma_position_is(d, url, d.len() - 1);
        assert(keys(cache).drop_first() =~= keys(d));
    }
}

/// Asking for a page that is in the cache changes nothing of what the cache holds.
pub proof fn law_refreshed(f: FetcherView, url: Seq<char>, other: Seq<char>)
    requires
        well_formed(f),
    ensures
        well_formed(refreshed(f, url)),
        lookup(refreshed(f, url).cache, other) == lookup(f.cache, other),
{
    if let Some(r) = lookup(f.cache, url) {
        lemma_placed(f, url, r);
        let g = invalidated(f, url);
        law_invalidated(f, url, other);
        lemma_position(g.cache, url, 0);
        law_put_lookup(g.cache, url, r, other);
    }
}

/// The page that leaves a full cache is the least recently used one: a page that was asked
/// for just before stays.
pub proof fn law_recent_stays(f: FetcherView, url: Seq<char>, newer: Seq<char>, r: FetchView)
    requires
        well_formed(f),
        lookup(f.cache, url) is Some,
        newer != url,
    ensures
        lookup(cached(refreshed(f, url), newer, r).cache, url) == lookup(f.cache, url),
{
    let page = lookup(f.cache, url)->0;
    let g = refreshed(f, url);
    law_refreshed(f, url, url);
    law_invalidated(g, newer, url);
    let rest = invalidated(f, url).cache;
    let h = invalidated(g, newer).cache;
    assert(g.cache == rest.push((url, page)));
    assert(g.cache.drop_last() =~= rest);
    assert(h == without(rest, newer).push((url, page)));
    let n = h.len() - 1;
    let all = h.push((newer, r));
    assert forall|j: int| 0 <= j < n implies (#[trigger] h[j]).0 != url by {
        assert(h[n].0 == url);
    }
    if all.len() > MAX_CACHE {
        let d = all.drop_first();
        assert forall|j: int| 0 <= j < n - 1 implies (#[trigger] d[j]).0 != url by {
            assert(d[j] == h[j + 1]);
        }
        assert(d[n - 1] == (url, page));
        lemma_position_is(d, url, n - 1);
    } else {
        assert forall|j: int| 0 <= j < n implies (#[trigger] all[j]).0 != url by {
            assert(all[j] == h[j]);
        }
        lemma_position_is(all, url, n);
    }
}

/// A page that was dropped from the cache is asked for again; the others stay.
pub proof fn law_invalidated(f: FetcherView, url: Seq<char>, other: Seq<char>)
    requires
        well_formed(f),
    ensures
        well_formed(invalidated(f, url)),
        lookup(invalidated(f, url).cache, url) is None,
        other != url ==> lookup(invalidated(f, url).cache, other) == lookup(f.cache, other),
{
    law_without_distinct(f.cache, url);
    law_without_lookup(f.cache, url, other);
    lemma_without_len(f.cache, url);
}

proof fn lemma_without_found<T>(m: Seq<(Seq<char>, T)>, k: Seq<char>)
    ensures
        lookup(m, k) is Some ==> without(m, k).len() < m.len(),
    decreases m.len(),
{
    lemma_position(m, k, 0);
    if m.len() > 0 {
        let t = m.drop_last();
        lemma_without_found(t, k);
        lemma_without_len(t, k);
        lemma_position(t, k, 0);
        let p = position(m, k, 0);
        if p < m.len() - 1 {
            assert(t[p].0 == k);
        }
    }
}

proof fn lemma_without_len<T>(m: Seq<(Seq<char>, T)>, k: Seq<char>)
    ensures
        without(m, k).len() <= m.len(),
    decreases m.len(),
{
    if m.len() > 0 {
        lemma_without_len(m.drop_last(), k);
    }
}

/// Making another set active and storing cookies keeps the fetcher well formed.
pub proof fn law_jars_well_formed(f: FetcherView, set: Seq<char>, loaded: JarView, jar: JarView)
    requires
        well_formed(f),
    ensures
        well_formed(set_activated(f, set, loaded)),
        well_formed(with_active_jar(f, jar)),
        active_jar(with_active_jar(f, jar)) == jar,
{
    law_put_distinct(f.jars, set, loaded);
    law_put_lookup(f.jars, set, loaded, set);
    law_put_distinct(f.jars, f.active_set, jar);
    law_put_lookup(f.jars, f.active_set, jar, f.active_set);
}

/// Renaming a set keeps the fetcher well formed, and the renamed set has the cookies that
/// it had under its old name.
pub proof fn law_rename_keeps_jar(f: FetcherView, old_name: Seq<char>, new_name: Seq<char>)
    requires
        well_formed(f),
    ensures
        well_formed(set_renamed(f, old_name, new_name)),
        lookup(f.jars, old_name) is Some ==> lookup(
            set_renamed(f, old_name, new_name).jars,
            new_name,
        ) == lookup(f.jars, old_name),
{
    if old_name != new_name {
        if let Some(jar) = lookup(f.jars, old_name) {
            let rest = without(f.jars, old_name);
            law_without_distinct(f.jars, old_name);
            law_put_distinct(rest, new_name, jar);
            law_put_lookup(rest, new_name, jar, f.active_set);
            law_without_lookup(f.jars, old_name, f.active_set);
        }
    }
}

pub open spec fn set_forgotten(f: FetcherView, set: Seq<char>) -> FetcherView {
    if set == f.active_set {
        f
    } else {
        FetcherView { jars: without(f.jars, set), ..f }
    }
}

/// Nothing is left of the jar of a set that was forgotten; the other sets keep theirs.
pub proof fn law_set_forgotten(f: FetcherView, set: Seq<char>, other: Seq<char>)
    requires
        well_formed(f),
    ensures
        well_formed(set_forgotten(f, set)),
        set != f.active_set ==> lookup(set_forgotten(f, set).jars, set) is None,
        other != set ==> lookup(set_forgotten(f, set).jars, other) == lookup(f.jars, other),
{
    law_without_distinct(f.jars, set);
    law_without_lookup(f.jars, set, other);
    law_without_lookup(f.jars, set, f.active_set);
}

/// Sets keep their cookies apart: storing cookies in the active set changes no other set.
pub proof fn law_sets_apart(f: FetcherView, jar: JarView, other: Seq<char>)
    requires
        other != f.active_set,
    ensures
        lookup(with_active_jar(f, jar).jars, other) == lookup(f.jars, other),
{
    law_put_lookup(f.jars, f.active_set, jar, other);
}

/// A page that came whole for a plain request is answered from the cache from then on.
pub proof fn law_received_is_cached(f: FetcherView, url: Seq<char>, resp: Response)
    requires
        well_formed(f),
        resp.status == 200,
    ensures
        lookup(received(f, url, "GET"@, false, resp).cache, url) == Some(response_result(resp)),
{
    let host = host_opt(url_parsed(resp.url@));
    let raws = views(resp.set_cookies@);
    let g = cookies_stored(f, host, raws);
    if let Some(h) = host {
        let jar = response_stored(active_jar(f), h, raws);
        law_jars_well_formed(f, f.active_set, jar, jar);
    }
    law_cached(g, url, response_result(resp));
}

/// What a page's response sets, the next request to its host carries.
pub proof fn law_response_cookie_sent(f: FetcherView, host: Seq<char>, raws: Seq<Seq<char>>)
    requires
        well_formed(f),
        raws.len() > 0,
        cookie_pair(raws.last()) is Some,
    ensures
        ({
            let (name, value) = cookie_pair(raws.last())->0;
            let g = cookies_stored(f, Some(host), raws);
            lookup(request_cookies(active_jar(g), host), name) == Some(value)
        }),
{
    let jar = response_stored(active_jar(f), host, raws);
    law_jars_well_formed(f, f.active_set, jar, jar);
    law_stored_is_sent(active_jar(f), host, raws);
}

pub open spec fn pair_texts(p: Option<(String, String)>) -> Option<(Seq<char>, Seq<char>)> {
    match p {
        Some((a, b)) => Some((a@, b@)),
        None => None,
    }
}

/// The renaming of files that brings an old single jar to a set, where there is one and the
/// set has none yet.
pub fn migrate_legacy_cookies_jar(
    default_set: &str,
    legacy_exists: bool,
    dest_exists: bool,
    home: Option<&str>,
) -> (r: Option<(String, String)>)
    ensures
        pair_texts(r) == (if legacy_exists && !dest_exists {
            Some(
                (
                    joined_path(scroll_path(opt_str(home)), "cookies.json"@),
                    jar_file(opt_str(home), default_set@),
                ),
            )
        } else {
            None
        }),
{
    if legacy_exists && !dest_exists {
        Some((cookies_path(home), cookie_jar_path(default_set, home)))
    } else {
        None
    }
}

impl Fetcher {
    /// A fetcher with one set, whose jar was loaded from disk if there was one.
    pub fn new_with_set(set_name: &str, loaded: Option<CookieJar>) -> (r: Self)
        ensures
            r@ == (FetcherView {
                jars: seq![(set_name@, loaded_jar(loaded))],
                active_set: set_name@,
                cache: Seq::empty(),
                cache_order: Seq::empty(),
            }),
            well_formed(r@),
    {
        let mut jars: StrMap<CookieJar> = StrMap::new();
        let jar = or_empty(loaded);
        proof {
            law_put_lookup(jars@, set_name@, jar@, set_name@);
        }
        jars.insert(set_name.to_string(), jar);
        let r = Fetcher {
            jars,
            active_set: set_name.to_string(),
            cache: StrMap::new(),
            cache_order: Vec::new(),
        };
        assert(r@.jars =~= seq![(set_name@, loaded_jar(loaded))]);
        assert(r@.cache_order =~= Seq::empty());
        assert(keys(r@.cache) =~= Seq::empty());
        r
    }

    /// Whether the jar of a set has been loaded.
    pub fn has_jar(&self, set_name: &str) -> (r: bool)
        ensures
            r == lookup(self@.jars, set_name@) is Some,
    {
        self.jars.contains_key(set_name)
    }

    /// The jar of a set, where `stored` is the text of its file, if it could be read.
    pub fn load_jar(stored: Option<&str>) -> (r: CookieJar)
        ensures
            r@ == jar_in(opt_str(stored)),
    {
        stored_jar(stored)
    }

    /// The path and the text of the file of a set's jar, where the set has one. What the
    /// file holds is loaded again.
    pub fn save_jar(&self, set_name: &str, home: Option<&str>) -> (r: Option<(String, String)>)
        ensures
            match lookup(self@.jars, set_name@) {
                Some(jar) => {
                    &&& pair_texts(r) == Some(
                        (jar_file(opt_str(home), set_name@), json_pretty(RecordView::Maps(jar))),
                    )
                    &&& all_distinct(jar) ==> same_jars(jar_in(Some((r->0).1@)), jar)
                },
                None => r is None,
            },
    {
        match self.jars.get(set_name) {
            Some(jar) => Some((cookie_jar_path(set_name, home), write_jar(jar))),
            None => None,
        }
    }

    /// The path and the text of the file of the active jar.
    pub fn save_active_jar(&self, home: Option<&str>) -> (r: Option<(String, String)>)
        ensures
            match lookup(self@.jars, self@.active_set) {
                Some(jar) => {
                    &&& pair_texts(r) == Some(
                        (
                            jar_file(opt_str(home), self@.active_set),
                            json_pretty(RecordView::Maps(jar)),
                        ),
                    )
                    &&& all_distinct(jar) ==> same_jars(jar_in(Some((r->0).1@)), jar)
                },
                None => r is None,
            },
    {
        self.save_jar(self.active_set.as_str(), home)
    }

    /// The jar of a set.
    pub fn jar(&self, set_name: &str) -> (r: Option<&CookieJar>)
        ensures
            match r {
                Some(j) => lookup(self@.jars, set_name@) == Some(j@),
                None => lookup(self@.jars, set_name@) is None,
            },
    {
        self.jars.get(set_name)
    }

    /// Makes another set active. Gives the set whose jar is then to be saved: the one that
    /// was active.
    pub fn set_active_set(&mut self, set_name: &str, loaded: Option<CookieJar>) -> (r: Option<
        String,
    >)
        requires
            well_formed(old(self)@),
        ensures
            final(self)@ == set_activated(old(self)@, set_name@, loaded_jar(loaded)),
            well_formed(final(self)@),
            opt_text(r) == (if old(self)@.active_set == set_name@ {
                None
            } else {
                Some(old(self)@.active_set)
            }),
    {
        let jar = or_empty(loaded);
        proof {
            law_jars_well_formed(self@, set_name@, jar@, jar@);
        }
        if same(self.active_set.as_str(), set_name) {
            return None;
        }
        if !self.jars.contains_key(set_name) {
            self.jars.insert(set_name.to_string(), jar);
        }
        let mut name = set_name.to_string();
        std::mem::swap(&mut self.active_set, &mut name);
        Some(name)
    }

    /// Gives a set another name. Where its jar has a file, gives the file's old and new
    /// path.
    pub fn rename_set(
        &mut self,
        old_name: &str,
        new_name: &str,
        file_exists: bool,
        home: Option<&str>,
    ) -> (r: Option<(String, String)>)
        requires
            well_formed(old(self)@),
        ensures
            final(self)@ == set_renamed(old(self)@, old_name@, new_name@),
            well_formed(final(self)@),
            pair_texts(r) == (if old_name@ != new_name@ && file_exists {
                Some((jar_file(opt_str(home), old_name@), jar_file(opt_str(home), new_name@)))
            } else {
                None
            }),
    {
        proof {
            law_rename_keeps_jar(self@, old_name@, new_name@);
        }
        if same(old_name, new_name) {
            return None;
        }
        let jar: Option<CookieJar> = match self.jars.get(old_name) {
            Some(j) => Some(j.duplicate()),
            None => None,
        };
        if let Some(j) = jar {
            self.jars.remove(old_name);
            self.jars.insert(new_name.to_string(), j);
        }
        if same(self.active_set.as_str(), old_name) {
            self.active_set = new_name.to_string();
        }
        if file_exists {
            Some((cookie_jar_path(old_name, home), cookie_jar_path(new_name, home)))
        } else {
            None
        }
    }

    /// The cookies that scripts of `host` see: its own, without those of domains above it.
    pub fn cookies_for_host(&self, host: &str) -> (r: StrMap<String>)
        ensures
            r@ == cookies_of(active_jar(self@), host@),
    {
        match self.jars.get(self.active_set.as_str()) {
            Some(jar) => match jar.get(host) {
                Some(m) => m.duplicate(),
                None => StrMap::new(),
            },
            None => StrMap::new(),
        }
    }

    fn take_active_jar(&self) -> (r: CookieJar)
        ensures
            r@ == active_jar(self@),
    {
        match self.jars.get(self.active_set.as_str()) {
            Some(jar) => jar.duplicate(),
            None => StrMap::new(),
        }
    }

    fn put_active_jar(&mut self, jar: CookieJar)
        requires
            well_formed(old(self)@),
        ensures
            final(self)@ == with_active_jar(old(self)@, jar@),
            well_formed(final(self)@),
    {
        proof {
            law_jars_well_formed(self@, self@.active_set, jar@, jar@);
        }
        self.jars.insert(self.active_set.clone(), jar);
    }

    /// Gives `host` these cookies in place of those that it had.
    pub fn replace_cookies_for_host(&mut self, host: &str, cookies: StrMap<String>)
        requires
            well_formed(old(self)@),
        ensures
            final(self)@ == with_active_jar(
                old(self)@,
                cookies_replaced(active_jar(old(self)@), host@, cookies@),
            ),
            well_formed(final(self)@),
    {
        let mut jar = self.take_active_jar();
        if cookies.is_empty() {
            jar.remove(host);
        } else {
            jar.insert(host.to_string(), cookies);
        }
        self.put_active_jar(jar);
    }

    pub fn active_set_name(&self) -> (r: &str)
        ensures
            r@ == self@.active_set,
    {
        self.active_set.as_str()
    }

    /// Forgets the jar of a set that is gone, so that a new set of that name has none of
    /// its cookies. The jar of the active set stays.
    pub fn forget_set(&mut self, set_name: &str)
        requires
            well_formed(old(self)@),
        ensures
            final(self)@ == set_forgotten(old(self)@, set_name@),
            well_formed(final(self)@),
    {
        proof {
            law_set_forgotten(self@, set_name@, self@.active_set);
        }
        if !same(self.active_set.as_str(), set_name) {
            self.jars.remove(set_name);
        }
    }

    /// Takes over cookies of a Firefox profile, each with host, name and value, those that
    /// were used last first. Gives their number.
    pub fn import_firefox_cookies(&mut self, rows: &Vec<(String, String, String)>) -> (r: usize)
        requires
            well_formed(old(self)@),
        ensures
            final(self)@ == with_active_jar(
                old(self)@,
                rows_imported(active_jar(old(self)@), row_views(rows@)),
            ),
            well_formed(final(self)@),
            r == rows@.len(),
    {
        let mut jar = self.take_active_jar();
        import_rows(&mut jar, rows);
        self.put_active_jar(jar);
        rows.len()
    }

    /// Moves the cookies of a host from one set to another; says whether the two jars are
    /// to be saved. The jars that were not loaded yet come in as arguments.
    pub fn move_cookies_for_host(
        &mut self,
        host: &str,
        source_set: &str,
        target_set: &str,
        loaded_source: Option<CookieJar>,
        loaded_target: Option<CookieJar>,
    ) -> (r: bool)
        requires
            well_formed(old(self)@),
        ensures
            ({
                let jars = with_jar(
                    with_jar(old(self)@.jars, source_set@, loaded_jar(loaded_source)),
                    target_set@,
                    loaded_jar(loaded_target),
                );
                &&& final(self)@ == (FetcherView {
                    jars: if source_set@ == target_set@ {
                        old(self)@.jars
                    } else if has_moving(lookup(jars, source_set@)->0, host@) {
                        jars_moved(jars, host@, source_set@, target_set@)
                    } else {
                        jars
                    },
                    ..old(self)@
                })
                &&& r == (source_set@ != target_set@ && has_moving(
                    lookup(jars, source_set@)->0,
                    host@,
                ))
            }),
            well_formed(final(self)@),
    {
        if same(source_set, target_set) {
            return false;
        }
        let ghost f = self@;
        let ghost active = f.active_set;
        let source_jar = or_empty(loaded_source);
        let target_jar = or_empty(loaded_target);
        proof {
            law_put_distinct(f.jars, source_set@, source_jar@);
            law_put_lookup(f.jars, source_set@, source_jar@, source_set@);
            law_put_lookup(f.jars, source_set@, source_jar@, active);
        }
        if !self.jars.contains_key(source_set) {
            self.jars.insert(source_set.to_string(), source_jar);
        }
        let ghost one = self.jars@;
        proof {
            law_put_distinct(one, target_set@, target_jar@);
            law_put_lookup(one, target_set@, target_jar@, source_set@);
            law_put_lookup(one, target_set@, target_jar@, target_set@);
            law_put_lookup(one, target_set@, target_jar@, active);
        }
        if !self.jars.contains_key(target_set) {
            self.jars.insert(target_set.to_string(), target_jar);
        }
        let ghost jars = self.jars@;
        assert(lookup(jars, source_set@) is Some);
        assert(lookup(jars, target_set@) is Some);
        let mut from: CookieJar = match self.jars.get(source_set) {
            Some(j) => j.duplicate(),
            None => StrMap::new(),
        };
        let mut to: CookieJar = match self.jars.get(target_set) {
            Some(j) => j.duplicate(),
            None => StrMap::new(),
        };
        if move_cookies(&mut from, &mut to, host) {
            proof {
                law_put_distinct(jars, source_set@, from@);
                law_put_lookup(jars, source_set@, from@, active);
                law_put_distinct(put(jars, source_set@, from@), target_set@, to@);
                law_put_lookup(put(jars, source_set@, from@), target_set@, to@, active);
            }
            self.jars.insert(source_set.to_string(), from);
            self.jars.insert(target_set.to_string(), to);
            true
        } else {
            false
        }
    }

    /// The cookies that a request to `host` carries, as text.
    pub fn cookie_header(&self, host: Option<&str>) -> (r: String)
        ensures
            r@ == header_for(self@, opt_str(host)),
    {
        match host {
            Some(h) => match self.jars.get(self.active_set.as_str()) {
                Some(jar) => write_cookies(&collect_cookies(jar, h)),
                None => {
                    let none: CookieJar = StrMap::new();
                    write_cookies(&collect_cookies(&none, h))
                },
            },
            None => {
                let r = String::new();
                assert(r@ =~= Seq::empty());
                r
            },
        }
    }

    /// The cookies that a request to `url` carries, as text.
    pub fn build_cookie_header(&self, url: &str) -> (r: String)
        ensures
            r@ == header_for(self@, host_opt(url_parsed(url@))),
    {
        match find_host(url) {
            Some(h) => self.cookie_header(Some(h.as_str())),
            None => self.cookie_header(None),
        }
    }

    /// What is to be done for the page at `url`; one that the cache has is then the page
    /// that was used last.
    pub fn fetch(&mut self, url: &str, method: &str, has_params: bool) -> (r: FetchPlan)
        requires
            well_formed(old(self)@),
        ensures
            is_plan(r, old(self)@, url@, method@, has_params),
            final(self)@ == (if r is Cached {
                refreshed(old(self)@, url@)
            } else {
                old(self)@
            }),
            well_formed(final(self)@),
    {
        if same(method, "GET") && !has_params {
            if let Some(known) = self.cache.get(url) {
                let page = known.duplicate();
                proof {
                    law_refreshed(self@, url@, url@);
                }
                self.place(url, &page);
                return FetchPlan::Cached(page);
            }
        }
        if starts_with(url, "file://") {
            let c = chars_of(url);
            proof {
                reveal_strlit("file://");
            }
            let path = part_string(&c, 7, c.len());
            assert(path@ =~= url@.skip(7));
            return FetchPlan::ReadFile(path);
        }
        let target = normalize_url(url);
        let header = self.build_cookie_header(target.as_str());
        let cookie = if header.as_str().is_empty() {
            None
        } else {
            Some(header)
        };
        FetchPlan::Request { url: target, post: same(method, "POST"), cookie }
    }

    /// The cookies that a response from `host` set go into the active jar.
    pub fn store_cookies(&mut self, host: Option<&str>, set_cookies: &Vec<String>)
        requires
            well_formed(old(self)@),
        ensures
            final(self)@ == cookies_stored(old(self)@, opt_str(host), views(set_cookies@)),
            well_formed(final(self)@),
    {
        if set_cookies.len() == 0 {
            return;
        }
        if let Some(h) = host {
            let mut jar = self.take_active_jar();
            store_response(&mut jar, h, set_cookies);
            self.put_active_jar(jar);
        }
    }

    /// The cookies that a response from `url` set go into the active jar.
    pub fn store_set_cookies(&mut self, url: &str, set_cookies: &Vec<String>)
        requires
            well_formed(old(self)@),
        ensures
            final(self)@ == cookies_stored(
                old(self)@,
                host_opt(url_parsed(url@)),
                views(set_cookies@),
            ),
            well_formed(final(self)@),
    {
        match find_host(url) {
            Some(h) => self.store_cookies(Some(h.as_str()), set_cookies),
            None => self.store_cookies(None, set_cookies),
        }
    }

    /// Puts a page into the cache as the one that was used last.
    fn place(&mut self, url: &str, r: &FetchResult)
        requires
            well_formed(old(self)@),
        ensures
            final(self)@ == placed(old(self)@, url@, r@),
    {
        let ghost f = self@;
        self.invalidate_cache(url);
        proof {
            law_invalidated(f, url@, url@);
            lemma_position(self@.cache, url@, 0);
        }
        self.cache.insert(url.to_string(), r.duplicate());
        let key = url.to_string();
        proof {
            lemma_views_push(self.cache_order@, key);
        }
        self.cache_order.push(key);
    }

    /// Keeps a page; the least recently used leaves where there would be too many.
    pub fn remember(&mut self, url: &str, r: &FetchResult)
        requires
            well_formed(old(self)@),
        ensures
            final(self)@ == cached(old(self)@, url@, r@),
            well_formed(final(self)@),
    {
        proof {
            law_cached(self@, url@, r@);
            lemma_placed(self@, url@, r@);
        }
        self.place(url, r);
        if self.cache.len() > MAX_CACHE {
            let ghost cache = self.cache@;
            let ghost order = views(self.cache_order@);
            assert(order[0] == cache[0].0);
            let oldest = self.cache_order.remove(0);
            assert(oldest@ == cache[0].0);
            assert(views(self.cache_order@) =~= order.drop_first());
            proof {
                lemma_without_first(cache);
            }
            self.cache.remove(oldest.as_str());
        }
    }

    /// A response came for the page that `url` asked for.
    pub fn receive(
        &mut self,
        url: &str,
        method: &str,
        has_params: bool,
        resp: Response,
    ) -> (r: FetchResult)
        requires
            well_formed(old(self)@),
        ensures
            final(self)@ == received(old(self)@, url@, method@, has_params, resp),
            well_formed(final(self)@),
            r@ == response_result(resp),
            r@.body == resp.body@,
            r@.url == resp.url@,
            r@.status == resp.status,
            resp.content_type matches Some(t) ==> r@.content_type == t@,
            resp.content_type is None ==> r@.content_type == "text/html"@,
    {
        self.store_set_cookies(resp.url.as_str(), &resp.set_cookies);
        let content_type = match resp.content_type {
            Some(t) => t,
            None => "text/html".to_string(),
        };
        let r = FetchResult {
            body: resp.body,
            content_type,
            url: resp.url,
            status: resp.status,
        };
        if same(method, "GET") && !has_params && resp.status == 200 {
            self.remember(url, &r);
        }
        r
    }

    /// Forgets a page.
    pub fn invalidate_cache(&mut self, url: &str)
        requires
            well_formed(old(self)@),
        ensures
            final(self)@ == invalidated(old(self)@, url@),
            well_formed(final(self)@),
    {
        proof {
            law_invalidated(self@, url@, url@);
        }
        self.cache.remove(url);
        let mut order: Vec<String> = Vec::new();
        let n: usize = self.cache.len();
        for k in 0..n
            invariant
                n == self.cache@.len(),
                order@.len() == k,
                forall|j: int| 0 <= j < k ==> (#[trigger] order@[j])@ == self.cache@[j].0,
        {
            order.push(self.cache.key_at(k).to_string());
        }
        self.cache_order = order;
        assert(views(self.cache_order@) =~= keys(self.cache@));
    }
}

// --- Results without a response ---

/// The page of a local file, or of the error that reading it gave.
pub fn file_result(url: &str, path: &str, text: Result<String, String>) -> (r: FetchResult)
    ensures
        r@ == (match text {
            Ok(body) => FetchView {
                body: body@,
                content_type: type_of_extension(lowercase_of(after_last(path@, '.'))),
                url: url@,
                status: 200,
            },
            Err(e) => FetchView {
                body: "Error reading file: "@ + e@,
                content_type: "text/plain"@,
                url: url@,
                status: 404,
            },
        }),
{
    match text {
        Ok(body) => FetchResult {
            body,
            content_type: guess_content_type(path),
            url: url.to_string(),
            status: 200,
        },
        Err(e) => FetchResult {
            body: concat("Error reading file: ", e.as_str()),
            content_type: "text/plain".to_string(),
            url: url.to_string(),
            status: 404,
        },
    }
}

/// The page of a request that failed.
pub fn error_result(url: &str, error: &str) -> (r: FetchResult)
    ensures
        r@ == (FetchView {
            body: "Error: "@ + error@,
            content_type: "text/plain"@,
            url: normalized(url@),
            status: 0,
        }),
{
    FetchResult {
        body: concat("Error: ", error),
        content_type: "text/plain".to_string(),
        url: normalize_url(url),
        status: 0,
    }
}

} // verus!
