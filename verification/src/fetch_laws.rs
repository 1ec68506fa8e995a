//! What holds of every page that is asked for and of every response.

use vstd::prelude::*;
use crate::cookies::{
    cookie_pair, cookie_texts, cookies_of, cookies_set, domains, request_cookies, CookieViews,
    JarView,
};
use crate::fetcher::{
    active_jar, cookies_replaced, cookies_stored, header_for, is_plan, received, response_result,
    set_activated, set_renamed, type_of_extension, FetchPlan, FetcherView, Response,
};
use crate::page_laws::lemma_joined_part;
use crate::render_laws::has_part;
use crate::strmap::{law_put_lookup, lookup};
use crate::text::{
    is_white, lemma_first_where, lemma_next_char, next_char, next_nonwhite, starts, trim, trim_left,
    trimmed_end,
};

verus! {

broadcast use vstd::string::group_string_axioms;

// --- Responses ---

/// A page is what the response says it is: its text, its address, its status, and the type
/// that the server gave, or markup where it gave none.
pub proof fn law_response_as_sent(resp: Response)
    ensures
        ({
            let r = response_result(resp);
            &&& r.body == resp.body@
            &&& r.url == resp.url@
            &&& r.status == resp.status
            &&& resp.content_type matches Some(t) ==> r.content_type == t@
            &&& resp.content_type is None ==> r.content_type == "text/html"@
        }),
{
}

/// What is not a whole answer to a plain request for a page leaves the cache as it was.
pub proof fn law_not_cached(
    f: FetcherView,
    url: Seq<char>,
    method: Seq<char>,
    has_params: bool,
    resp: Response,
)
    requires
        method != "GET"@ || has_params || resp.status != 200,
    ensures
        received(f, url, method, has_params, resp).cache == f.cache,
        received(f, url, method, has_params, resp).cache_order == f.cache_order,
{
}

/// A whole answer to a plain request is kept under the address that was asked for, with
/// the text and the type that came.
pub proof fn law_answer_kept(f: FetcherView, url: Seq<char>, resp: Response)
    requires
        crate::fetcher::well_formed(f),
        resp.status == 200,
    ensures
        ({
            let kept = lookup(received(f, url, "GET"@, false, resp).cache, url);
            &&& kept is Some
            &&& kept->0.body == resp.body@
            &&& kept->0.url == resp.url@
            &&& kept->0.status == 200
            &&& resp.content_type matches Some(t) ==> kept->0.content_type == t@
        }),
{
    crate::fetcher::law_received_is_cached(f, url, resp);
}

proof fn lemma_cookies_set(m: CookieViews, raws: Seq<Seq<char>>, k: int)
    requires
        0 <= k < raws.len(),
        cookie_pair(raws[k]) is Some,
        forall|j: int|
            k < j < raws.len() ==> (cookie_pair(#[trigger] raws[j]) matches Some(c) ==> c.0
                != (cookie_pair(raws[k])->0).0),
    ensures
        lookup(cookies_set(m, raws), (cookie_pair(raws[k])->0).0) == Some(
            (cookie_pair(raws[k])->0).1,
        ),
    decreases raws.len(),
{
    let d = raws.drop_last();
    let (name, value) = cookie_pair(raws[k])->0;
    let before = cookies_set(m, d);
    if let Some((n, v)) = cookie_pair(raws.last()) {
        law_put_lookup(before, n, v, name);
    }
    if k < raws.len() - 1 {
        assert(d[k] == raws[k]);
        assert forall|j: int| k < j < d.len() implies (cookie_pair(#[trigger] d[j]) matches Some(
            c,
        ) ==> c.0 != (cookie_pair(d[k])->0).0) by {
            assert(d[j] == raws[j]);
        }
        lemma_cookies_set(m, d, k);
        assert(raws[raws.len() - 1] == raws.last());
    }
}

/// Every cookie that a response sets, not the first alone, goes into the jar of the active
/// set under the response's host; of two with one name it is the last.
pub proof fn law_every_cookie_stored(f: FetcherView, host: Seq<char>, raws: Seq<Seq<char>>, k: int)
    requires
        crate::fetcher::well_formed(f),
        0 <= k < raws.len(),
        cookie_pair(raws[k]) is Some,
        forall|j: int|
            k < j < raws.len() ==> (cookie_pair(#[trigger] raws[j]) matches Some(c) ==> c.0
                != (cookie_pair(raws[k])->0).0),
    ensures
        lookup(
            cookies_of(active_jar(cookies_stored(f, Some(host), raws)), host),
            (cookie_pair(raws[k])->0).0,
        ) == Some((cookie_pair(raws[k])->0).1),
{
    let jar = active_jar(f);
    let own = cookies_of(jar, host);
    lemma_cookies_set(own, raws, k);
    let after = crate::cookies::response_stored(jar, host, raws);
    law_put_lookup(jar, host, cookies_set(own, raws), host);
    crate::fetcher::law_jars_well_formed(f, f.active_set, after, after);
}

// --- Requests ---

/// A page is answered from the cache exactly where it was asked for plainly and is there;
/// a local file is read; anything else is asked for, at its address, which is a secure one
/// where it names none, and posted only where that was asked.
pub proof fn law_plan(
    plan: FetchPlan,
    f: FetcherView,
    url: Seq<char>,
    method: Seq<char>,
    has_params: bool,
)
    requires
        is_plan(plan, f, url, method, has_params),
    ensures
        ({
            let known = method == "GET"@ && !has_params && lookup(f.cache, url) is Some;
            &&& plan is Cached <==> known
            &&& plan matches FetchPlan::Cached(r) ==> lookup(f.cache, url) == Some(r@)
            &&& plan matches FetchPlan::ReadFile(path) ==> url == "file://"@ + path@
            &&& !known && starts(url, "file://"@) ==> plan is ReadFile
            &&& plan matches FetchPlan::Request { url: u, post, cookie } ==> {
                &&& starts(url, "http://"@) || starts(url, "https://"@) ==> u@ == url
                &&& !starts(url, "http://"@) && !starts(url, "https://"@) ==> u@ == "https://"@
                    + url
                &&& post <==> method == "POST"@
                &&& cookie matches Some(c) ==> c@.len() > 0
            }
        }),
{
    reveal_strlit("file://");
    if let FetchPlan::ReadFile(path) = plan {
        assert(url =~= "file://"@ + url.skip(7)) by {
            assert(url.take(7) == "file://"@);
        }
    }
}

/// A request carries each cookie of its host and of the domains above it, as name and
/// value around `=`.
pub proof fn law_cookie_header(f: FetcherView, host: Seq<char>, k: int)
    requires
        0 <= k < request_cookies(active_jar(f), host).len(),
    ensures
        ({
            let (name, value) = request_cookies(active_jar(f), host)[k];
            has_part(header_for(f, Some(host)), name + "="@ + value)
        }),
{
    let m = request_cookies(active_jar(f), host);
    let all = cookie_texts(m);
    assert(all[k] == m[k].0 + "="@ + m[k].1);
    lemma_joined_part(all, "; "@, k);
}

/// A request carries the cookies of a domain above its host, where the host has none of
/// that name.
pub proof fn law_parent_cookie_sent(
    jar: JarView,
    label: Seq<char>,
    parent: Seq<char>,
    name: Seq<char>,
)
    requires
        !label.contains('.'),
        lookup(cookies_of(jar, label + seq!['.'] + parent), name) is None,
        lookup(cookies_of(jar, parent), name) is Some,
    ensures
        lookup(request_cookies(jar, label + seq!['.'] + parent), name) == lookup(
            cookies_of(jar, parent),
            name,
        ),
{
    let host = label + seq!['.'] + parent;
    lemma_next_char(host, '.', 0);
    let dot = next_char(host, '.', 0);
    assert(host[label.len() as int] == '.');
    assert(dot == label.len()) by {
        if dot < label.len() {
            assert(label[dot] == host[dot]);
            assert(label.contains('.'));
        }
    }
    assert(host.skip(dot + 1) =~= parent);
    let d = domains(host);
    assert(d == seq![host] + domains(parent));
    assert(d[0] == host);
    assert(domains(parent)[0] == parent);
    assert(d[1] == parent);
    crate::cookies::lemma_combined_second(jar, d, d.len() as int, name);
}

/// The cookie that a text sets is what stands before its first semicolon, around its first
/// sign of equality, without white space around name and value.
pub proof fn law_cookie_read(name: Seq<char>, value: Seq<char>, rest: Seq<char>)
    requires
        name.len() > 0,
        value.len() > 0,
        !name.contains(';') && !name.contains('='),
        !value.contains(';'),
        !is_white(name[0]) && !is_white(name.last()),
        !is_white(value[0]) && !is_white(value.last()),
        rest.len() > 0 ==> rest[0] == ';',
    ensures
        cookie_pair(name + seq!['='] + value + rest) == Some((name, value)),
{
    let pair = name + seq!['='] + value;
    let raw = pair + rest;
    lemma_next_char(raw, ';', 0);
    let e = next_char(raw, ';', 0);
    assert(e == pair.len()) by {
        if e < pair.len() {
            if e < name.len() {
                assert(name[e] == ';');
            } else if e > name.len() {
                assert(value[e - name.len() - 1] == ';');
            }
        }
        if rest.len() > 0 {
            assert(raw[pair.len() as int] == ';');
        }
    }
    assert(raw.take(e) =~= pair);
    lemma_trim_tight(pair);
    lemma_next_char(pair, '=', 0);
    let q = next_char(pair, '=', 0);
    assert(pair[name.len() as int] == '=');
    assert(q == name.len()) by {
        if q < name.len() {
            assert(name[q] == '=');
        }
    }
    assert(pair.take(q) =~= name);
    assert(pair.skip(q + 1) =~= value);
    lemma_trim_tight(name);
    lemma_trim_tight(value);
}

/// A text without white space at its ends is trimmed already.
pub proof fn lemma_trim_tight(s: Seq<char>)
    requires
        s.len() > 0,
        !is_white(s[0]),
        !is_white(s.last()),
    ensures
        trim(s) == s,
{
    lemma_first_where(s, |x: char| !is_white(x), 0);
    assert(next_nonwhite(s, 0) == 0);
    assert(trim_left(s) =~= s);
    assert(trimmed_end(s, s.len() as int) == s.len());
    assert(s.take(s.len() as int) =~= s);
}

/// A text that holds no sign of equality before its first semicolon sets no cookie.
pub proof fn law_no_cookie(raw: Seq<char>)
    requires
        !raw.contains('='),
    ensures
        cookie_pair(raw) is None,
{
    lemma_next_char(raw, ';', 0);
    let t = raw.take(next_char(raw, ';', 0));
    let s = trim(t);
    let q = next_char(s, '=', 0);
    lemma_next_char(s, '=', 0);
    lemma_first_where(t, |x: char| !is_white(x), 0);
    let a = next_nonwhite(t, 0);
    crate::text::lemma_trimmed_end_bound(trim_left(t), trim_left(t).len() as int);
    if q < s.len() {
        assert(trim_left(t)[q] == t[a + q]);
        assert(raw[a + q] == '=');
        assert(raw.contains('='));
    }
}

// --- Local files ---

/// The type of a local file goes by the end of its name; what is not known is markup.
pub proof fn law_extensions(ext: Seq<char>)
    ensures
        type_of_extension("txt"@) == "text/plain"@,
        type_of_extension("json"@) == "application/json"@,
        type_of_extension("xml"@) == "application/xml"@,
        type_of_extension("css"@) == "text/css"@,
        type_of_extension("js"@) == "application/javascript"@,
        type_of_extension("png"@) == "image/png"@,
        type_of_extension("jpg"@) == "image/jpeg"@,
        type_of_extension("jpeg"@) == "image/jpeg"@,
        type_of_extension("gif"@) == "image/gif"@,
        type_of_extension("svg"@) == "image/svg+xml"@,
        type_of_extension("pdf"@) == "application/pdf"@,
        type_of_extension("html"@) == "text/html"@,
        type_of_extension("htm"@) == "text/html"@,
        ext != "txt"@
            && ext != "json"@
            && ext != "xml"@
            && ext != "css"@
            && ext != "js"@
            && ext != "png"@
            && ext != "jpg"@
            && ext != "jpeg"@
            && ext != "gif"@
            && ext != "svg"@
            && ext != "pdf"@ ==> type_of_extension(ext) == "text/html"@,
{
    reveal_strlit("txt");
    reveal_strlit("json");
    reveal_strlit("xml");
    reveal_strlit("css");
    reveal_strlit("js");
    reveal_strlit("png");
    reveal_strlit("jpg");
    reveal_strlit("jpeg");
    reveal_strlit("gif");
    reveal_strlit("svg");
    reveal_strlit("pdf");
    reveal_strlit("html");
    reveal_strlit("htm");
    assert("txt"@.len() == 3);
    assert("txt"@[0] == 't');
    assert("json"@.len() == 4);
    assert("json"@[0] == 'j');
    assert("json"@[1] == 's');
    assert("xml"@.len() == 3);
    assert("xml"@[0] == 'x');
    assert("css"@.len() == 3);
    assert("css"@[0] == 'c');
    assert("js"@.len() == 2);
    assert("png"@.len() == 3);
    assert("png"@[0] == 'p');
    assert("png"@[1] == 'n');
    assert("jpg"@.len() == 3);
    assert("jpg"@[0] == 'j');
    assert("jpeg"@.len() == 4);
    assert("jpeg"@[0] == 'j');
    assert("jpeg"@[1] == 'p');
    assert("gif"@.len() == 3);
    assert("gif"@[0] == 'g');
    assert("svg"@.len() == 3);
    assert("svg"@[0] == 's');
    assert("pdf"@.len() == 3);
    assert("pdf"@[0] == 'p');
    assert("pdf"@[1] == 'd');
    assert("html"@.len() == 4);
    assert("html"@[0] == 'h');
    assert("htm"@.len() == 3);
    assert("htm"@[0] == 'h');
}

// --- Sets ---

/// A set that is made active serves requests with the jar that it has, or with the one that
/// was loaded for it where it has none; the jars of the other sets stay.
pub proof fn law_set_activated(f: FetcherView, set: Seq<char>, loaded: JarView, other: Seq<char>)
    ensures
        ({
            let g = set_activated(f, set, loaded);
            &&& g.active_set == set
            &&& f.active_set != set && lookup(f.jars, set) is None ==> active_jar(g) == loaded
            &&& lookup(f.jars, set) matches Some(j) ==> active_jar(g) == j
            &&& other != set ==> lookup(g.jars, other) == lookup(f.jars, other)
            &&& g.cache == f.cache
        }),
{
    law_put_lookup(f.jars, set, loaded, other);
    law_put_lookup(f.jars, set, loaded, set);
}

/// A renamed set that was active is active under its new name.
pub proof fn law_renamed_active(f: FetcherView, old_name: Seq<char>, new_name: Seq<char>)
    ensures
        f.active_set == old_name ==> set_renamed(f, old_name, new_name).active_set == new_name,
        f.active_set != old_name ==> set_renamed(f, old_name, new_name).active_set == f.active_set,
{
}

/// The cookies of a host are replaced as a whole, and those of other hosts stay.
pub proof fn law_cookies_replaced(
    jar: JarView,
    host: Seq<char>,
    cookies: CookieViews,
    other: Seq<char>,
)
    ensures
        cookies_of(cookies_replaced(jar, host, cookies), host) == cookies,
        other != host ==> cookies_of(cookies_replaced(jar, host, cookies), other) == cookies_of(
            jar,
            other,
        ),
{
    law_put_lookup(jar, host, cookies, other);
    law_put_lookup(jar, host, cookies, host);
    crate::strmap::law_without_lookup(jar, host, other);
    crate::strmap::law_without_lookup(jar, host, host);
    if cookies.len() == 0 {
        assert(cookies =~= Seq::empty());
    }
}

} // verus!
