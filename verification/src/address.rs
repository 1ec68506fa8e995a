//! Addresses: what a user typed, what a page refers to, and where an image is kept.

use vstd::prelude::*;
use vstd::utf8::encode_utf8;
use crate::number::{hex_char, hex_digit};
use crate::text::{
    chars_of, concat, cut, has_char, lemma_replaced_lacks, replace_char, replaced, same, split_once, starts, starts_with,
    string_of, trim, trimmed,
};

verus! {

// --- Parsed addresses ---

/// The parts of an absolute address that the browser reads.
pub struct UrlParts {
    pub scheme: String,
    pub host: Option<String>,
    pub path: String,
    pub query: Option<String>,
}

pub struct UrlView {
    pub scheme: Seq<char>,
    pub host: Option<Seq<char>>,
    pub path: Seq<char>,
    pub query: Option<Seq<char>>,
}

pub open spec fn opt_text(s: Option<String>) -> Option<Seq<char>> {
    match s {
        Some(s) => Some(s@),
        None => None,
    }
}

impl View for UrlParts {
    type V = UrlView;

    open spec fn view(&self) -> UrlView {
        UrlView {
            scheme: self.scheme@,
            host: opt_text(self.host),
            path: self.path@,
            query: opt_text(self.query),
        }
    }
}

/// The parts that `url::Url::parse` finds in an address, `None` where it finds an error.
pub uninterp spec fn url_parsed(url: Seq<char>) -> Option<UrlView>;

/// `url::Url::parse` accepts or refuses an address by the address alone; the parts are
/// those that `scheme`, `host_str`, `path` and `query` give of the parsed address.
#[verifier::external_body]
pub(crate) fn parse_url(url: &str) -> (r: Option<UrlParts>)
    ensures
        match r {
            Some(p) => url_parsed(url@) == Some(p@),
            None => url_parsed(url@) is None,
        },
{
    let u = url::Url::parse(url).ok()?;
    Some(UrlParts {
        scheme: u.scheme().to_string(),
        host: u.host_str().map(String::from),
        path: u.path().to_string(),
        query: u.query().map(String::from),
    })
}

/// The address that `url::Url::join` makes of `href` on the page `base`, `None` where
/// `base` is no address or the two do not join.
pub uninterp spec fn url_joined(base: Seq<char>, href: Seq<char>) -> Option<Seq<char>>;

/// `url::Url::join` resolves `href` against `base` by the two texts alone.
#[verifier::external_body]
pub(crate) fn join_url(base: &str, href: &str) -> (r: Option<String>)
    ensures
        opt_text(r) == url_joined(base@, href@),
{
    let u = url::Url::parse(base).ok()?;
    Some(u.join(href).ok()?.to_string())
}

/// The host of an address, empty where it has none.
pub open spec fn host_in(u: Option<UrlView>) -> Seq<char> {
    match u {
        Some(UrlView { host: Some(h), .. }) => h,
        _ => Seq::empty(),
    }
}

pub fn host_part(u: Option<UrlParts>) -> (r: String)
    ensures
        r@ == host_in(match u {
            Some(p) => Some(p@),
            None => None,
        }),
{
    match u {
        Some(p) => match p.host {
            Some(h) => h,
            None => String::new(),
        },
        None => String::new(),
    }
}

/// The host of `url`, empty where `url` is no address or has no host.
pub fn host_of(url: &str) -> (r: String)
    ensures
        r@ == host_in(url_parsed(url@)),
{
    host_part(parse_url(url))
}

// --- References ---

/// Whether a reference names a page by itself.
pub open spec fn is_absolute(href: Seq<char>) -> bool {
    starts(href, "http://"@) || starts(href, "https://"@) || starts(href, "file://"@)
}

/// The address that `href` stands for, where `joined` is what joining it to the page's
/// address gave.
pub open spec fn resolved(href: Seq<char>, joined: Option<Seq<char>>) -> Seq<char> {
    if is_absolute(href) {
        href
    } else if starts(href, "//"@) {
        "https:"@ + href
    } else {
        match joined {
            Some(u) => u,
            None => href,
        }
    }
}

pub fn resolve_joined(href: &str, joined: Option<String>) -> (r: String)
    ensures
        r@ == resolved(href@, opt_text(joined)),
{
    if starts_with(href, "http://") || starts_with(href, "https://") || starts_with(
        href,
        "file://",
    ) {
        return href.to_string();
    }
    if starts_with(href, "//") {
        return concat("https:", href);
    }
    match joined {
        Some(u) => u,
        None => href.to_string(),
    }
}

/// The address that `href` stands for on the page `base`.
pub fn resolve_url(base: &str, href: &str) -> (r: String)
    ensures
        r@ == resolved(href@, url_joined(base@, href@)),
{
    resolve_joined(href, join_url(base, href))
}

/// The address of a script: as for a link, but `file:` references are joined too.
pub open spec fn script_address(href: Seq<char>, joined: Option<Seq<char>>) -> Seq<char> {
    if starts(href, "http://"@) || starts(href, "https://"@) {
        href
    } else if starts(href, "//"@) {
        "https:"@ + href
    } else {
        match joined {
            Some(u) => u,
            None => href,
        }
    }
}

pub fn absolute_joined(href: &str, joined: Option<String>) -> (r: String)
    ensures
        r@ == script_address(href@, opt_text(joined)),
{
    if starts_with(href, "http://") || starts_with(href, "https://") {
        return href.to_string();
    }
    if starts_with(href, "//") {
        return concat("https:", href);
    }
    match joined {
        Some(u) => u,
        None => href.to_string(),
    }
}

pub fn absolute_url(base: &str, href: &str) -> (r: String)
    ensures
        r@ == script_address(href@, url_joined(base@, href@)),
{
    absolute_joined(href, join_url(base, href))
}

/// A link that names its page by itself is resolved to itself, whatever page it stands on.
pub proof fn law_absolute_unchanged(href: Seq<char>, joined: Option<Seq<char>>)
    requires
        is_absolute(href),
    ensures
        resolved(href, joined) == href,
{
}

// --- Percent encoding ---

/// Whether a byte stands for itself in a query.
pub open spec fn is_plain_byte(b: u8) -> bool {
    ||| 65 <= b <= 90
    ||| 97 <= b <= 122
    ||| 48 <= b <= 57
    ||| b == 45
    ||| b == 95
    ||| b == 46
    ||| b == 126
}

pub open spec fn encoded_byte(b: u8) -> Seq<char> {
    if is_plain_byte(b) {
        seq![b as char]
    } else if b == 32 {
        seq!['+']
    } else {
        seq!['%', hex_char(b as int / 16), hex_char(b as int % 16)]
    }
}

pub open spec fn encoded(bytes: Seq<u8>) -> Seq<char>
    decreases bytes.len(),
{
    if bytes.len() == 0 {
        Seq::empty()
    } else {
        encoded(bytes.drop_last()) + encoded_byte(bytes.last())
    }
}

/// The form in which a text stands in a query.
pub fn urlencoding(s: &str) -> (r: String)
    ensures
        r@ == encoded(encode_utf8(s@)),
{
    let bytes = s.as_bytes();
    let mut result = String::new();
    for i in 0..bytes.len()
        invariant
            result@ == encoded(bytes@.take(i as int)),
    {
        let b = bytes[i];
        let ghost t = bytes@.take(i + 1);
        assert(t.drop_last() =~= bytes@.take(i as int));
        assert(t.last() == b);
        let ghost before = result@;
        if (65 <= b && b <= 90) || (97 <= b && b <= 122) || (48 <= b && b <= 57) || b == 45 || b
            == 95 || b == 46 || b == 126 {
            result.push(b as char);
        } else if b == 32 {
            result.push('+');
        } else {
            result.push('%');
            result.push(hex_digit(b / 16));
            result.push(hex_digit(b % 16));
        }
        assert(result@ =~= before + encoded_byte(b));
    }
    assert(bytes@.take(bytes@.len() as int) =~= bytes@);
    result
}

pub open spec fn is_query_char(c: char) -> bool {
    ||| 'A' <= c <= 'Z'
    ||| 'a' <= c <= 'z'
    ||| '0' <= c <= '9'
    ||| c == '-' || c == '_' || c == '.' || c == '~' || c == '+' || c == '%'
}

/// An encoded text holds letters, digits and `-_.~+%` only, so it ends neither a query
/// parameter nor a query.
pub proof fn law_encoded_chars(bytes: Seq<u8>)
    ensures
        forall|i: int| 0 <= i < encoded(bytes).len() ==> is_query_char(#[trigger] encoded(bytes)[i]),
    decreases bytes.len(),
{
    if bytes.len() > 0 {
        law_encoded_chars(bytes.drop_last());
        let a = encoded(bytes.drop_last());
        let b = encoded_byte(bytes.last());
        assert forall|i: int| 0 <= i < encoded(bytes).len() implies is_query_char(
            #[trigger] encoded(bytes)[i],
        ) by {
            if i < a.len() {
                assert(encoded(bytes)[i] == a[i]);
            } else {
                assert(encoded(bytes)[i] == b[i - a.len()]);
            }
        }
    }
}

/// Two texts with one encoding are one text: encoding loses nothing.
pub proof fn law_encoded_injective(a: Seq<u8>, b: Seq<u8>)
    requires
        encoded(a) == encoded(b),
    ensures
        a == b,
    decreases a.len() + b.len(),
{
    if a.len() == 0 {
        lemma_encoded_longer(b);
        assert(a =~= b);
    } else if b.len() == 0 {
        lemma_encoded_longer(a);
    } else {
        let x = encoded(a.drop_last());
        let y = encoded(b.drop_last());
        let p = encoded_byte(a.last());
        let q = encoded_byte(b.last());
        let e = encoded(a);
        assert(e == x + p && e == y + q);
        lemma_encoded_tail(a.drop_last());
        lemma_encoded_tail(b.drop_last());
        assert(e.last() == p.last() && e.last() == q.last());
        if p.len() != q.len() {
            let s = if p.len() == 1 {
                x
            } else {
                y
            };
            assert(p.len() == 1 || p.len() == 3);
            assert(q.len() == 1 || q.len() == 3);
            assert(e[e.len() - 3] == '%');
            assert(s[s.len() - 2] == e[e.len() - 3]);
        } else {
            assert(x =~= y) by {
                assert(x =~= e.take(x.len() as int));
                assert(y =~= e.take(y.len() as int));
            }
            assert(p =~= q) by {
                assert(p =~= e.skip(x.len() as int));
                assert(q =~= e.skip(y.len() as int));
            }
            law_encoded_injective(a.drop_last(), b.drop_last());
            lemma_byte(a.last(), b.last());
            assert(a =~= a.drop_last().push(a.last()));
            assert(b =~= b.drop_last().push(b.last()));
        }
    }
}

proof fn lemma_byte(a: u8, b: u8)
    requires
        encoded_byte(a) == encoded_byte(b),
    ensures
        a == b,
{
    let p = encoded_byte(a);
    let q = encoded_byte(b);
    assert(p.len() == q.len());
    assert(p[0] == q[0]);
    if p.len() == 3 {
        assert(p[1] == q[1] && p[2] == q[2]);
        assert(a as int / 16 == b as int / 16);
        assert(a as int % 16 == b as int % 16);
        assert(a == 16 * (a as int / 16) + a as int % 16);
        assert(b == 16 * (b as int / 16) + b as int % 16);
    } else {
        assert(is_plain_byte(a) ==> p[0] as u8 == a);
        assert(is_plain_byte(b) ==> q[0] as u8 == b);
        assert('+' as u8 == 43);
    }
}

proof fn lemma_encoded_longer(a: Seq<u8>)
    ensures
        encoded(a).len() >= a.len(),
    decreases a.len(),
{
    if a.len() > 0 {
        lemma_encoded_longer(a.drop_last());
    }
}

/// A percent sign is followed by two characters that are none.
proof fn lemma_encoded_tail(a: Seq<u8>)
    ensures
        ({
            let e = encoded(a);
            &&& e.len() >= 1 ==> e[e.len() - 1] != '%'
            &&& e.len() >= 2 ==> e[e.len() - 2] != '%'
        }),
    decreases a.len(),
{
    if a.len() > 0 {
        lemma_encoded_tail(a.drop_last());
        let x = encoded(a.drop_last());
        let p = encoded_byte(a.last());
        let e = encoded(a);
        assert(e[e.len() - 1] == p[p.len() - 1]);
        if p.len() == 1 {
            if e.len() >= 2 {
                assert(e[e.len() - 2] == x[x.len() - 1]);
            }
        } else {
            assert(e[e.len() - 2] == p[1]);
        }
    }
}

// --- What the user typed ---

/// The engine that a search asks for and the words to search.
pub open spec fn engine_and_query(input: Seq<char>, default_engine: Seq<char>) -> (
    Seq<char>,
    Seq<char>,
) {
    match split_once(input, ' ') {
        Some((head, rest)) => if head == "g"@ || head == "ddg"@ || head == "w"@ {
            (head, rest)
        } else {
            (default_engine, input)
        },
        None => (default_engine, input),
    }
}

pub open spec fn engine_address(engine: Seq<char>) -> Seq<char> {
    if engine == "ddg"@ {
        "https://duckduckgo.com/?q="@
    } else if engine == "w"@ {
        "https://en.wikipedia.org/wiki/Special:Search?search="@
    } else {
        "https://www.google.com/search?q="@
    }
}

/// Whether the user typed an address in full.
pub open spec fn is_address(input: Seq<char>) -> bool {
    is_absolute(input) || starts(input, "about:"@)
}

pub open spec fn search_target(typed: Seq<char>, default_engine: Seq<char>) -> Seq<char> {
    let input = trim(typed);
    if is_address(input) {
        input
    } else if input.contains('.') && !input.contains(' ') {
        "https://"@ + input
    } else {
        let (engine, query) = engine_and_query(input, default_engine);
        engine_address(engine) + encoded(encode_utf8(query))
    }
}

/// The address that the user's input leads to.
pub fn resolve_search(input: &str, default_engine: &str) -> (r: String)
    ensures
        r@ == search_target(input@, default_engine@),
{
    let typed = trimmed(input);
    let input: &str = typed.as_str();
    if starts_with(input, "http://") || starts_with(input, "https://") || starts_with(
        input,
        "file://",
    ) || starts_with(input, "about:") {
        return input.to_string();
    }
    if has_char(input, '.') && !has_char(input, ' ') {
        return concat("https://", input);
    }
    let (engine, query) = match cut(&chars_of(input), ' ') {
        Some((head, rest)) => {
            let head = string_of(&head);
            if same(head.as_str(), "g") || same(head.as_str(), "ddg") || same(head.as_str(), "w") {
                (head, string_of(&rest))
            } else {
                (default_engine.to_string(), input.to_string())
            }
        },
        None => (default_engine.to_string(), input.to_string()),
    };
    let base = if same(engine.as_str(), "ddg") {
        "https://duckduckgo.com/?q="
    } else if same(engine.as_str(), "w") {
        "https://en.wikipedia.org/wiki/Special:Search?search="
    } else {
        "https://www.google.com/search?q="
    };
    concat(base, urlencoding(query.as_str()).as_str())
}

/// An address that is typed in full is opened as it is, whatever the search engine.
pub proof fn law_address_opened(typed: Seq<char>, default_engine: Seq<char>)
    requires
        is_address(trim(typed)),
    ensures
        search_target(typed, default_engine) == trim(typed),
{
}

// --- The image cache ---

pub open spec fn image_path(src: Seq<char>) -> Seq<char> {
    "/tmp/scroll_img_"@ + replaced(replaced(replaced(src, '/', "_"@), ':', "_"@), '?', "_"@)
}

/// The image cache is flat: what follows the prefix of a path holds no `/`, `:` or `?`.
pub proof fn law_image_path_flat(src: Seq<char>)
    ensures
        ({
            let prefix = "/tmp/scroll_img_"@;
            let name = image_path(src).skip(prefix.len() as int);
            &&& image_path(src) == prefix + name
            &&& !name.contains('/') && !name.contains(':') && !name.contains('?')
        }),
{
    reveal_strlit("_");
    let one = replaced(src, '/', "_"@);
    let two = replaced(one, ':', "_"@);
    let three = replaced(two, '?', "_"@);
    lemma_replaced_lacks(src, '/', "_"@, '/');
    lemma_replaced_lacks(one, ':', "_"@, '/');
    lemma_replaced_lacks(one, ':', "_"@, ':');
    lemma_replaced_lacks(two, '?', "_"@, '/');
    lemma_replaced_lacks(two, '?', "_"@, ':');
    lemma_replaced_lacks(two, '?', "_"@, '?');
    assert(image_path(src).skip("/tmp/scroll_img_"@.len() as int) =~= three);
}

/// The file in which the image at `src` is kept.
pub fn img_cache_path(src: &str) -> (r: String)
    ensures
        r@ == image_path(src@),
{
    let a = replace_char(src, '/', "_");
    let b = replace_char(a.as_str(), ':', "_");
    let c = replace_char(b.as_str(), '?', "_");
    concat("/tmp/scroll_img_", c.as_str())
}

} // verus!
