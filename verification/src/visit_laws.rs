//! Where input leads, and what a tab then shows.

use vstd::prelude::*;
use vstd::utf8::encode_utf8;
use crate::address::{encoded, encoded_byte, resolved, script_address, search_target};
use crate::config::ConfigView;
use crate::fetcher::FetchView;
use crate::js::JsResultView;
use crate::pages::{
    binary_page, down, download_file, fetched_page, focused_address, follows, home_text,
    image_page, key_hint, last_position, less_by, loaded_page, next_focus, own_page, prev_focus,
    rendered_page, scripts_taken, target, Destination,
};
use crate::render_laws::{has_part, lemma_part_in, lemma_part_of_part};
use crate::renderer::{parsed_page, rendered, visible_markup, ResultView};
use crate::style::{emboldened, painted};
use crate::tab::{navigated, LinkView, TabView};
use crate::text::{
    after_last, lemma_find_text, lemma_next_char, next_char, repeated, stands_at, starts, trim,
};

verus! {

broadcast use vstd::string::group_string_axioms;

// --- Addresses ---

/// A link is a page by itself, lies on a host that it names, or is seen from its page.
pub proof fn law_link_resolved(href: Seq<char>, joined: Option<Seq<char>>)
    ensures
        ({
            let whole = starts(href, "http://"@) || starts(href, "https://"@) || starts(
                href,
                "file://"@,
            );
            &&& whole ==> resolved(href, joined) == href
            &&& !whole && starts(href, "//"@) ==> resolved(href, joined) == "https:"@ + href
            &&& !whole && !starts(href, "//"@) ==> (joined matches Some(u) ==> resolved(
                href,
                joined,
            ) == u)
            &&& !whole && !starts(href, "//"@) && joined is None ==> resolved(href, joined) == href
        }),
{
}

/// What a script asks for is found as a link is, but that a local file is none of its own.
pub proof fn law_script_address(href: Seq<char>, joined: Option<Seq<char>>)
    ensures
        starts(href, "http://"@) || starts(href, "https://"@) ==> script_address(href, joined)
            == href,
        starts(href, "//"@) ==> script_address(href, joined) == "https:"@ + href,
        !starts(href, "http://"@) && !starts(href, "https://"@) && !starts(href, "//"@) ==> (
        joined matches Some(u) ==> script_address(href, joined) == u),
{
    reveal_strlit("http://");
    reveal_strlit("https://");
    reveal_strlit("//");
    assert("http://"@[0] == 'h' && "https://"@[0] == 'h' && "//"@[0] == '/');
    if starts(href, "//"@) {
        assert(href[0] == '/') by {
            assert(href.take(2)[0] == href[0]);
        }
        if starts(href, "http://"@) {
            assert(href.take(7)[0] == href[0]);
        }
        if starts(href, "https://"@) {
            assert(href.take(8)[0] == href[0]);
        }
    }
}

/// The address of a search: by the name of the engine, the last one where it is unknown.
pub open spec fn searched(engine: Seq<char>, query: Seq<char>) -> Seq<char> {
    if engine == "ddg"@ {
        "https://duckduckgo.com/?q="@ + encoded(encode_utf8(query))
    } else if engine == "w"@ {
        "https://en.wikipedia.org/wiki/Special:Search?search="@ + encoded(encode_utf8(query))
    } else {
        "https://www.google.com/search?q="@ + encoded(encode_utf8(query))
    }
}

/// What the user types is opened where it is an address, opened as a host where it has a
/// dot and no space, and else searched for: behind the name of an engine with that engine,
/// else with the one of the settings.
pub proof fn law_typed(
    typed: Seq<char>,
    engine: Seq<char>,
    default_engine: Seq<char>,
    query: Seq<char>,
)
    ensures
        ({
            let input = trim(typed);
            let to = search_target(typed, default_engine);
            let whole = starts(input, "http://"@) || starts(input, "https://"@) || starts(
                input,
                "file://"@,
            ) || starts(input, "about:"@);
            let host = input.contains('.') && !input.contains(' ');
            &&& whole ==> to == input
            &&& !whole && host ==> to == "https://"@ + input
            &&& !whole && !host && input == engine + seq![' '] + query && (engine == "g"@ || engine
                == "ddg"@ || engine == "w"@) ==> to == searched(engine, query)
            &&& !whole && !host && !input.contains(' ') ==> to == searched(default_engine, input)
            &&& !whole && !host && input == engine + seq![' '] + query && !engine.contains(' ')
                && engine != "g"@ && engine != "ddg"@ && engine != "w"@ ==> to == searched(
                default_engine,
                input,
            )
        }),
{
    let input = trim(typed);
    reveal_strlit("g");
    reveal_strlit("ddg");
    reveal_strlit("w");
    lemma_next_char(input, ' ', 0);
    let e = next_char(input, ' ', 0);
    if !input.contains(' ') {
        assert(e == input.len()) by {
            if e < input.len() {
                assert(input[e] == ' ');
            }
        }
    }
    if input == engine + seq![' '] + query && !engine.contains(' ') {
        lemma_head(input, engine, query);
    }
    if input == engine + seq![' '] + query && (engine == "g"@ || engine == "ddg"@ || engine
        == "w"@) {
        assert(!engine.contains(' ')) by {
            assert forall|i: int| 0 <= i < engine.len() implies engine[i] != ' ' by {
                assert("g"@[0] == 'g' && "ddg"@[0] == 'd' && "ddg"@[1] == 'd' && "ddg"@[2] == 'g'
                    && "w"@[0] == 'w');
            }
        }
        lemma_head(input, engine, query);
    }
}

proof fn lemma_head(input: Seq<char>, engine: Seq<char>, query: Seq<char>)
    requires
        input == engine + seq![' '] + query,
        !engine.contains(' '),
    ensures
        crate::text::split_once(input, ' ') == Some((engine, query)),
{
    lemma_next_char(input, ' ', 0);
    let e = next_char(input, ' ', 0);
    assert(input[engine.len() as int] == ' ');
    assert(e == engine.len()) by {
        if e < engine.len() {
            assert(engine[e] == ' ');
        }
    }
    assert(input.take(e) =~= engine);
    assert(input.skip(e + 1) =~= query);
}

/// The browser's own pages and mail are told from pages of the net.
pub proof fn law_destination(typed: Seq<char>, default_engine: Seq<char>)
    ensures
        trim(typed) == "about:home"@ ==> target(typed, default_engine) == (
            Destination::Home,
            "about:home"@,
        ),
        trim(typed) == "about:blank"@ ==> target(typed, default_engine) == (
            Destination::Blank,
            "about:blank"@,
        ),
        starts(trim(typed), "mailto:"@) ==> target(typed, default_engine).0 is Mail,
        starts(trim(typed), "https://"@) || starts(trim(typed), "http://"@) ==> target(
            typed,
            default_engine,
        ) == (Destination::Page, trim(typed)),
{
    reveal_strlit("about:home");
    reveal_strlit("about:blank");
    reveal_strlit("about:");
    reveal_strlit("mailto:");
    reveal_strlit("https://");
    reveal_strlit("http://");
    let t = trim(typed);
    assert("about:home"@.take(6) =~= "about:"@);
    assert("about:blank"@.take(6) =~= "about:"@);
    assert("about:home"@[0] == 'a' && "about:blank"@[0] == 'a' && "mailto:"@[0] == 'm');
    assert("https://"@[0] == 'h' && "http://"@[0] == 'h');
    assert("about:home"@.len() == 10 && "about:blank"@.len() == 11);
    if starts(t, "mailto:"@) {
        assert(t.take(7)[0] == t[0]);
    }
    if starts(t, "https://"@) {
        assert(t.take(8)[0] == t[0]);
    }
    if starts(t, "http://"@) {
        assert(t.take(7)[0] == t[0]);
    }
}

// --- Pages ---

/// A rendered page gives the tab its text, its title, its links, forms and images and its
/// colours, and changes nothing else.
pub proof fn law_rendered_page(t: TabView, r: ResultView)
    ensures
        ({
            let s = rendered_page(t, r);
            &&& s.content == r.text
            &&& s.title == r.title
            &&& s.links == r.links
            &&& s.forms == r.forms
            &&& s.images == r.images
            &&& s.site_bg == r.site_bg
            &&& s.site_fg == r.site_fg
            &&& s.url == t.url
            &&& s.ix == t.ix
            &&& s.back_history == t.back_history
            &&& s.forward_history == t.forward_history
            &&& s.js_scripts == t.js_scripts
        }),
{
}

proof fn lemma_html(content_type: Seq<char>)
    ensures
        crate::pages::is_html(content_type) <==> has_part(content_type, "html"@),
{
    reveal_strlit("text/html");
    reveal_strlit("html");
    lemma_find_text(content_type, "html"@, 0);
    if starts(content_type, "text/html"@) {
        assert(content_type.subrange(5, 9) =~= "html"@) by {
            assert(content_type.take(9) == "text/html"@);
            assert(content_type.take(9).subrange(5, 9) =~= "html"@);
            assert(content_type.take(9).subrange(5, 9) =~= content_type.subrange(5, 9));
        }
        assert(stands_at(content_type, "html"@, 5));
    }
    if has_part(content_type, "html"@) {
        let i = choose|i: int| stands_at(content_type, "html"@, i);
        assert(stands_at(content_type, "html"@, i));
    }
}

/// A page is shown by its type: an image as an image, markup rendered, what cannot be shown
/// as an offer to save it, and everything else as it came, to the last character.
pub proof fn law_shown_by_type(
    t: TabView,
    asked: Seq<char>,
    r: FetchView,
    width: int,
    page_lines: int,
    conf: ConfigView,
)
    ensures
        ({
            let s = fetched_page(t, asked, r, width, page_lines, conf);
            let ct = r.content_type;
            let image = starts(ct, "image/"@);
            let html = has_part(ct, "html"@);
            let binary = starts(ct, "application/pdf"@) || starts(ct, "application/zip"@) || starts(
                ct,
                "audio/"@,
            ) || starts(ct, "video/"@);
            let page = rendered(parsed_page(visible_markup(r.body)), width, r.url, conf);
            &&& image ==> s.images.len() == 1 && s.images[0].src == r.url && s.images[0].line == 0
                && s.url == r.url && has_part(s.content, r.url)
            &&& !image && html ==> {
                &&& s.content == page.text
                &&& s.title == page.title
                &&& s.links == page.links
                &&& s.forms == page.forms
                &&& s.images == page.images
                &&& s.site_bg == page.site_bg
                &&& s.site_fg == page.site_fg
                &&& s.url == r.url
            }
            &&& !image && !html && binary ==> {
                &&& has_part(s.content, ":download "@ + asked)
                &&& has_part(s.content, ct)
                &&& s.links == t.links
            }
            &&& !image && !html && !binary ==> s.content == r.body && s.title == asked
        }),
{
    let s = fetched_page(t, asked, r, width, page_lines, conf);
    let ct = r.content_type;
    lemma_html(ct);
    if starts(ct, "image/"@) {
        let head = s.content.take(s.content.len() - crate::style::painted(r.url, 245).len());
        let tail = crate::style::painted(r.url, 245);
        crate::render_laws::lemma_painted(r.url, 245);
        lemma_part_in(head, tail, Seq::empty());
        assert(head + tail + Seq::<char>::empty() =~= s.content);
        lemma_part_of_part(s.content, tail, r.url);
    }
    reveal_strlit("\n\nPress ':download ");
    reveal_strlit(":download ");
    let press = "\n\nPress ':download "@;
    let name = after_last(asked, '/');
    let offer = "\n"@ + crate::style::emboldened(name) + "\n\nType: "@ + ct + press + asked
        + "' to save"@;
    let before = "\n"@ + crate::style::emboldened(name) + "\n\nType: "@ + ct;
    assert(press.skip(9) =~= ":download "@);
    lemma_part_in(before + press.take(9), ":download "@ + asked, "' to save"@);
    assert(before + press.take(9) + (":download "@ + asked) + "' to save"@ =~= offer);
    lemma_part_in(
        "\n"@ + crate::style::emboldened(name) + "\n\nType: "@,
        ct,
        press + asked + "' to save"@,
    );
    assert("\n"@ + crate::style::emboldened(name) + "\n\nType: "@ + ct + (press + asked
        + "' to save"@) =~= offer);
}

/// A page that was loaded again or by a form is rendered where it is markup, and shown as
/// it came where it is not; the tab is where the page came from.
pub proof fn law_loaded(t: TabView, r: FetchView, width: int, conf: ConfigView)
    ensures
        ({
            let s = loaded_page(t, r, width, conf);
            let page = rendered(parsed_page(visible_markup(r.body)), width, r.url, conf);
            &&& s.url == r.url
            &&& has_part(r.content_type, "html"@) ==> {
                &&& s.content == page.text
                &&& s.title == page.title
                &&& s.links == page.links
                &&& s.forms == page.forms
                &&& s.images == page.images
            }
            &&& !has_part(r.content_type, "html"@) ==> s.content == r.body && s.title == t.title
            &&& s.back_history == t.back_history
            &&& s.forward_history == t.forward_history
        }),
{
    lemma_html(r.content_type);
}

/// A tab on its way has the new address, is at its top, and has nothing left of the page
/// that it leaves; where that was a page, it can go back to it.
pub proof fn law_navigated(t: TabView, url: Seq<char>)
    ensures
        ({
            let s = navigated(t, url);
            &&& s.url == url
            &&& s.ix == 0
            &&& s.links.len() == 0 && s.forms.len() == 0 && s.images.len() == 0
            &&& s.js_log.len() == 0
            &&& s.site_bg is None && s.site_fg is None
            &&& s.forward_history.len() == 0
            &&& t.url.len() > 0 && t.url != "about:blank"@ ==> s.back_history.len()
                == t.back_history.len() + 1 && s.back_history.last().url == t.url
                && s.back_history.last().ix == t.ix
            &&& t.url.len() == 0 || t.url == "about:blank"@ ==> s.back_history == t.back_history
        }),
{
}

/// A page of the browser's own has its text and its title, at its address.
pub proof fn law_own_page(t: TabView, url: Seq<char>, content: Seq<char>, title: Seq<char>)
    ensures
        ({
            let s = own_page(t, url, content, title);
            &&& s.url == url
            &&& s.content == content
            &&& s.title == title
            &&& s.ix == 0
            &&& s.links.len() == 0
        }),
{
}

/// The tab keeps what a run of scripts logged, the scripts and the page's markup, for the
/// submit to run them again.
pub proof fn law_scripts_kept(t: TabView, js: JsResultView, body: Seq<char>)
    ensures
        ({
            let s = scripts_taken(t, js, body);
            &&& s.js_log == js.log
            &&& s.js_scripts == js.scripts
            &&& s.raw_html == body
            &&& js.dom_values.len() > 0 ==> s.js_dom_values == js.dom_values
            &&& s.content == t.content
            &&& s.url == t.url
        }),
{
}

/// A download has the name that its address ends in, in its folder.
pub proof fn law_download_path(folder: Seq<char>, before: Seq<char>, name: Seq<char>)
    requires
        !name.contains('/'),
    ensures
        download_file(folder, before + seq!['/'] + name) == folder + "/"@ + name,
{
    lemma_after_last(before, name);
}

/// The last piece of a path.
pub proof fn lemma_after_last(before: Seq<char>, name: Seq<char>)
    requires
        !name.contains('/'),
    ensures
        after_last(before + seq!['/'] + name, '/') == name,
    decreases name.len(),
{
    let s = before + seq!['/'] + name;
    if name.len() == 0 {
        assert(s.last() == '/');
        assert(name =~= Seq::empty());
    } else {
        let d = name.drop_last();
        assert(s.drop_last() =~= before + seq!['/'] + d);
        assert(!d.contains('/')) by {
            if d.contains('/') {
                let k = choose|k: int| 0 <= k < d.len() && d[k] == '/';
                assert(name[k] == '/');
            }
        }
        assert(name[name.len() - 1] != '/');
        lemma_after_last(before, d);
        assert(d.push(s.last()) =~= name);
    }
}

/// A script's redirect is followed unless it is empty or leads to the same page.
pub proof fn law_redirect(url: Seq<char>, to: Seq<char>)
    ensures
        follows(url, to) <==> to.len() > 0 && to != url,
{
}

// --- Moving on the page ---

/// Scrolling down by `n` lines goes down by `n` lines, or to the last page.
pub proof fn law_down(ix: int, n: int, last: int)
    requires
        0 <= n,
    ensures
        ix + n <= last ==> down(ix, n, last) == ix + n,
        ix <= last < ix + n ==> down(ix, n, last) == last,
        last < ix ==> down(ix, n, last) == ix,
{
}

/// The first step reaches the first link, or the last one backwards; each further step the
/// link behind or before it, around the end.
pub proof fn law_focus(focus: Option<usize>, n: int)
    requires
        n > 0,
    ensures
        focus is None ==> next_focus(focus, n) == Some(0int) && prev_focus(focus, n) == Some(
            n - 1,
        ),
        focus matches Some(k) ==> {
            &&& k < n - 1 ==> next_focus(focus, n) == Some(k + 1)
            &&& k == n - 1 ==> next_focus(focus, n) == Some(0int)
            &&& 0 < k < n ==> prev_focus(focus, n) == Some(k - 1)
            &&& k == 0 ==> prev_focus(focus, n) == Some(n - 1)
        },
{
    if let Some(k) = focus {
        if k < n - 1 {
            assert((k + 1) % n == k + 1) by (nonlinear_arith)
                requires
                    0 <= k + 1 < n,
            ;
        }
        if k == n - 1 {
            assert((k + 1) % n == 0) by (nonlinear_arith)
                requires
                    k + 1 == n,
                    n > 0,
            ;
        }
    }
}

/// The link in focus is followed to its own address.
pub proof fn law_focused(links: Seq<LinkView>, k: usize)
    ensures
        k < links.len() ==> focused_address(links, Some(k)) == Some(links[k as int].href),
        k >= links.len() ==> focused_address(links, Some(k)) is None,
        focused_address(links, None) is None,
{
}

// --- Encoding ---

/// The value of a hexadecimal digit in capitals.
pub open spec fn digit_value(c: char) -> int {
    if '0' <= c <= '9' {
        c as int - 48
    } else if 'A' <= c <= 'F' {
        c as int - 55
    } else {
        -1
    }
}

/// In an encoded text letters, digits and `-`, `_`, `.`, `~` stand for themselves, `+` for a
/// space, and every other byte is a percent sign with its two digits.
pub proof fn law_encoded_byte(b: u8)
    ensures
        ({
            let t = encoded_byte(b);
            let plain = 65 <= b <= 90 || 97 <= b <= 122 || 48 <= b <= 57 || b == 45 || b == 95 || b
                == 46 || b == 126;
            &&& plain ==> t == seq![b as char]
            &&& b == 32 ==> t == seq!['+']
            &&& !plain && b != 32 ==> t.len() == 3 && t[0] == '%' && digit_value(t[1]) >= 0
                && digit_value(t[2]) >= 0 && 16 * digit_value(t[1]) + digit_value(t[2]) == b
        }),
{
}

/// A text is encoded byte by byte, in order.
pub proof fn law_encoded_joined(a: Seq<u8>, b: u8)
    ensures
        encoded(a.push(b)) == encoded(a) + encoded_byte(b),
        encoded(Seq::empty()).len() == 0,
{
    assert(a.push(b).drop_last() =~= a);
}

// --- Pages of the browser's own ---

/// Each of the pieces stands in the text.
pub open spec fn all_in(s: Seq<char>, pieces: Seq<Seq<char>>) -> bool {
    forall|i: int| 0 <= i < pieces.len() ==> has_part(s, #[trigger] pieces[i])
}

proof fn lemma_piece_behind(s: Seq<char>, pieces: Seq<Seq<char>>, x: Seq<char>)
    requires
        all_in(s, pieces),
    ensures
        all_in(s + x, pieces),
        all_in(s + x, pieces.push(x)),
{
    assert forall|i: int| 0 <= i < pieces.len() implies has_part(s + x, #[trigger] pieces[i]) by {
        lemma_part_in(Seq::empty(), s, x);
        assert(Seq::<char>::empty() + s + x =~= s + x);
        lemma_part_of_part(s + x, s, pieces[i]);
    }
    lemma_part_in(s, x, Seq::empty());
    assert(s + x + Seq::<char>::empty() =~= s + x);
}

/// The home page names the keys to begin with.
pub proof fn law_home_keys()
    ensures
        has_part(home_text(), painted("o"@, 220) + " Open URL   "@),
        has_part(home_text(), painted("t"@, 220) + " New tab   "@),
        has_part(home_text(), painted("?"@, 220) + " Help"@),
        has_part(home_text(), painted("b"@, 220) + " Bookmark   "@),
        has_part(home_text(), painted("B"@, 220) + " Bookmarks  "@),
        has_part(home_text(), painted("q"@, 220) + " Quit"@),
        has_part(home_text(), painted(":"@, 220) + " Command    "@),
        has_part(home_text(), painted("P"@, 220) + " Preferences"@),
{
    let end = "\n"@;
    let s0 = emboldened(painted("scroll"@, 81)) + "\n\nTerminal web browser\n\n"@;
    let none = Seq::<Seq<char>>::empty();
    let k0 = key_hint("o"@, " Open URL   "@);
    lemma_piece_behind(s0, none, k0);
    let s1 = s0 + k0;
    let p0 = none.push(k0);
    let k1 = key_hint("t"@, " New tab   "@);
    lemma_piece_behind(s1, p0, k1);
    let s2 = s1 + k1;
    let p1 = p0.push(k1);
    let k2 = key_hint("?"@, " Help"@);
    lemma_piece_behind(s2, p1, k2);
    let s3 = s2 + k2;
    let p2 = p1.push(k2);
    lemma_piece_behind(s3, p2, end);
    let s4 = s3 + end;
    let k3 = key_hint("b"@, " Bookmark   "@);
    lemma_piece_behind(s4, p2, k3);
    let s5 = s4 + k3;
    let p3 = p2.push(k3);
    let k4 = key_hint("B"@, " Bookmarks  "@);
    lemma_piece_behind(s5, p3, k4);
    let s6 = s5 + k4;
    let p4 = p3.push(k4);
    let k5 = key_hint("q"@, " Quit"@);
    lemma_piece_behind(s6, p4, k5);
    let s7 = s6 + k5;
    let p5 = p4.push(k5);
    lemma_piece_behind(s7, p5, end);
    let s8 = s7 + end;
    let k6 = key_hint(":"@, " Command    "@);
    lemma_piece_behind(s8, p5, k6);
    let s9 = s8 + k6;
    let p6 = p5.push(k6);
    let k7 = key_hint("P"@, " Preferences"@);
    lemma_piece_behind(s9, p6, k7);
    let s10 = s9 + k7;
    let p7 = p6.push(k7);
    lemma_piece_behind(s10, p7, end);
    let s11 = s10 + end;
    assert(home_text() == s11);
    assert(p7[0] == k0);
    assert(p7[1] == k1);
    assert(p7[2] == k2);
    assert(p7[3] == k3);
    assert(p7[4] == k4);
    assert(p7[5] == k5);
    assert(p7[6] == k6);
    assert(p7[7] == k7);
}

/// An image that is a page of its own is shown at the top of it, over its name and address.
pub proof fn law_image_page(t: TabView, url: Seq<char>, height: int)
    requires
        height >= 0,
    ensures
        ({
            let p = image_page(t, url, height);
            let name = after_last(url, '/');
            &&& p.url == url
            &&& p.title == name
            &&& p.images.len() == 1
            &&& p.images[0].src == url
            &&& p.images[0].alt == name
            &&& p.images[0].line == 0
            &&& p.images[0].height == height
            &&& p.content == repeated('\n', height as nat) + "\n"@ + painted(name, 81) + "\n"@
                + painted(url, 245)
            &&& p.back_history == t.back_history
            &&& p.forward_history == t.forward_history
        }),
{
}

/// A file that cannot be shown is named, with its type and the command that saves it.
pub proof fn law_file_offered(t: TabView, url: Seq<char>, content_type: Seq<char>)
    ensures
        ({
            let p = binary_page(t, url, content_type);
            let name = after_last(url, '/');
            &&& p.title == name
            &&& p.url == t.url
            &&& has_part(p.content, emboldened(name))
            &&& has_part(p.content, "\n\nType: "@ + content_type + "\n"@)
            &&& has_part(p.content, ":download "@ + url)
        }),
{
    let name = after_last(url, '/');
    let content = binary_page(t, url, content_type).content;
    let offer = "\n\nPress ':download "@ + url + "' to save"@;
    lemma_part_in("\n"@, emboldened(name), "\n\nType: "@ + content_type + offer);
    assert(content =~= "\n"@ + emboldened(name) + ("\n\nType: "@ + content_type + offer));
    reveal_strlit("\n\nPress ':download ");
    reveal_strlit("\n");
    reveal_strlit("\nPress '");
    reveal_strlit(":download ");
    let press = "\n\nPress ':download "@;
    assert(press =~= "\n"@ + "\nPress '"@ + ":download "@);
    let typed = "\n\nType: "@ + content_type + "\n"@;
    let before = "\n"@ + emboldened(name);
    let after = "\nPress '"@ + ":download "@ + url + "' to save"@;
    lemma_part_in(before, typed, after);
    assert(content =~= before + typed + after);
    let download = ":download "@ + url;
    let up_to = before + typed + "\nPress '"@;
    lemma_part_in(up_to, download, "' to save"@);
    assert(content =~= up_to + download + "' to save"@);
}

/// Going up stops at the first line, and a page scrolls until its last line is on screen.
pub proof fn law_up(position: int, n: int)
    requires
        0 <= position,
        0 <= n,
    ensures
        0 <= less_by(position, n) <= position,
        position >= n ==> less_by(position, n) + n == position,
        position < n ==> less_by(position, n) == 0,
        last_position(position, n) == less_by(position, n),
{
}

} // verus!
