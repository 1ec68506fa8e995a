//! What a tab shows: pages that were loaded, pages of the browser's own, and where the
//! reader is in them.

use vstd::prelude::*;
use crate::address::{resolve_search, resolve_url, resolved, search_target, url_joined};
use crate::config::{opt_str, Config, ConfigView};
use crate::fetcher::{FetchResult, FetchView};
use crate::js::{JsResult, JsResultView};
use crate::renderer::{
    less, parsed_page, render_html, rendered, visible_markup, RenderResult, ResultView,
};
use crate::strmap::Duplicate;
use crate::style::{emboldened, painted};
use crate::tab::{
    duplicate_all, lemma_views_push, navigated, views, ImageRef, ImageView, Link, LinkView, Tab, TabView,
};
use crate::text::{
    after_last, behind_last, chars_of, concat3, contains, has_text, lines, lines_chars,
    repeat_char, repeated, same, starts, starts_with, trim, trimmed,
};

verus! {

broadcast use vstd::string::group_string_axioms;

// --- Where an address leads ---

/// What kind of thing an address names.
#[derive(Clone, Copy, PartialEq, Eq, Structural)]
pub enum Destination {
    Mail,
    Blank,
    Home,
    Page,
}

pub open spec fn destination(url: Seq<char>) -> Destination {
    if starts(url, "mailto:"@) {
        Destination::Mail
    } else if url == "about:blank"@ {
        Destination::Blank
    } else if url == "about:home"@ {
        Destination::Home
    } else {
        Destination::Page
    }
}

pub fn find_destination(url: &str) -> (r: Destination)
    ensures
        r == destination(url@),
{
    if starts_with(url, "mailto:") {
        Destination::Mail
    } else if same(url, "about:blank") {
        Destination::Blank
    } else if same(url, "about:home") {
        Destination::Home
    } else {
        Destination::Page
    }
}

/// Where the user's input leads: mail addresses to the mail program, all else to what
/// it stands for as an address or a search.
pub open spec fn target(typed: Seq<char>, default_engine: Seq<char>) -> (Destination, Seq<char>) {
    let input = trim(typed);
    let url = search_target(typed, default_engine);
    if destination(input) is Mail {
        (Destination::Mail, input)
    } else {
        (destination(url), url)
    }
}

pub fn find_target(typed: &str, default_engine: &str) -> (r: (Destination, String))
    ensures
        (r.0, r.1@) == target(typed@, default_engine@),
{
    let input = trimmed(typed);
    if starts_with(input.as_str(), "mailto:") {
        return (Destination::Mail, input);
    }
    let url = resolve_search(typed, default_engine);
    (find_destination(url.as_str()), url)
}

/// A `mailto:` link opens the mail program, whatever the search engine.
pub proof fn law_mail_opened(typed: Seq<char>, default_engine: Seq<char>)
    requires
        starts(trim(typed), "mailto:"@),
    ensures
        target(typed, default_engine) == (Destination::Mail, trim(typed)),
{
}

/// What is to be shown of a response.
#[derive(Clone, Copy, PartialEq, Eq, Structural)]
pub enum Content {
    Image,
    Html,
    Binary,
    Text,
}

pub open spec fn is_html(content_type: Seq<char>) -> bool {
    starts(content_type, "text/html"@) || has_text(content_type, "html"@)
}

pub open spec fn content_of(content_type: Seq<char>) -> Content {
    if starts(content_type, "image/"@) {
        Content::Image
    } else if is_html(content_type) {
        Content::Html
    } else if starts(content_type, "application/pdf"@) || starts(content_type, "application/zip"@)
        || starts(content_type, "audio/"@) || starts(content_type, "video/"@) {
        Content::Binary
    } else {
        Content::Text
    }
}

pub fn has_html(content_type: &str) -> (r: bool)
    ensures
        r == is_html(content_type@),
{
    starts_with(content_type, "text/html") || contains(content_type, "html")
}

pub fn find_content(content_type: &str) -> (r: Content)
    ensures
        r == content_of(content_type@),
{
    if starts_with(content_type, "image/") {
        Content::Image
    } else if has_html(content_type) {
        Content::Html
    } else if starts_with(content_type, "application/pdf") || starts_with(
        content_type,
        "application/zip",
    ) || starts_with(content_type, "audio/") || starts_with(content_type, "video/") {
        Content::Binary
    } else {
        Content::Text
    }
}

// --- Pages of the browser's own ---

/// A key and what it does.
pub open spec fn key_hint(key: Seq<char>, text: Seq<char>) -> Seq<char> {
    painted(key, 220) + text
}

pub open spec fn home_text() -> Seq<char> {
    emboldened(painted("scroll"@, 81)) + "\n\nTerminal web browser\n\n"@ + key_hint(
        "o"@,
        " Open URL   "@,
    ) + key_hint("t"@, " New tab   "@) + key_hint("?"@, " Help"@) + "\n"@ + key_hint(
        "b"@,
        " Bookmark   "@,
    ) + key_hint("B"@, " Bookmarks  "@) + key_hint("q"@, " Quit"@) + "\n"@ + key_hint(
        ":"@,
        " Command    "@,
    ) + key_hint("P"@, " Preferences"@) + "\n"@
}

fn append_hint(out: &mut String, key: &str, text: &str)
    ensures
        final(out)@ == old(out)@ + key_hint(key@, text@),
{
    let ghost before = out@;
    out.append(crust::style::fg(key, 220).as_str());
    out.append(text);
    assert(out@ =~= before + key_hint(key@, text@));
}

pub fn home_page() -> (r: String)
    ensures
        r@ == home_text(),
{
    let mut out = crust::style::bold(crust::style::fg("scroll", 81).as_str());
    out.append("\n\nTerminal web browser\n\n");
    append_hint(&mut out, "o", " Open URL   ");
    append_hint(&mut out, "t", " New tab   ");
    append_hint(&mut out, "?", " Help");
    out.append("\n");
    append_hint(&mut out, "b", " Bookmark   ");
    append_hint(&mut out, "B", " Bookmarks  ");
    append_hint(&mut out, "q", " Quit");
    out.append("\n");
    append_hint(&mut out, ":", " Command    ");
    append_hint(&mut out, "P", " Preferences");
    out.append("\n");
    out
}

/// The tab on its way to a page of the browser's own, which shows `content`.
pub open spec fn own_page(t: TabView, url: Seq<char>, content: Seq<char>, title: Seq<char>) -> TabView {
    TabView { content, title, ..navigated(t, url) }
}

pub fn show_own_page(tab: &mut Tab, url: &str, content: String, title: &str)
    ensures
        final(tab)@ == own_page(old(tab)@, url@, content@, title@),
{
    tab.navigate(url);
    tab.content = content;
    tab.title = title.to_string();
}

/// Shows an empty page.
pub fn show_blank(tab: &mut Tab, url: &str)
    ensures
        final(tab)@ == own_page(old(tab)@, url@, ""@, "New Tab"@),
{
    show_own_page(tab, url, "".to_string(), "New Tab");
}

/// Shows the page that the browser begins with.
pub fn show_home(tab: &mut Tab, url: &str)
    ensures
        final(tab)@ == own_page(old(tab)@, url@, home_text(), "Home"@),
{
    show_own_page(tab, url, home_page(), "Home");
}

// --- Pages that were loaded ---

/// The text under an image that is a page of its own: blank lines for the image, its file
/// name and its address.
pub open spec fn image_text(url: Seq<char>, height: int) -> Seq<char> {
    repeated('\n', height as nat) + "\n"@ + painted(after_last(url, '/'), 81) + "\n"@ + painted(
        url,
        245,
    )
}

pub open spec fn image_page(t: TabView, url: Seq<char>, height: int) -> TabView {
    TabView {
        content: image_text(url, height),
        title: after_last(url, '/'),
        url,
        images: seq![ImageView { src: url, alt: after_last(url, '/'), line: 0, height }],
        ..t
    }
}

/// Shows an image that is a page of its own. It takes as many lines as the page has, but
/// at most thirty.
pub fn show_image_page(tab: &mut Tab, url: String, page_lines: u16)
    ensures
        final(tab)@ == image_page(old(tab)@, url@, less(page_lines as int, 30)),
{
    let height: usize = if page_lines < 30 {
        page_lines as usize
    } else {
        30
    };
    let name = behind_last(url.as_str(), '/');
    let mut content = repeat_char('\n', height);
    content.append("\n");
    content.append(crust::style::fg(name.as_str(), 81).as_str());
    content.append("\n");
    content.append(crust::style::fg(url.as_str(), 245).as_str());
    let image = ImageRef { src: url.clone(), alt: name.clone(), line: 0, height };
    let ghost shown = image@;
    let mut images: Vec<ImageRef> = Vec::new();
    images.push(image);
    assert(views(images@) =~= seq![shown]);
    tab.content = content;
    tab.title = name;
    tab.url = url;
    tab.images = images;
}

/// The tab with a rendered page.
pub open spec fn rendered_page(t: TabView, r: ResultView) -> TabView {
    TabView {
        content: r.text,
        title: r.title,
        links: r.links,
        forms: r.forms,
        images: r.images,
        site_bg: r.site_bg,
        site_fg: r.site_fg,
        ..t
    }
}

/// Shows a rendered page.
pub fn show_rendered(tab: &mut Tab, r: RenderResult)
    ensures
        final(tab)@ == rendered_page(old(tab)@, r@),
{
    tab.content = r.text;
    tab.title = r.title;
    tab.links = r.links;
    tab.forms = r.forms;
    tab.images = r.images;
    tab.site_bg = r.site_bg;
    tab.site_fg = r.site_fg;
}

/// The page in place of a file that cannot be shown.
pub open spec fn binary_page(t: TabView, url: Seq<char>, content_type: Seq<char>) -> TabView {
    let name = after_last(url, '/');
    TabView {
        content: "\n"@ + emboldened(name) + "\n\nType: "@ + content_type
            + "\n\nPress ':download "@ + url + "' to save"@,
        title: name,
        ..t
    }
}

pub fn show_binary(tab: &mut Tab, url: &str, content_type: &str)
    ensures
        final(tab)@ == binary_page(old(tab)@, url@, content_type@),
{
    let name = behind_last(url, '/');
    let mut content = concat3(
        "\n",
        crust::style::bold(name.as_str()).as_str(),
        "\n\nType: ",
    );
    content.append(content_type);
    content.append("\n\nPress ':download ");
    content.append(url);
    content.append("' to save");
    tab.content = content;
    tab.title = name;
}

/// Shows a page as it came.
pub fn show_plain(tab: &mut Tab, body: String, title: &str)
    ensures
        final(tab)@ == (TabView { content: body@, title: title@, ..old(tab)@ }),
{
    tab.content = body;
    tab.title = title.to_string();
}

/// The tab with what came for `asked`: an image as a page of its own, a page rendered, the
/// offer to save what cannot be shown, or the text.
pub open spec fn fetched_page(
    t: TabView,
    asked: Seq<char>,
    r: FetchView,
    width: int,
    page_lines: int,
    conf: ConfigView,
) -> TabView {
    match content_of(r.content_type) {
        Content::Image => image_page(t, r.url, less(page_lines, 30)),
        Content::Html => TabView {
            url: r.url,
            ..rendered_page(t, rendered(parsed_page(visible_markup(r.body)), width, r.url, conf))
        },
        Content::Binary => binary_page(t, asked, r.content_type),
        Content::Text => TabView { content: r.body, title: asked, ..t },
    }
}

/// Shows what came for `asked`.
pub fn show_fetched(
    tab: &mut Tab,
    asked: &str,
    r: FetchResult,
    width: usize,
    page_lines: u16,
    conf: &Config,
)
    ensures
        final(tab)@ == fetched_page(
            old(tab)@,
            asked@,
            r@,
            width as int,
            page_lines as int,
            conf@,
        ),
{
    match find_content(r.content_type.as_str()) {
        Content::Image => show_image_page(tab, r.url, page_lines),
        Content::Html => {
            let page = render_html(r.body.as_str(), width, r.url.as_str(), conf);
            show_rendered(tab, page);
            tab.url = r.url;
        },
        Content::Binary => show_binary(tab, asked, r.content_type.as_str()),
        Content::Text => show_plain(tab, r.body, asked),
    }
}

/// The tab with a page that was loaded again or by a form: rendered, or as it came.
pub open spec fn loaded_page(t: TabView, r: FetchView, width: int, conf: ConfigView) -> TabView {
    let shown = if is_html(r.content_type) {
        rendered_page(t, rendered(parsed_page(visible_markup(r.body)), width, r.url, conf))
    } else {
        TabView { content: r.body, ..t }
    };
    TabView { url: r.url, ..shown }
}

/// Shows a page that was loaded again or by a form.
pub fn show_loaded(tab: &mut Tab, r: FetchResult, width: usize, conf: &Config)
    ensures
        final(tab)@ == loaded_page(old(tab)@, r@, width as int, conf@),
{
    if has_html(r.content_type.as_str()) {
        let page = render_html(r.body.as_str(), width, r.url.as_str(), conf);
        show_rendered(tab, page);
    } else {
        tab.content = r.body;
    }
    tab.url = r.url;
}

/// The tab with what a run of the page's scripts left behind. Element values stay where
/// the run reports none.
pub open spec fn scripts_taken(t: TabView, js: JsResultView, body: Seq<char>) -> TabView {
    TabView {
        js_dom_values: if js.dom_values.len() > 0 {
            js.dom_values
        } else {
            t.js_dom_values
        },
        js_log: js.log,
        js_scripts: js.scripts,
        raw_html: body,
        ..t
    }
}

pub fn take_scripts(tab: &mut Tab, js: &JsResult, body: &str)
    ensures
        final(tab)@ == scripts_taken(old(tab)@, js@, body@),
{
    if !js.dom_values.is_empty() {
        tab.js_dom_values = js.dom_values.duplicate();
    }
    tab.js_log = duplicate_all(&js.log);
    tab.js_scripts = duplicate_all(&js.scripts);
    tab.raw_html = body.to_string();
}

/// What of a run is to be kept for the page's host, where it has one: its cookies, and the
/// data that it stored.
pub fn changes_to_keep(host: &str, js: &JsResult) -> (r: (bool, bool))
    ensures
        r.0 == (js@.cookies_dirty && host@.len() > 0),
        r.1 == (js@.localstorage_dirty && host@.len() > 0),
{
    let known = !host.is_empty();
    (js.cookies_dirty && known, js.localstorage_dirty && known)
}

/// Whether a page has a source: the browser's own pages have none.
pub fn has_source(url: &str) -> (r: bool)
    ensures
        r == !starts(url@, "about:"@),
{
    !starts_with(url, "about:")
}

/// The text of a response that came whole.
pub fn whole_text(r: &FetchResult) -> (text: Option<&str>)
    ensures
        opt_str(text) == (if r@.status == 200 {
            Some(r@.body)
        } else {
            None
        }),
{
    if r.status == 200 {
        Some(r.body.as_str())
    } else {
        None
    }
}

/// Adds console output to the tab's log.
pub fn extend_log(tab: &mut Tab, log: &Vec<String>)
    ensures
        final(tab)@ == (TabView { js_log: old(tab)@.js_log + views(log@), ..old(tab)@ }),
{
    let ghost t = tab@;
    let ghost all = views(log@);
    assert(t.js_log + all.take(0) =~= t.js_log);
    for i in 0..log.len()
        invariant
            all == views(log@),
            tab@ == (TabView { js_log: t.js_log + all.take(i as int), ..t }),
    {
        let line = log[i].clone();
        proof {
            lemma_views_push(tab.js_log@, line);
        }
        tab.js_log.push(line);
        assert(tab@.js_log =~= t.js_log + all.take(i + 1));
    }
    assert(all.take(all.len() as int) =~= all);
}

/// The file in which a download is kept: under its own name in the folder.
pub open spec fn download_file(folder: Seq<char>, url: Seq<char>) -> Seq<char> {
    folder + "/"@ + after_last(url, '/')
}

pub fn download_path(folder: &str, url: &str) -> (r: String)
    ensures
        r@ == download_file(folder@, url@),
{
    concat3(folder, "/", behind_last(url, '/').as_str())
}

/// A download stays in its folder: its name holds no `/`.
pub proof fn law_download_name(url: Seq<char>)
    ensures
        !after_last(url, '/').contains('/'),
    decreases url.len(),
{
    if url.len() > 0 && url.last() != '/' {
        law_download_name(url.drop_last());
        let s = after_last(url, '/');
        let t = after_last(url.drop_last(), '/');
        assert forall|i: int| 0 <= i < s.len() implies s[i] != '/' by {
            if i < t.len() {
                assert(s[i] == t[i]);
                assert(t.contains(t[i]));
            }
        }
    }
}

/// The address that a page's scripts lead to, where they do: `target` joined to the page,
/// unless it is empty or the page itself.
pub open spec fn follows(url: Seq<char>, target: Seq<char>) -> bool {
    target.len() > 0 && target != url
}

pub fn script_redirect(url: &str, target: &str) -> (r: Option<String>)
    ensures
        match r {
            Some(u) => follows(url@, target@) && u@ == resolved(target@, url_joined(url@, target@)),
            None => !follows(url@, target@),
        },
{
    if target.is_empty() || same(target, url) {
        None
    } else {
        Some(resolve_url(url, target))
    }
}

// --- Scrolling ---

pub open spec fn less_by(a: int, b: int) -> int {
    if a < b {
        0
    } else {
        a - b
    }
}

/// The last position to which a page of `count` lines scrolls on a screen of `page` lines.
pub open spec fn last_position(count: int, page: int) -> int {
    less_by(count, page)
}

/// The position `n` lines down; a page that is at its end, or past it, stays.
pub open spec fn down(ix: int, n: int, last: int) -> int {
    if ix >= last {
        ix
    } else {
        less(ix + n, last)
    }
}

pub fn count_lines(content: &str) -> (r: usize)
    ensures
        r == lines(content@).len(),
{
    let ls = lines_chars(&chars_of(content));
    assert(crate::text::chars2(ls@).len() == ls@.len());
    ls.len()
}

pub fn scroll_down(ix: usize, n: usize, count: usize, page: usize) -> (r: usize)
    ensures
        r == down(ix as int, n as int, last_position(count as int, page as int)),
{
    let last: usize = count.saturating_sub(page);
    if ix >= last {
        ix
    } else if n < last - ix {
        ix + n
    } else {
        last
    }
}

pub fn scroll_up(ix: usize, n: usize) -> (r: usize)
    ensures
        r == less_by(ix as int, n as int),
{
    ix.saturating_sub(n)
}

/// The lines of a step by a page: two lines stay in sight.
pub fn page_step(page: usize) -> (r: usize)
    ensures
        r == less_by(page as int, 2),
{
    page.saturating_sub(2)
}

pub fn scroll_bottom(count: usize, page: usize) -> (r: usize)
    ensures
        r == last_position(count as int, page as int),
{
    count.saturating_sub(page)
}

/// The column ten cells to the left.
pub fn scroll_left(column: usize) -> (r: usize)
    ensures
        r == less_by(column as int, 10),
{
    column.saturating_sub(10)
}

/// The column ten cells to the right.
pub fn scroll_right(column: usize) -> (r: usize)
    ensures
        r == (if column + 10 <= usize::MAX {
            column + 10
        } else {
            usize::MAX as int
        }),
{
    column.saturating_add(10)
}

/// Scrolling down never leaves the page, and moves down by at most what was asked.
pub proof fn law_scroll_down(ix: int, n: int, count: int, page: int)
    requires
        0 <= ix <= last_position(count, page),
        0 <= n,
        0 <= page,
        0 <= count,
    ensures
        ix <= down(ix, n, last_position(count, page)) <= last_position(count, page),
        down(ix, n, last_position(count, page)) <= ix + n,
{
}

// --- The focused link ---

/// The link after the one in focus, around the end.
pub open spec fn next_focus(focus: Option<usize>, n: int) -> Option<int> {
    if n == 0 {
        match focus {
            Some(k) => Some(k as int),
            None => None,
        }
    } else {
        match focus {
            Some(k) => Some((k + 1) % n),
            None => Some(0),
        }
    }
}

/// The link before the one in focus, around the start.
pub open spec fn prev_focus(focus: Option<usize>, n: int) -> Option<int> {
    if n == 0 {
        match focus {
            Some(k) => Some(k as int),
            None => None,
        }
    } else {
        match focus {
            Some(k) => if k == 0 {
                Some(n - 1)
            } else {
                Some(k - 1)
            },
            None => Some(n - 1),
        }
    }
}

pub open spec fn opt_int(o: Option<usize>) -> Option<int> {
    match o {
        Some(k) => Some(k as int),
        None => None,
    }
}

pub fn focus_next(focus: Option<usize>, n: usize) -> (r: Option<usize>)
    ensures
        opt_int(r) == next_focus(focus, n as int),
{
    if n == 0 {
        return focus;
    }
    match focus {
        Some(k) => {
            let m: usize = k % n;
            let next: usize = if m + 1 < n {
                m + 1
            } else {
                0
            };
            assert(next == (k + 1) % (n as int)) by (nonlinear_arith)
                requires
                    n > 0,
                    m == k as int % n as int,
                    next == if m + 1 < n {
                        m + 1
                    } else {
                        0
                    },
            ;
            Some(next)
        },
        None => Some(0),
    }
}

pub fn focus_prev(focus: Option<usize>, n: usize) -> (r: Option<usize>)
    ensures
        opt_int(r) == prev_focus(focus, n as int),
{
    if n == 0 {
        return focus;
    }
    match focus {
        Some(k) => if k == 0 {
            Some(n - 1)
        } else {
            Some(k - 1)
        },
        None => Some(n - 1),
    }
}

/// From a link of the page, a step on and a step back lead to the same link.
pub proof fn law_focus_around(k: usize, n: int)
    requires
        0 <= k < n,
        n <= usize::MAX,
    ensures
        ({
            let on = next_focus(Some(k), n)->0;
            let back = prev_focus(Some(k), n)->0;
            &&& prev_focus(Some(on as usize), n) == Some(k as int)
            &&& next_focus(Some(back as usize), n) == Some(k as int)
        }),
{
    assert((k + 1) % n == if k + 1 < n {
        k + 1
    } else {
        0
    }) by (nonlinear_arith)
        requires
            0 <= k < n,
    ;
    let back = if k == 0 {
        n - 1
    } else {
        k - 1
    };
    assert((back + 1) % n == k) by (nonlinear_arith)
        requires
            0 <= k < n,
            back == if k == 0 {
                n - 1
            } else {
                k - 1
            },
    ;
}

/// The address of the link in focus.
pub open spec fn focused_address(links: Seq<LinkView>, focus: Option<usize>) -> Option<Seq<char>> {
    match focus {
        Some(k) => if k < links.len() {
            Some(links[k as int].href)
        } else {
            None
        },
        None => None,
    }
}

pub fn focused_href(links: &Vec<Link>, focus: Option<usize>) -> (r: Option<String>)
    ensures
        crate::address::opt_text(r) == focused_address(views(links@), focus),
{
    match focus {
        Some(k) => if k < links.len() {
            assert(views(links@)[k as int] == links@[k as int]@);
            Some(links[k].href.clone())
        } else {
            None
        },
        None => None,
    }
}

} // verus!
