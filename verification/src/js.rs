//! What a page's scripts see and change.
//!
//! A script engine runs the scripts and calls the operations of `JsState` for what they
//! do: console output, cookies, storage, elements, listeners and requests. `run_scripts`
//! gives the state to start with and `finish_run` what came of the run.

use vstd::prelude::*;
use crate::address::{absolute_url, host_in, host_of, opt_text, parse_url, script_address, url_joined, url_parsed, UrlParts, UrlView};
use crate::cookies::{cookie_line, cookie_pair, cookie_set, read_cookie, write_cookies, CookieViews};
use crate::dom::{
    attr_of, attr_or, attr_views, node_attr, select_elements, selected_elements, text_of,
    text_under, DomNode, NodeView, Selected, SelectedView,
};
use crate::number::{decimal, law_decimal_parses, number};
use crate::rsc::{decode_rsc_payload, payload_text};
use crate::scripts::{extract_scripts_in_order, scripts_from};
use crate::strmap::{
    distinct, law_put_lookup, lemma_position, lookup, position, put, without, Duplicate, StrMap,
};
use crate::tab::{duplicate_all, lemma_views_push, views};
use crate::text::{
    chars_of, concat, concat3, find_in, join, join_strings, lowered, lower_chars, part_string,
    replace_char, replaced, same, string_of, texts, uppercase_of,
};

verus! {

broadcast use vstd::string::group_string_axioms;

// --- Elements ---

/// An element that scripts reach by its id.
pub struct ElementState {
    pub tag: String,
    pub value: String,
    pub checked: bool,
    pub inner_html: String,
    /// The content as the page brought it.
    pub original_inner_html: String,
    pub text_content: String,
    pub attributes: StrMap<String>,
    /// Whether a script has set the value.
    pub touched: bool,
}

pub struct ElementView {
    pub tag: Seq<char>,
    pub value: Seq<char>,
    pub checked: bool,
    pub inner_html: Seq<char>,
    pub original_inner_html: Seq<char>,
    pub text_content: Seq<char>,
    pub attributes: Seq<(Seq<char>, Seq<char>)>,
    pub touched: bool,
}

impl View for ElementState {
    type V = ElementView;

    open spec fn view(&self) -> ElementView {
        ElementView {
            tag: self.tag@,
            value: self.value@,
            checked: self.checked,
            inner_html: self.inner_html@,
            original_inner_html: self.original_inner_html@,
            text_content: self.text_content@,
            attributes: self.attributes@,
            touched: self.touched,
        }
    }
}

pub open spec fn blank_element() -> ElementView {
    ElementView {
        tag: Seq::empty(),
        value: Seq::empty(),
        checked: false,
        inner_html: Seq::empty(),
        original_inner_html: Seq::empty(),
        text_content: Seq::empty(),
        attributes: Seq::empty(),
        touched: false,
    }
}

impl Default for ElementState {
    fn default() -> (r: Self)
        ensures
            r@ == blank_element(),
    {
        let r = ElementState {
            tag: String::new(),
            value: String::new(),
            checked: false,
            inner_html: String::new(),
            original_inner_html: String::new(),
            text_content: String::new(),
            attributes: StrMap::new(),
            touched: false,
        };
        assert(r@.tag =~= Seq::empty());
        r
    }
}

/// The elements that scripts reach, by id.
pub type DomView = Seq<(Seq<char>, ElementView)>;

/// The element under `id`, a blank one where there is none.
pub open spec fn element_of(dom: DomView, id: Seq<char>) -> ElementView {
    match lookup(dom, id) {
        Some(e) => e,
        None => blank_element(),
    }
}

/// The first `n` attributes by name.
pub open spec fn attr_map(attrs: Seq<(Seq<char>, Seq<char>, Seq<char>)>, n: int) -> Seq<
    (Seq<char>, Seq<char>),
>
    decreases n,
{
    if n <= 0 {
        Seq::empty()
    } else {
        put(attr_map(attrs, n - 1), attrs[n - 1].1, attrs[n - 1].2)
    }
}

/// The state of an element that the page brought.
pub open spec fn element_from(sel: SelectedView) -> ElementView {
    let n = sel.items[0].node;
    let attributes = match n {
        NodeView::Element { attrs, .. } => attr_map(attrs, attrs.len() as int),
        _ => Seq::empty(),
    };
    ElementView {
        tag: match n {
            NodeView::Element { name, .. } => name,
            _ => Seq::empty(),
        },
        value: attr_or(n, "value"@, Seq::empty()),
        checked: lookup(attributes, "checked"@) is Some,
        inner_html: sel.inner_html,
        original_inner_html: sel.inner_html,
        text_content: text_of(sel.items, 0),
        attributes,
        touched: false,
    }
}

/// The elements of the first `n` selected that have an id.
pub open spec fn dom_to(selected: Seq<SelectedView>, n: int) -> DomView
    decreases n,
{
    if n <= 0 {
        Seq::empty()
    } else {
        let before = dom_to(selected, n - 1);
        let sel = selected[n - 1];
        if sel.items.len() == 0 {
            before
        } else {
            match attr_of(sel.items[0].node, "id"@) {
                Some(id) => put(before, id, element_from(sel)),
                None => before,
            }
        }
    }
}

fn make_element(sel: &Selected) -> (r: ElementState)
    requires
        sel.items@.len() > 0,
    ensures
        r@ == element_from(sel@),
{
    let n = &sel.items[0].node;
    assert(sel@.items[0] == sel.items@[0]@);
    let mut e = ElementState::default();
    if let DomNode::Element { name, attrs } = n {
        let ghost a = attr_views(attrs@);
        e.tag = name.clone();
        for k in 0..attrs.len()
            invariant
                a == attr_views(attrs@),
                e@ == (ElementView {
                    tag: name@,
                    attributes: attr_map(a, k as int),
                    ..blank_element()
                }),
        {
            assert(a[k as int].1 == attrs@[k as int].1@ && a[k as int].2 == attrs@[k as int].2@);
            e.attributes.insert(attrs[k].1.clone(), attrs[k].2.clone());
        }
    }
    if let Some(v) = node_attr(n, "value") {
        e.value = v.to_string();
    }
    e.checked = e.attributes.contains_key("checked");
    e.inner_html = sel.inner_html.clone();
    e.original_inner_html = sel.inner_html.clone();
    e.text_content = text_under(&sel.items, 0);
    e
}

/// The elements with an id among those that were selected.
pub fn dom_of(selected: &Vec<Selected>) -> (r: StrMap<ElementState>)
    ensures
        r@ == dom_to(views(selected@), selected@.len() as int),
{
    let mut dom: StrMap<ElementState> = StrMap::new();
    let ghost all = views(selected@);
    for n in 0..selected.len()
        invariant
            all == views(selected@),
            dom@ == dom_to(all, n as int),
    {
        let sel = &selected[n];
        assert(all[n as int] == sel@);
        if sel.items.len() > 0 {
            assert(sel@.items[0] == sel.items@[0]@);
            if let Some(id) = node_attr(&sel.items[0].node, "id") {
                dom.insert(id.to_string(), make_element(sel));
            }
        }
    }
    dom
}

/// The elements of a page that have an id.
pub open spec fn page_dom(html: Seq<char>) -> DomView {
    match selected_elements(html, "[id]"@) {
        Some(v) => dom_to(v, v.len() as int),
        None => Seq::empty(),
    }
}

pub fn parse_dom(html: &str) -> (r: StrMap<ElementState>)
    ensures
        r@ == page_dom(html@),
{
    match select_elements(html, "[id]") {
        Some(v) => dom_of(&v),
        None => StrMap::new(),
    }
}

// --- The state of a run ---

/// A listener: where it listens, for which event, and the engine's number for it.
pub struct Listener {
    pub target: String,
    pub event: String,
    pub callback: usize,
}

pub struct ListenerView {
    pub target: Seq<char>,
    pub event: Seq<char>,
    pub callback: usize,
}

impl View for Listener {
    type V = ListenerView;

    open spec fn view(&self) -> ListenerView {
        ListenerView { target: self.target@, event: self.event@, callback: self.callback }
    }
}

pub struct JsState {
    pub redirect: Option<String>,
    pub log: Vec<String>,
    /// The cookies of the page's host.
    pub cookies: StrMap<String>,
    pub cookies_dirty: bool,
    pub local_storage: StrMap<String>,
    pub local_storage_dirty: bool,
    pub session_storage: StrMap<String>,
    pub dom: StrMap<ElementState>,
    pub page_host: String,
    pub page_url: String,
    pub listeners: Vec<Listener>,
    pub submit_prevented: bool,
    /// The form whose submit the listeners hear of after the scripts have run.
    pub submit_dispatch_target: Option<String>,
    /// Pieces of a streamed payload that the page pushed.
    pub rsc_chunks: Vec<String>,
}

pub struct StateView {
    pub redirect: Option<Seq<char>>,
    pub log: Seq<Seq<char>>,
    pub cookies: CookieViews,
    pub cookies_dirty: bool,
    pub local_storage: CookieViews,
    pub local_storage_dirty: bool,
    pub session_storage: CookieViews,
    pub dom: DomView,
    pub page_host: Seq<char>,
    pub page_url: Seq<char>,
    pub listeners: Seq<ListenerView>,
    pub submit_prevented: bool,
    pub submit_dispatch_target: Option<Seq<char>>,
    pub rsc_chunks: Seq<Seq<char>>,
}

impl View for JsState {
    type V = StateView;

    open spec fn view(&self) -> StateView {
        StateView {
            redirect: opt_text(self.redirect),
            log: views(self.log@),
            cookies: self.cookies@,
            cookies_dirty: self.cookies_dirty,
            local_storage: self.local_storage@,
            local_storage_dirty: self.local_storage_dirty,
            session_storage: self.session_storage@,
            dom: self.dom@,
            page_host: self.page_host@,
            page_url: self.page_url@,
            listeners: views(self.listeners@),
            submit_prevented: self.submit_prevented,
            submit_dispatch_target: opt_text(self.submit_dispatch_target),
            rsc_chunks: views(self.rsc_chunks@),
        }
    }
}

/// What came of a run.
#[derive(Clone, Debug)]
pub struct JsResult {
    /// Console output, each line with its channel.
    pub log: Vec<String>,
    /// The address that a script asked for last.
    pub redirect: Option<String>,
    pub cookies: StrMap<String>,
    pub cookies_dirty: bool,
    pub localstorage: StrMap<String>,
    pub localstorage_dirty: bool,
    /// The values that scripts set, by the id of the element.
    pub dom_values: StrMap<String>,
    /// The scripts that ran, kept so that a submit can run them again.
    pub scripts: Vec<String>,
    /// Whether a listener refused the submit.
    pub submit_prevented: bool,
    /// New content of elements, by id.
    pub inner_html_changes: StrMap<String>,
    /// Text in the streamed payload.
    pub rsc_text: Option<String>,
}

pub struct JsResultView {
    pub log: Seq<Seq<char>>,
    pub redirect: Option<Seq<char>>,
    pub cookies: CookieViews,
    pub cookies_dirty: bool,
    pub localstorage: CookieViews,
    pub localstorage_dirty: bool,
    pub dom_values: CookieViews,
    pub scripts: Seq<Seq<char>>,
    pub submit_prevented: bool,
    pub inner_html_changes: CookieViews,
    pub rsc_text: Option<Seq<char>>,
}

impl View for JsResult {
    type V = JsResultView;

    open spec fn view(&self) -> JsResultView {
        JsResultView {
            log: views(self.log@),
            redirect: opt_text(self.redirect),
            cookies: self.cookies@,
            cookies_dirty: self.cookies_dirty,
            localstorage: self.localstorage@,
            localstorage_dirty: self.localstorage_dirty,
            dom_values: self.dom_values@,
            scripts: views(self.scripts@),
            submit_prevented: self.submit_prevented,
            inner_html_changes: self.inner_html_changes@,
            rsc_text: opt_text(self.rsc_text),
        }
    }
}

pub open spec fn empty_result() -> JsResultView {
    JsResultView {
        log: Seq::empty(),
        redirect: None,
        cookies: Seq::empty(),
        cookies_dirty: false,
        localstorage: Seq::empty(),
        localstorage_dirty: false,
        dom_values: Seq::empty(),
        scripts: Seq::empty(),
        submit_prevented: false,
        inner_html_changes: Seq::empty(),
        rsc_text: None,
    }
}

impl Default for JsResult {
    fn default() -> (r: Self)
        ensures
            r@ == empty_result(),
    {
        let r = JsResult {
            log: Vec::new(),
            redirect: None,
            cookies: StrMap::new(),
            cookies_dirty: false,
            localstorage: StrMap::new(),
            localstorage_dirty: false,
            dom_values: StrMap::new(),
            scripts: Vec::new(),
            submit_prevented: false,
            inner_html_changes: StrMap::new(),
            rsc_text: None,
        };
        assert(r@.log =~= Seq::empty());
        assert(r@.scripts =~= Seq::empty());
        r
    }
}

// --- Beginning and end ---

/// The elements with the first `n` of the values that the user typed.
pub open spec fn prefilled(dom: DomView, values: CookieViews, n: int) -> DomView
    decreases n,
{
    if n <= 0 {
        dom
    } else {
        let before = prefilled(dom, values, n - 1);
        let (id, value) = values[n - 1];
        put(before, id, ElementView { value, ..element_of(before, id) })
    }
}

/// The state in which a run begins.
pub open spec fn started(
    dom: DomView,
    host: Seq<char>,
    page_url: Seq<char>,
    cookies: CookieViews,
    localstorage: CookieViews,
    values: CookieViews,
    submit_form_id: Option<Seq<char>>,
) -> StateView {
    StateView {
        redirect: None,
        log: Seq::empty(),
        cookies,
        cookies_dirty: false,
        local_storage: localstorage,
        local_storage_dirty: false,
        session_storage: Seq::empty(),
        dom: prefilled(dom, values, values.len() as int),
        page_host: host,
        page_url,
        listeners: Seq::empty(),
        submit_prevented: false,
        submit_dispatch_target: submit_form_id,
        rsc_chunks: Seq::empty(),
    }
}

/// A run: over where there is no script, else the scripts and the state to run them on.
pub enum Run {
    Done(JsResult),
    Pending(JsState, Vec<String>),
}

pub open spec fn is_run(
    r: Run,
    scripts: Seq<Seq<char>>,
    start: StateView,
) -> bool {
    match r {
        Run::Done(res) => scripts.len() == 0 && res@ == (JsResultView {
            cookies: start.cookies,
            localstorage: start.local_storage,
            ..empty_result()
        }),
        Run::Pending(state, s) => scripts.len() > 0 && views(s@) == scripts && state@ == start,
    }
}

/// Begins a run of scripts on a page whose elements are known.
pub fn begin_run(
    scripts: Vec<String>,
    dom: StrMap<ElementState>,
    host: String,
    page_url: &str,
    cookies_in: StrMap<String>,
    localstorage_in: StrMap<String>,
    pre_dom_values: &StrMap<String>,
    submit_form_id: Option<String>,
) -> (r: Run)
    ensures
        is_run(
            r,
            views(scripts@),
            started(
                dom@,
                host@,
                page_url@,
                cookies_in@,
                localstorage_in@,
                pre_dom_values@,
                opt_text(submit_form_id),
            ),
        ),
{
    if scripts.len() == 0 {
        let mut r = JsResult::default();
        r.cookies = cookies_in;
        r.localstorage = localstorage_in;
        return Run::Done(r);
    }
    let ghost start = started(
        dom@,
        host@,
        page_url@,
        cookies_in@,
        localstorage_in@,
        pre_dom_values@,
        opt_text(submit_form_id),
    );
    let ghost dom0 = dom@;
    let mut state = JsState {
        redirect: None,
        log: Vec::new(),
        cookies: cookies_in,
        cookies_dirty: false,
        local_storage: localstorage_in,
        local_storage_dirty: false,
        session_storage: StrMap::new(),
        dom,
        page_host: host,
        page_url: page_url.to_string(),
        listeners: Vec::new(),
        submit_prevented: false,
        submit_dispatch_target: submit_form_id,
        rsc_chunks: Vec::new(),
    };
    assert(state@.log =~= Seq::empty());
    assert(state@.listeners =~= Seq::empty());
    assert(state@.rsc_chunks =~= Seq::empty());
    let ghost s0 = state@;
    let n: usize = pre_dom_values.len();
    for k in 0..n
        invariant
            n == pre_dom_values@.len(),
            state@ == (StateView { dom: prefilled(dom0, pre_dom_values@, k as int), ..s0 }),
    {
        let value = pre_dom_values.value_at(k).clone();
        let e = state.edit(pre_dom_values.key_at(k));
        e.value = value;
    }
    assert(state@ == start);
    Run::Pending(state, scripts)
}

/// Begins a run of scripts that were taken from the page before.
pub fn run_extracted(
    scripts: Vec<String>,
    html: &str,
    page_url: &str,
    cookies_in: StrMap<String>,
    localstorage_in: StrMap<String>,
    pre_dom_values: &StrMap<String>,
    submit_form_id: Option<String>,
) -> (r: Run)
    ensures
        is_run(
            r,
            views(scripts@),
            started(
                page_dom(html@),
                host_in(url_parsed(page_url@)),
                page_url@,
                cookies_in@,
                localstorage_in@,
                pre_dom_values@,
                opt_text(submit_form_id),
            ),
        ),
{
    let host = host_of(page_url);
    let dom = parse_dom(html);
    begin_run(
        scripts,
        dom,
        host,
        page_url,
        cookies_in,
        localstorage_in,
        pre_dom_values,
        submit_form_id,
    )
}

/// Begins a run of a page's inline scripts.
pub fn run_scripts(
    html: &str,
    page_url: &str,
    cookies_in: StrMap<String>,
    localstorage_in: StrMap<String>,
) -> (r: Run)
    ensures
        is_run(
            r,
            scripts_from(html@, 0, 0),
            started(
                page_dom(html@),
                host_in(url_parsed(page_url@)),
                page_url@,
                cookies_in@,
                localstorage_in@,
                Seq::empty(),
                None,
            ),
        ),
{
    let scripts = extract_scripts_in_order(html, page_url, &cookies_in);
    let none: StrMap<String> = StrMap::new();
    run_extracted(scripts, html, page_url, cookies_in, localstorage_in, &none, None)
}

/// The values of those of the first `n` elements whose value a script has set.
pub open spec fn values_to(dom: DomView, n: int) -> CookieViews
    decreases n,
{
    if n <= 0 {
        Seq::empty()
    } else if dom[n - 1].1.touched {
        put(values_to(dom, n - 1), dom[n - 1].0, dom[n - 1].1.value)
    } else {
        values_to(dom, n - 1)
    }
}

/// The content of those of the first `n` elements whose content has changed.
pub open spec fn changes_to(dom: DomView, n: int) -> CookieViews
    decreases n,
{
    if n <= 0 {
        Seq::empty()
    } else if dom[n - 1].1.inner_html != dom[n - 1].1.original_inner_html {
        put(changes_to(dom, n - 1), dom[n - 1].0, dom[n - 1].1.inner_html)
    } else {
        changes_to(dom, n - 1)
    }
}

/// What a run leaves behind, but for its scripts.
pub open spec fn finished(s: StateView, rsc: Option<Seq<char>>) -> JsResultView {
    JsResultView {
        log: s.log,
        redirect: s.redirect,
        cookies: s.cookies,
        cookies_dirty: s.cookies_dirty,
        localstorage: s.local_storage,
        localstorage_dirty: s.local_storage_dirty,
        dom_values: values_to(s.dom, s.dom.len() as int),
        scripts: Seq::empty(),
        submit_prevented: s.submit_prevented,
        inner_html_changes: changes_to(s.dom, s.dom.len() as int),
        rsc_text: rsc,
    }
}

/// What a run of `scripts` leaves behind.
pub open spec fn ended(s: StateView, scripts: Seq<Seq<char>>) -> JsResultView {
    JsResultView { scripts, ..finished(s, pushed_text(s)) }
}

/// The text in the payload that a page pushed.
pub open spec fn pushed_text(s: StateView) -> Option<Seq<char>> {
    if s.rsc_chunks.len() == 0 {
        None
    } else {
        payload_text(join(s.rsc_chunks, ""@))
    }
}

proof fn lemma_values(dom: DomView, n: int, id: Seq<char>)
    requires
        distinct(dom),
        0 <= n <= dom.len(),
    ensures
        lookup(values_to(dom, n), id) == (match lookup(dom.take(n), id) {
            Some(e) => if e.touched {
                Some(e.value)
            } else {
                None
            },
            None => None,
        }),
    decreases n,
{
    if n == 0 {
        assert(dom.take(0) =~= Seq::empty());
    } else {
        lemma_values(dom, n - 1, id);
        let t = dom.take(n - 1);
        let (k, e) = dom[n - 1];
        assert(dom.take(n) =~= t.push((k, e)));
        crate::strmap::lemma_last(t, k, e, id);
        law_put_lookup(values_to(dom, n - 1), k, e.value, id);
        if id == k {
            lemma_position(t, k, 0);
            let p = position(t, k, 0);
            if p < t.len() {
                assert(dom[p].0 == dom[n - 1].0);
            }
        }
    }
}

/// A run reports for each id the element's value, where a script has set it, and nothing
/// else.
pub proof fn law_values_reported(dom: DomView, id: Seq<char>)
    requires
        distinct(dom),
    ensures
        lookup(values_to(dom, dom.len() as int), id) == (match lookup(dom, id) {
            Some(e) => if e.touched {
                Some(e.value)
            } else {
                None
            },
            None => None,
        }),
{
    lemma_values(dom, dom.len() as int, id);
    assert(dom.take(dom.len() as int) =~= dom);
}

// --- What scripts do ---

/// A line of console output.
pub open spec fn log_line(channel: Seq<char>, msg: Seq<char>) -> Seq<char> {
    "["@ + channel + "] "@ + msg
}

pub open spec fn logged(s: StateView, channel: Seq<char>, msg: Seq<char>) -> StateView {
    StateView { log: s.log.push(log_line(channel, msg)), ..s }
}

/// The first 60 characters of a script, on one line.
pub open spec fn script_head(src: Seq<char>) -> Seq<char> {
    replaced(
        if src.len() > 60 {
            src.take(60)
        } else {
            src
        },
        '\n',
        " "@,
    )
}

/// Whether a listener at `target` hears of the submit of form `form`.
pub open spec fn hears(l: ListenerView, form: Option<Seq<char>>) -> bool {
    l.event == "submit"@ && (l.target.len() == 0 || l.target == "_document"@ || l.target
        == "_window"@ || form == Some(l.target))
}

/// The numbers of the listeners, in the order in which they came, that hear of the submit.
pub open spec fn heard_by(ls: Seq<ListenerView>, form: Option<Seq<char>>) -> Seq<usize>
    decreases ls.len(),
{
    if ls.len() == 0 {
        Seq::empty()
    } else if hears(ls.last(), form) {
        heard_by(ls.drop_last(), form).push(ls.last().callback)
    } else {
        heard_by(ls.drop_last(), form)
    }
}

/// The id of the first element at or after `i` with the tag `tag`, whatever its case.
pub open spec fn first_tagged(dom: DomView, tag: Seq<char>, i: int) -> Option<Seq<char>>
    decreases dom.len() - i,
{
    if i < 0 || i >= dom.len() {
        None
    } else if lowered(dom[i].1.tag) == lowered(tag) {
        Some(dom[i].0)
    } else {
        first_tagged(dom, tag, i + 1)
    }
}

/// The characters that make a selector more than a tag name.
pub open spec fn selector_marks() -> Seq<char> {
    seq![' ', '.', '#', '[', '>']
}

/// The id of the element that a selector names: `#` and an id, or a tag.
pub open spec fn query_id(dom: DomView, sel: Seq<char>) -> Option<Seq<char>> {
    if sel.len() > 0 && sel[0] == '#' {
        if lookup(dom, sel.skip(1)) is Some {
            Some(sel.skip(1))
        } else {
            None
        }
    } else if crate::text::next_in(sel, selector_marks(), 0) >= sel.len() {
        first_tagged(dom, sel, 0)
    } else {
        None
    }
}

/// The `n`-th id for an element without one.
pub open spec fn anon_id(n: nat) -> Seq<char> {
    "__anon_"@ + decimal(n)
}

/// `n` is the least number whose id is free.
pub open spec fn is_next_anon(dom: DomView, n: nat) -> bool {
    lookup(dom, anon_id(n)) is None && forall|m: nat|
        m < n ==> lookup(dom, #[trigger] anon_id(m)) is Some
}

/// The parts of the page's address, as scripts see them.
pub struct Location {
    pub href: String,
    pub host: String,
    pub pathname: String,
    pub search: String,
    pub protocol: String,
}

pub open spec fn is_location(l: Location, page_url: Seq<char>, u: Option<UrlView>) -> bool {
    &&& l.href@ == page_url
    &&& l.host@ == host_in(u)
    &&& match u {
        Some(p) => l.pathname@ == p.path && l.protocol@ == p.scheme + ":"@ && match p.query {
            Some(q) => l.search@ == "?"@ + q,
            None => l.search@.len() == 0,
        },
        None => l.pathname@.len() == 0 && l.protocol@.len() == 0 && l.search@.len() == 0,
    }
}

pub fn location_from(page_url: &str, u: Option<UrlParts>) -> (r: Location)
    ensures
        is_location(
            r,
            page_url@,
            match u {
                Some(p) => Some(p@),
                None => None,
            },
        ),
{
    let href = page_url.to_string();
    match u {
        Some(p) => {
            let host = match p.host {
                Some(h) => h,
                None => {
                    let h = String::new();
                    assert(h@ =~= Seq::empty());
                    h
                },
            };
            let search = match p.query {
                Some(q) => concat("?", q.as_str()),
                None => String::new(),
            };
            let protocol = concat(p.scheme.as_str(), ":");
            Location { href, host, pathname: p.path, search, protocol }
        },
        None => {
            let host = String::new();
            assert(host@ =~= Seq::empty());
            Location {
                href,
                host,
                pathname: String::new(),
                search: String::new(),
                protocol: String::new(),
            }
        },
    }
}

pub fn location_of(page_url: &str) -> (r: Location)
    ensures
        is_location(r, page_url@, url_parsed(page_url@)),
{
    location_from(page_url, parse_url(page_url))
}

/// What scripts see of the browser.
pub struct Navigator {
    pub user_agent: String,
    pub language: String,
    pub platform: String,
}

pub fn navigator() -> (r: Navigator)
    ensures
        r.user_agent@
            == "Mozilla/5.0 (X11; Linux x86_64) AppleWebKit/537.36 (KHTML, like Gecko) Chrome/120.0 Safari/537.36"@,
        r.language@ == "en-US"@,
        r.platform@ == "Linux x86_64"@,
{
    Navigator {
        user_agent: "Mozilla/5.0 (X11; Linux x86_64) AppleWebKit/537.36 (KHTML, like Gecko) Chrome/120.0 Safari/537.36".to_string(),
        language: "en-US".to_string(),
        platform: "Linux x86_64".to_string(),
    }
}

/// The arguments of a console call as one text.
pub fn join_args(args: &Vec<String>) -> (r: String)
    ensures
        r@ == join(views(args@), " "@),
{
    assert(texts(args@) =~= views(args@));
    join_strings(args, " ")
}

/// A request that a script makes.
pub struct ScriptRequest {
    pub url: String,
    /// `GET`, `POST`, `PUT` or `DELETE`.
    pub method: String,
    pub headers: Vec<(String, String)>,
    pub cookie: Option<String>,
    pub body: Option<String>,
}

/// A method that requests can have, in place of any that they cannot.
pub open spec fn known_method(m: Seq<char>) -> Seq<char> {
    if m == "POST"@ || m == "PUT"@ || m == "DELETE"@ {
        m
    } else {
        "GET"@
    }
}

/// The method of a request for which a script asked for `method`.
pub open spec fn request_method(method: Option<Seq<char>>) -> Seq<char> {
    match method {
        Some(m) => known_method(uppercase_of(m)),
        None => "GET"@,
    }
}

pub fn find_method(m: String) -> (r: String)
    ensures
        r@ == known_method(m@),
{
    if same(m.as_str(), "POST") || same(m.as_str(), "PUT") || same(m.as_str(), "DELETE") {
        m
    } else {
        "GET".to_string()
    }
}

/// The storage that scripts name: the one that is kept between runs, or the one of this run.
pub open spec fn storage_of(s: StateView, persistent: bool) -> CookieViews {
    if persistent {
        s.local_storage
    } else {
        s.session_storage
    }
}

/// The state with `m` as one of its storages.
pub open spec fn with_storage(
    s: StateView,
    persistent: bool,
    m: CookieViews,
    changed: bool,
) -> StateView {
    if persistent {
        StateView {
            local_storage: m,
            local_storage_dirty: s.local_storage_dirty || changed,
            ..s
        }
    } else {
        StateView { session_storage: m, ..s }
    }
}

/// The element with the value that a script has set.
pub open spec fn valued(e: ElementView, value: Seq<char>) -> ElementView {
    ElementView { value, touched: true, ..e }
}

pub open spec fn redirected(s: StateView, target: Seq<char>) -> StateView {
    StateView { redirect: Some(target), ..s }
}

/// The state with the cookie that a text sets, where it sets one.
pub open spec fn cookie_written(s: StateView, raw: Seq<char>) -> StateView {
    StateView {
        cookies: cookie_set(s.cookies, raw),
        cookies_dirty: s.cookies_dirty || cookie_pair(raw) is Some,
        ..s
    }
}

pub open spec fn item_set(
    s: StateView,
    persistent: bool,
    key: Seq<char>,
    value: Seq<char>,
) -> StateView {
    with_storage(s, persistent, put(storage_of(s, persistent), key, value), true)
}

pub open spec fn item_removed(s: StateView, persistent: bool, key: Seq<char>) -> StateView {
    let m = storage_of(s, persistent);
    with_storage(s, persistent, without(m, key), lookup(m, key) is Some)
}

pub open spec fn storage_cleared(s: StateView, persistent: bool) -> StateView {
    with_storage(s, persistent, Seq::empty(), storage_of(s, persistent).len() > 0)
}

/// The state with a listener, where its event has a name and its callback can be called.
pub open spec fn listened(
    s: StateView,
    target: Seq<char>,
    event: Option<Seq<char>>,
    callback: Option<usize>,
) -> StateView {
    match (event, callback) {
        (Some(event), Some(callback)) => StateView {
            listeners: s.listeners.push(ListenerView { target, event, callback }),
            ..s
        },
        _ => s,
    }
}

/// The state after a listener refused the submit; where no submit was asked for there is
/// none to refuse.
pub open spec fn refused(s: StateView) -> StateView {
    StateView { submit_prevented: s.submit_prevented || s.submit_dispatch_target is Some, ..s }
}

pub open spec fn chunk_pushed(s: StateView, chunk: Seq<char>) -> StateView {
    StateView { rsc_chunks: s.rsc_chunks.push(chunk), ..s }
}

/// What is logged of script number `i` that threw `error`.
pub open spec fn script_error(i: int, src: Seq<char>, error: Seq<char>) -> Seq<char> {
    "script["@ + decimal(i as nat) + "] ("@ + script_head(src) + "): "@ + error
}

/// The listeners that hear of the submit: none where no submit was asked for.
pub open spec fn heard(s: StateView) -> Seq<usize> {
    match s.submit_dispatch_target {
        Some(_) => heard_by(s.listeners, s.submit_dispatch_target),
        None => Seq::empty(),
    }
}

pub open spec fn with_element(s: StateView, id: Seq<char>, e: ElementView) -> StateView {
    StateView { dom: put(s.dom, id, e), ..s }
}

impl JsState {
    /// What a run leaves behind, but for its scripts.
    pub fn finish_run(&self) -> (r: JsResult)
        ensures
            r@ == finished(self@, pushed_text(self@)),
    {
        let mut dom_values: StrMap<String> = StrMap::new();
        let mut inner_html_changes: StrMap<String> = StrMap::new();
        let n: usize = self.dom.len();
        for k in 0..n
            invariant
                n == self.dom@.len(),
                dom_values@ == values_to(self.dom@, k as int),
                inner_html_changes@ == changes_to(self.dom@, k as int),
        {
            let id = self.dom.key_at(k);
            let e = self.dom.value_at(k);
            if e.touched {
                dom_values.insert(id.to_string(), e.value.clone());
            }
            if !same(e.inner_html.as_str(), e.original_inner_html.as_str()) {
                inner_html_changes.insert(id.to_string(), e.inner_html.clone());
            }
        }
        let rsc_text = if self.rsc_chunks.len() == 0 {
            None
        } else {
            assert(texts(self.rsc_chunks@) =~= views(self.rsc_chunks@));
            decode_rsc_payload(join_strings(&self.rsc_chunks, "").as_str())
        };
        let r = JsResult {
            log: duplicate_all(&self.log),
            redirect: self.redirect.clone(),
            cookies: self.cookies.duplicate(),
            cookies_dirty: self.cookies_dirty,
            localstorage: self.local_storage.duplicate(),
            localstorage_dirty: self.local_storage_dirty,
            dom_values,
            scripts: Vec::new(),
            submit_prevented: self.submit_prevented,
            inner_html_changes,
            rsc_text,
        };
        assert(r@.scripts =~= Seq::empty());
        r
    }

    /// What a run of `scripts` leaves behind.
    pub fn finish(&self, scripts: Vec<String>) -> (r: JsResult)
        ensures
            r@ == ended(self@, views(scripts@)),
    {
        let mut r = self.finish_run();
        r.scripts = scripts;
        r
    }

    pub fn record_log(&mut self, channel: &str, msg: &str)
        ensures
            final(self)@ == logged(old(self)@, channel@, msg@),
    {
        let mut line = concat3("[", channel, "] ");
        line.append(msg);
        proof {
            lemma_views_push(self.log@, line);
        }
        self.log.push(line);
    }

    pub fn set_redirect(&mut self, target: String)
        ensures
            final(self)@ == redirected(old(self)@, target@),
    {
        self.redirect = Some(target);
    }

    /// A script threw `error`.
    pub fn script_failed(&mut self, i: usize, src: &str, error: &str)
        ensures
            final(self)@ == logged(old(self)@, "error"@, script_error(i as int, src@, error@)),
    {
        let c = chars_of(src);
        let head = if c.len() > 60 {
            let h = part_string(&c, 0, 60);
            assert(h@ =~= src@.take(60));
            h
        } else {
            src.to_string()
        };
        let head = replace_char(head.as_str(), '\n', " ");
        let mut msg = concat3("script[", number(i).as_str(), "] (");
        msg.append(head.as_str());
        msg.append("): ");
        msg.append(error);
        self.record_log("error", msg.as_str());
    }

    /// A listener that heard of the submit threw `error`.
    pub fn listener_failed(&mut self, error: &str)
        ensures
            final(self)@ == logged(old(self)@, "error"@, "submit listener threw: "@ + error@),
    {
        self.record_log("error", concat("submit listener threw: ", error).as_str());
    }

    /// A callback that waited for a value threw `error`.
    pub fn callback_failed(&mut self, error: &str)
        ensures
            final(self)@ == logged(old(self)@, "error"@, "then callback threw: "@ + error@),
    {
        self.record_log("error", concat("then callback threw: ", error).as_str());
    }

    /// A script asked to hear of events. The event is `None` where it has no name, the
    /// callback `None` where it cannot be called.
    pub fn register_listener(
        &mut self,
        target_id: &str,
        event_type: Option<String>,
        callback: Option<usize>,
    )
        ensures
            final(self)@ == listened(old(self)@, target_id@, opt_text(event_type), callback),
    {
        if let Some(event) = event_type {
            if let Some(callback) = callback {
                let l = Listener { target: target_id.to_string(), event, callback };
                proof {
                    lemma_views_push(self.listeners@, l);
                }
                self.listeners.push(l);
            }
        }
    }

    /// The listeners that hear of the submit, in the order in which they came.
    pub fn submit_listeners(&self) -> (r: Vec<usize>)
        ensures
            r@ == heard(self@),
    {
        let mut out: Vec<usize> = Vec::new();
        if self.submit_dispatch_target.is_none() {
            assert(out@ =~= Seq::empty());
            return out;
        }
        let ghost all = self@.listeners;
        assert(all.take(0) =~= Seq::empty());
        for k in 0..self.listeners.len()
            invariant
                all == views(self.listeners@),
                out@ == heard_by(all.take(k as int), self@.submit_dispatch_target),
        {
            let l = &self.listeners[k];
            let ghost t = all.take(k + 1);
            assert(t.drop_last() =~= all.take(k as int));
            assert(t.last() == l@);
            let named = match &self.submit_dispatch_target {
                Some(form) => same(form.as_str(), l.target.as_str()),
                None => false,
            };
            if same(l.event.as_str(), "submit") && (l.target.as_str().is_empty() || same(
                l.target.as_str(),
                "_document",
            ) || same(l.target.as_str(), "_window") || named) {
                out.push(l.callback);
            }
        }
        assert(all.take(all.len() as int) =~= all);
        out
    }

    /// A listener refuses the submit.
    pub fn prevent_submit(&mut self)
        ensures
            final(self)@ == refused(old(self)@),
    {
        if self.submit_dispatch_target.is_some() {
            self.submit_prevented = true;
        }
    }

    pub fn push_chunk(&mut self, chunk: String)
        ensures
            final(self)@ == chunk_pushed(old(self)@, chunk@),
    {
        proof {
            lemma_views_push(self.rsc_chunks@, chunk);
        }
        self.rsc_chunks.push(chunk);
    }

    // --- Cookies ---

    pub fn document_cookie(&self) -> (r: String)
        ensures
            r@ == cookie_line(self@.cookies),
    {
        write_cookies(&self.cookies)
    }

    pub fn set_document_cookie(&mut self, raw: &str)
        ensures
            final(self)@ == cookie_written(old(self)@, raw@),
    {
        if let Some((name, value)) = read_cookie(raw) {
            self.cookies.insert(name, value);
            self.cookies_dirty = true;
        }
    }

    // --- Elements ---

    /// The element under `id`, made where there is none.
    pub fn edit(&mut self, id: &str) -> (r: &mut ElementState)
        ensures
            r@ == element_of(old(self)@.dom, id@),
            final(self)@ == with_element(old(self)@, id@, final(r)@),
    {
        let ghost before = self.dom@;
        let mut i: usize = self.dom.place(id);
        if i >= self.dom.len() {
            self.dom.insert(id.to_string(), ElementState::default());
            i = self.dom.len() - 1;
        }
        assert(self.dom@[i as int] == (id@, element_of(before, id@)));
        assert(forall|e: ElementView|
            self.dom@.update(i as int, (id@, e)) =~= #[trigger] put(before, id@, e));
        self.dom.get_mut(i)
    }

    pub fn has_element(&self, id: &str) -> (r: bool)
        ensures
            r == (id@.len() > 0 && lookup(self@.dom, id@) is Some),
    {
        !id.is_empty() && self.dom.contains_key(id)
    }

    pub fn query_selector(&self, sel: &str) -> (r: Option<String>)
        ensures
            opt_text(r) == query_id(self@.dom, sel@),
    {
        let c = chars_of(sel);
        if c.len() > 0 && c[0] == '#' {
            let id = part_string(&c, 1, c.len());
            assert(id@ =~= sel@.skip(1));
            if self.dom.contains_key(id.as_str()) {
                return Some(id);
            }
            return None;
        }
        let marks: [char; 5] = [' ', '.', '#', '[', '>'];
        assert(marks@ =~= selector_marks());
        if find_in(&c, &marks, 0) < c.len() {
            return None;
        }
        let want = string_of(&lower_chars(&c));
        let n: usize = self.dom.len();
        let mut i: usize = 0;
        while i < n
            invariant
                n == self.dom@.len(),
                i <= n,
                want@ == lowered(sel@),
                query_id(self@.dom, sel@) == first_tagged(self@.dom, sel@, 0),
                first_tagged(self@.dom, sel@, i as int) == first_tagged(self@.dom, sel@, 0),
            decreases n - i,
        {
            let tag = string_of(&lower_chars(&chars_of(self.dom.value_at(i).tag.as_str())));
            if same(tag.as_str(), want.as_str()) {
                return Some(self.dom.key_at(i).to_string());
            }
            i += 1;
        }
        None
    }

    /// Makes an element without an id of its own and gives the id by which it is kept.
    pub fn create_element(&mut self, tag: &str) -> (r: String)
        ensures
            exists|n: nat|
                is_next_anon(old(self)@.dom, n) && r@ == #[trigger] anon_id(n) && final(self)@
                    == with_element(
                    old(self)@,
                    anon_id(n),
                    ElementView { tag: tag@, ..blank_element() },
                ),
    {
        let len: usize = self.dom.len();
        let mut n: usize = 0;
        loop
            invariant
                self@ == old(self)@,
                len == self.dom@.len(),
                n <= len,
                forall|m: nat| m < n ==> lookup(self@.dom, #[trigger] anon_id(m)) is Some,
            decreases len + 1 - n,
        {
            let id = concat("__anon_", number(n).as_str());
            assert(id@ == anon_id(n as nat));
            if !self.dom.contains_key(id.as_str()) {
                let mut e = ElementState::default();
                e.tag = tag.to_string();
                self.dom.insert(id.clone(), e);
                assert(is_next_anon(old(self)@.dom, n as nat));
                return id;
            }
            if n == len {
                proof {
                    lemma_anon_free(self@.dom);
                }
                assert(false);
            }
            n += 1;
        }
    }

    pub fn tag_name(&self, id: &str) -> (r: String)
        ensures
            match lookup(self@.dom, id@) {
                Some(e) => r@ == uppercase_of(e.tag),
                None => r@.len() == 0,
            },
    {
        match self.dom.get(id) {
            Some(e) => e.tag.as_str().to_uppercase(),
            None => String::new(),
        }
    }

    pub fn element_value(&self, id: &str) -> (r: String)
        ensures
            r@ == element_of(self@.dom, id@).value,
    {
        match self.dom.get(id) {
            Some(e) => e.value.clone(),
            None => {
                let r = String::new();
                assert(r@ =~= Seq::empty());
                r
            },
        }
    }

    pub fn set_element_value(&mut self, id: &str, value: String)
        ensures
            final(self)@ == with_element(
                old(self)@,
                id@,
                valued(element_of(old(self)@.dom, id@), value@),
            ),
    {
        let e = self.edit(id);
        e.value = value;
        e.touched = true;
    }

    pub fn inner_html(&self, id: &str) -> (r: String)
        ensures
            r@ == element_of(self@.dom, id@).inner_html,
    {
        match self.dom.get(id) {
            Some(e) => e.inner_html.clone(),
            None => {
                let r = String::new();
                assert(r@ =~= Seq::empty());
                r
            },
        }
    }

    pub fn set_inner_html(&mut self, id: &str, html: String)
        ensures
            final(self)@ == with_element(
                old(self)@,
                id@,
                ElementView { inner_html: html@, ..element_of(old(self)@.dom, id@) },
            ),
    {
        let e = self.edit(id);
        e.inner_html = html;
    }

    pub fn text_content(&self, id: &str) -> (r: String)
        ensures
            r@ == element_of(self@.dom, id@).text_content,
    {
        match self.dom.get(id) {
            Some(e) => e.text_content.clone(),
            None => {
                let r = String::new();
                assert(r@ =~= Seq::empty());
                r
            },
        }
    }

    pub fn set_text_content(&mut self, id: &str, text: String)
        ensures
            final(self)@ == with_element(
                old(self)@,
                id@,
                ElementView { text_content: text@, ..element_of(old(self)@.dom, id@) },
            ),
    {
        let e = self.edit(id);
        e.text_content = text;
    }

    pub fn is_checked(&self, id: &str) -> (r: bool)
        ensures
            r == element_of(self@.dom, id@).checked,
    {
        match self.dom.get(id) {
            Some(e) => e.checked,
            None => false,
        }
    }

    pub fn set_checked(&mut self, id: &str, checked: bool)
        ensures
            final(self)@ == with_element(
                old(self)@,
                id@,
                ElementView { checked, ..element_of(old(self)@.dom, id@) },
            ),
    {
        let e = self.edit(id);
        e.checked = checked;
    }

    pub fn get_attribute(&self, id: &str, name: &str) -> (r: Option<String>)
        ensures
            opt_text(r) == lookup(element_of(self@.dom, id@).attributes, name@),
    {
        match self.dom.get(id) {
            Some(e) => match e.attributes.get(name) {
                Some(v) => Some(v.clone()),
                None => None,
            },
            None => None,
        }
    }

    pub fn set_attribute(&mut self, id: &str, name: String, value: String)
        ensures
            final(self)@ == with_element(
                old(self)@,
                id@,
                ({
                    let e = element_of(old(self)@.dom, id@);
                    ElementView { attributes: put(e.attributes, name@, value@), ..e }
                }),
            ),
    {
        let e = self.edit(id);
        e.attributes.insert(name, value);
    }

    // --- Storage ---

    pub fn get_item(&self, persistent: bool, key: &str) -> (r: Option<String>)
        ensures
            opt_text(r) == lookup(storage_of(self@, persistent), key@),
    {
        let found = if persistent {
            self.local_storage.get(key)
        } else {
            self.session_storage.get(key)
        };
        match found {
            Some(v) => Some(v.clone()),
            None => None,
        }
    }

    pub fn set_item(&mut self, persistent: bool, key: String, value: String)
        ensures
            final(self)@ == item_set(old(self)@, persistent, key@, value@),
    {
        if persistent {
            self.local_storage.insert(key, value);
            self.local_storage_dirty = true;
        } else {
            self.session_storage.insert(key, value);
        }
    }

    pub fn remove_item(&mut self, persistent: bool, key: &str)
        ensures
            final(self)@ == item_removed(old(self)@, persistent, key@),
    {
        if persistent {
            if self.local_storage.contains_key(key) {
                self.local_storage_dirty = true;
            }
            self.local_storage.remove(key);
        } else {
            self.session_storage.remove(key);
        }
    }

    pub fn clear_storage(&mut self, persistent: bool)
        ensures
            final(self)@ == storage_cleared(old(self)@, persistent),
    {
        if persistent {
            if !self.local_storage.is_empty() {
                self.local_storage_dirty = true;
            }
            self.local_storage.clear();
        } else {
            self.session_storage.clear();
        }
    }

    /// The `n`-th key, in the order in which the keys came.
    pub fn storage_key(&self, persistent: bool, n: i32) -> (r: Option<String>)
        ensures
            opt_text(r) == (if 0 <= n < storage_of(self@, persistent).len() {
                Some(storage_of(self@, persistent)[n as int].0)
            } else {
                None
            }),
    {
        if n < 0 {
            return None;
        }
        let k: usize = n as u32 as usize;
        let m = if persistent {
            &self.local_storage
        } else {
            &self.session_storage
        };
        if k < m.len() {
            Some(m.key_at(k).to_string())
        } else {
            None
        }
    }

    pub fn storage_length(&self, persistent: bool) -> (r: usize)
        ensures
            r == storage_of(self@, persistent).len(),
    {
        if persistent {
            self.local_storage.len()
        } else {
            self.session_storage.len()
        }
    }

    // --- Requests ---

    /// The request that a script's call makes.
    pub fn plan_fetch(
        &self,
        url: &str,
        method: Option<String>,
        headers: Vec<(String, String)>,
        body: Option<String>,
    ) -> (r: ScriptRequest)
        ensures
            r.url@ == script_address(url@, url_joined(self@.page_url, url@)),
            r.method@ == request_method(opt_text(method)),
            r.headers == headers,
            r.body == body,
            opt_text(r.cookie) == (if self@.cookies.len() > 0 {
                Some(cookie_line(self@.cookies))
            } else {
                None
            }),
    {
        let method = match method {
            Some(m) => find_method(m.as_str().to_uppercase()),
            None => "GET".to_string(),
        };
        let cookie = if self.cookies.is_empty() {
            None
        } else {
            Some(write_cookies(&self.cookies))
        };
        ScriptRequest {
            url: absolute_url(self.page_url.as_str(), url),
            method,
            headers,
            cookie,
            body,
        }
    }

    /// A response came; `set_cookie` is the cookie that it sets, where it sets one.
    pub fn receive_fetch(&mut self, set_cookie: Option<&str>)
        ensures
            final(self)@ == (match set_cookie {
                Some(raw) => cookie_written(old(self)@, raw@),
                None => old(self)@,
            }),
    {
        if let Some(raw) = set_cookie {
            self.set_document_cookie(raw);
        }
    }

    /// No response came.
    pub fn fetch_failed(&mut self, url: &str, error: &str)
        ensures
            final(self)@ == logged(
                old(self)@,
                "error"@,
                "fetch "@ + url@ + " failed: "@ + error@,
            ),
    {
        let mut msg = concat3("fetch ", url, " failed: ");
        msg.append(error);
        self.record_log("error", msg.as_str());
    }
}

/// Whether a response with this status is a success.
pub fn is_ok_status(status: u16) -> (r: bool)
    ensures
        r == (200 <= status < 300),
{
    200 <= status && status < 300
}

proof fn lemma_anon_ids_differ(m: nat, n: nat)
    requires
        m != n,
    ensures
        anon_id(m) != anon_id(n),
{
    law_decimal_parses(m, m + n);
    law_decimal_parses(n, m + n);
    if anon_id(m) == anon_id(n) {
        let k = "__anon_"@.len() as int;
        assert(anon_id(m).skip(k) =~= decimal(m));
        assert(anon_id(n).skip(k) =~= decimal(n));
    }
}

/// Of one more ids than there are elements, one is free.
proof fn lemma_anon_free(dom: DomView)
    ensures
        exists|m: nat| m <= dom.len() && lookup(dom, #[trigger] anon_id(m)) is None,
{
    if forall|m: nat| m <= dom.len() ==> lookup(dom, #[trigger] anon_id(m)) is Some {
        let n = (dom.len() + 1) as nat;
        let places = Seq::new(n, |m: int| position(dom, anon_id(m as nat), 0));
        assert forall|i: int, j: int| 0 <= i < n && 0 <= j < n && i != j implies places[i]
            != places[j] by {
            lemma_anon_ids_differ(i as nat, j as nat);
            assert(lookup(dom, anon_id(i as nat)) is Some);
            assert(lookup(dom, anon_id(j as nat)) is Some);
            lemma_position(dom, anon_id(i as nat), 0);
            lemma_position(dom, anon_id(j as nat), 0);
        }
        assert(places.no_duplicates());
        places.unique_seq_to_set();
        let all = vstd::set_lib::set_int_range(0, dom.len() as int);
        vstd::set_lib::lemma_int_range(0, dom.len() as int);
        assert forall|p: int| places.to_set().contains(p) implies all.contains(p) by {
            let i = choose|i: int| 0 <= i < n && places[i] == p;
            assert(lookup(dom, anon_id(i as nat)) is Some);
            lemma_position(dom, anon_id(i as nat), 0);
        }
        vstd::set_lib::lemma_len_subset(places.to_set(), all);
    }
}

} // verus!
