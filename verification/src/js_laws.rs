//! What holds of every run of scripts.

use vstd::prelude::*;
use crate::cookies::{cookie_pair, cookie_set, CookieViews};
use crate::dom::{attr_of, selected_elements, text_of, SelectedView};
use crate::js::{
    attr_map, changes_to, chunk_pushed, cookie_written, dom_to, element_from, element_of, ended,
    finished, first_tagged, heard_by, hears, item_removed, item_set, law_values_reported, listened,
    logged, page_dom, prefilled, pushed_text, query_id, redirected, refused, request_method,
    script_error, script_head, started, storage_cleared, storage_of, valued, values_to,
    with_element, with_storage, DomView, ElementView, ListenerView, StateView,
};
use crate::number::decimal;
use crate::render_laws::{has_part, lemma_part_in};
use crate::rsc::payload_text;
use crate::strmap::{
    distinct, law_put_distinct, law_put_lookup, law_without_lookup, lemma_last, lemma_position,
    lookup, position, put, without,
};
use crate::text::{join, lemma_first_where, lowered, next_in, replaced, uppercase_of};

verus! {

// --- Elements ---

/// No id comes twice among the elements that a page brings.
pub proof fn law_page_ids_distinct(selected: Seq<SelectedView>, n: int)
    ensures
        distinct(dom_to(selected, n)),
    decreases n,
{
    if n > 0 {
        law_page_ids_distinct(selected, n - 1);
        let sel = selected[n - 1];
        if let Some(id) = attr_of(sel.items[0].node, "id"@) {
            law_put_distinct(dom_to(selected, n - 1), id, element_from(sel));
        }
    }
}

proof fn lemma_attr_map(
    attrs: Seq<(Seq<char>, Seq<char>, Seq<char>)>,
    n: int,
    key: Seq<char>,
    k: int,
)
    requires
        0 <= k < n <= attrs.len(),
        attrs[k].1 == key,
        forall|j: int| k < j < n ==> (#[trigger] attrs[j]).1 != key,
    ensures
        lookup(attr_map(attrs, n), key) == Some(attrs[k].2),
    decreases n,
{
    let before = attr_map(attrs, n - 1);
    law_put_lookup(before, attrs[n - 1].1, attrs[n - 1].2, key);
    if k < n - 1 {
        lemma_attr_map(attrs, n - 1, key, k);
    }
}

proof fn lemma_attr_absent(
    attrs: Seq<(Seq<char>, Seq<char>, Seq<char>)>,
    n: int,
    key: Seq<char>,
)
    requires
        n <= attrs.len(),
        forall|j: int| 0 <= j < n ==> (#[trigger] attrs[j]).1 != key,
    ensures
        lookup(attr_map(attrs, n), key) is None,
    decreases n,
{
    if n > 0 {
        law_put_lookup(attr_map(attrs, n - 1), attrs[n - 1].1, attrs[n - 1].2, key);
        lemma_attr_absent(attrs, n - 1, key);
    }
}

proof fn lemma_dom_last(selected: Seq<SelectedView>, n: int, m: int, id: Seq<char>)
    requires
        0 <= m < n <= selected.len(),
        selected[m].items.len() > 0,
        attr_of(selected[m].items[0].node, "id"@) == Some(id),
        forall|j: int|
            m < j < n && (#[trigger] selected[j]).items.len() > 0 ==> attr_of(
                selected[j].items[0].node,
                "id"@,
            ) != Some(id),
    ensures
        lookup(dom_to(selected, n), id) is Some,
        lookup(dom_to(selected, n), id) == lookup(dom_to(selected, m + 1), id),
        n == m + 1 ==> lookup(dom_to(selected, n), id) == Some(element_from(selected[m])),
    decreases n,
{
    let sel = selected[n - 1];
    let before = dom_to(selected, n - 1);
    if n == m + 1 {
        law_put_lookup(before, id, element_from(sel), id);
    } else {
        lemma_dom_last(selected, n - 1, m, id);
        if sel.items.len() > 0 {
            if let Some(other) = attr_of(sel.items[0].node, "id"@) {
                law_put_lookup(before, other, element_from(sel), id);
            }
        }
    }
}

/// When a run begins, each element that scripts reach by its id reads as the page has it:
/// its name, its value, its content as markup and as text, and its attributes. Of elements
/// with one id it is the last.
pub proof fn law_element_as_on_page(
    selected: Seq<SelectedView>,
    m: int,
    id: Seq<char>,
    key: Seq<char>,
    k: int,
)
    requires
        0 <= m < selected.len(),
        selected[m].items.len() > 0,
        selected[m].items[0].node is Element,
        attr_of(selected[m].items[0].node, "id"@) == Some(id),
        forall|j: int|
            m < j < selected.len() && (#[trigger] selected[j]).items.len() > 0 ==> attr_of(
                selected[j].items[0].node,
                "id"@,
            ) != Some(id),
    ensures
        ({
            let sel = selected[m];
            let n = sel.items[0].node;
            let attrs = n->attrs;
            let dom = dom_to(selected, selected.len() as int);
            let e = element_of(dom, id);
            &&& lookup(dom, id) is Some
            &&& e.tag == n->name
            &&& e.value == (match attr_of(n, "value"@) {
                Some(v) => v,
                None => Seq::empty(),
            })
            &&& e.inner_html == sel.inner_html
            &&& e.original_inner_html == sel.inner_html
            &&& e.text_content == text_of(sel.items, 0)
            &&& !e.touched
            &&& e.checked <==> exists|j: int|
                0 <= j < attrs.len() && (#[trigger] attrs[j]).1 == "checked"@
            &&& 0 <= k < attrs.len() && attrs[k].1 == key && (forall|j: int|
                k < j < attrs.len() ==> (#[trigger] attrs[j]).1 != key) ==> lookup(
                e.attributes,
                key,
            ) == Some(attrs[k].2)
            &&& (forall|j: int| 0 <= j < attrs.len() ==> (#[trigger] attrs[j]).1 != key)
                ==> lookup(e.attributes, key) is None
        }),
{
    let n = selected[m].items[0].node;
    let attrs = n->attrs;
    lemma_dom_last(selected, selected.len() as int, m, id);
    lemma_dom_last(selected, m + 1, m, id);
    if 0 <= k < attrs.len() && attrs[k].1 == key && (forall|j: int|
        k < j < attrs.len() ==> (#[trigger] attrs[j]).1 != key) {
        lemma_attr_map(attrs, attrs.len() as int, key, k);
    }
    if forall|j: int| 0 <= j < attrs.len() ==> (#[trigger] attrs[j]).1 != key {
        lemma_attr_absent(attrs, attrs.len() as int, key);
    }
    if exists|j: int| 0 <= j < attrs.len() && (#[trigger] attrs[j]).1 == "checked"@ {
        let j = choose|j: int| 0 <= j < attrs.len() && (#[trigger] attrs[j]).1 == "checked"@;
        lemma_attr_found(attrs, attrs.len() as int, "checked"@, j);
    } else {
        lemma_attr_absent(attrs, attrs.len() as int, "checked"@);
    }
}

proof fn lemma_attr_found(
    attrs: Seq<(Seq<char>, Seq<char>, Seq<char>)>,
    n: int,
    key: Seq<char>,
    k: int,
)
    requires
        0 <= k < n <= attrs.len(),
        attrs[k].1 == key,
    ensures
        lookup(attr_map(attrs, n), key) is Some,
    decreases n,
{
    law_put_lookup(attr_map(attrs, n - 1), attrs[n - 1].1, attrs[n - 1].2, key);
    if k < n - 1 {
        lemma_attr_found(attrs, n - 1, key, k);
    }
}

/// The elements that scripts reach are those with an id, and no others.
pub proof fn law_only_ids(selected: Seq<SelectedView>, n: int, id: Seq<char>)
    requires
        0 <= n <= selected.len(),
        forall|j: int|
            0 <= j < n && (#[trigger] selected[j]).items.len() > 0 ==> attr_of(
                selected[j].items[0].node,
                "id"@,
            ) != Some(id),
    ensures
        lookup(dom_to(selected, n), id) is None,
    decreases n,
{
    if n > 0 {
        let sel = selected[n - 1];
        law_only_ids(selected, n - 1, id);
        if sel.items.len() > 0 {
            if let Some(other) = attr_of(sel.items[0].node, "id"@) {
                law_put_lookup(dom_to(selected, n - 1), other, element_from(sel), id);
            }
        }
    }
}

/// The values that the user typed stand in the elements when a run begins; all else of the
/// elements is as the page has it.
pub proof fn law_typed_value(dom: DomView, values: CookieViews, n: int, id: Seq<char>)
    requires
        distinct(values),
        0 <= n <= values.len(),
    ensures
        ({
            let e = element_of(prefilled(dom, values, n), id);
            let o = element_of(dom, id);
            &&& e.value == (match lookup(values.take(n), id) {
                Some(v) => v,
                None => o.value,
            })
            &&& e.tag == o.tag
            &&& e.checked == o.checked
            &&& e.inner_html == o.inner_html
            &&& e.original_inner_html == o.original_inner_html
            &&& e.text_content == o.text_content
            &&& e.attributes == o.attributes
            &&& e.touched == o.touched
        }),
    decreases n,
{
    if n == 0 {
        assert(values.take(0) =~= Seq::empty());
    } else {
        law_typed_value(dom, values, n - 1, id);
        let before = prefilled(dom, values, n - 1);
        let (key, value) = values[n - 1];
        let t = values.take(n - 1);
        assert(values.take(n) =~= t.push((key, value)));
        lemma_last(t, key, value, id);
        law_put_lookup(before, key, ElementView { value, ..element_of(before, key) }, id);
        if id == key {
            lemma_position(t, key, 0);
            let p = position(t, key, 0);
            if p < t.len() {
                assert(values[p].0 == values[n - 1].0);
            }
        }
    }
}

/// No id comes twice after the user's values have been filled in.
pub proof fn law_prefilled_distinct(dom: DomView, values: CookieViews, n: int)
    requires
        distinct(dom),
    ensures
        distinct(prefilled(dom, values, n)),
    decreases n,
{
    if n > 0 {
        law_prefilled_distinct(dom, values, n - 1);
        let before = prefilled(dom, values, n - 1);
        let (id, value) = values[n - 1];
        law_put_distinct(before, id, ElementView { value, ..element_of(before, id) });
    }
}

/// An element that a script changed reads as it was changed, every other as before, and
/// no id comes twice.
pub proof fn law_element_changes(s: StateView, id: Seq<char>, e: ElementView, other: Seq<char>)
    requires
        distinct(s.dom),
    ensures
        distinct(with_element(s, id, e).dom),
        element_of(with_element(s, id, e).dom, id) == e,
        other != id ==> element_of(with_element(s, id, e).dom, other) == element_of(s.dom, other),
{
    law_put_distinct(s.dom, id, e);
    law_put_lookup(s.dom, id, e, other);
}

/// A value that a script gave to an element, an empty one too, is among the values that
/// the run reports.
pub proof fn law_value_surfaces(s: StateView, id: Seq<char>, value: Seq<char>)
    requires
        distinct(s.dom),
    ensures
        ({
            let e = valued(element_of(s.dom, id), value);
            let after = with_element(s, id, e);
            lookup(finished(after, pushed_text(after)).dom_values, id) == Some(value)
        }),
{
    let e = valued(element_of(s.dom, id), value);
    let after = with_element(s, id, e);
    law_element_changes(s, id, e, id);
    law_put_lookup(s.dom, id, e, id);
    law_values_reported(after.dom, id);
}

proof fn lemma_dom_untouched(selected: Seq<SelectedView>, n: int)
    requires
        n <= selected.len(),
    ensures
        untouched(dom_to(selected, n)),
    decreases n,
{
    if n > 0 {
        lemma_dom_untouched(selected, n - 1);
    }
}

proof fn lemma_prefilled_untouched(dom: DomView, values: CookieViews, n: int)
    requires
        untouched(dom),
        n <= values.len(),
    ensures
        untouched(prefilled(dom, values, n)),
    decreases n,
{
    if n > 0 {
        let before = prefilled(dom, values, n - 1);
        lemma_prefilled_untouched(dom, values, n - 1);
        lemma_position(before, values[n - 1].0, 0);
    }
}

proof fn lemma_none_reported(dom: DomView, n: int)
    requires
        untouched(dom),
        n <= dom.len(),
    ensures
        values_to(dom, n).len() == 0,
    decreases n,
{
    if n > 0 {
        lemma_none_reported(dom, n - 1);
    }
}

/// No element's value has been set by a script.
pub open spec fn untouched(dom: DomView) -> bool {
    forall|i: int| 0 <= i < dom.len() ==> !(#[trigger] dom[i]).1.touched
}

/// A run in which no script sets a value reports none, whatever values the page and the
/// user brought.
pub proof fn law_untouched_silent(
    html: Seq<char>,
    host: Seq<char>,
    page_url: Seq<char>,
    cookies: CookieViews,
    localstorage: CookieViews,
    values: CookieViews,
    form: Option<Seq<char>>,
)
    ensures
        ({
            let s = started(page_dom(html), host, page_url, cookies, localstorage, values, form);
            finished(s, pushed_text(s)).dom_values.len() == 0
        }),
{
    if let Some(v) = selected_elements(html, "[id]"@) {
        lemma_dom_untouched(v, v.len() as int);
    }
    let dom = prefilled(page_dom(html), values, values.len() as int);
    lemma_prefilled_untouched(page_dom(html), values, values.len() as int);
    lemma_none_reported(dom, dom.len() as int);
}

proof fn lemma_changes(dom: DomView, n: int, id: Seq<char>)
    requires
        distinct(dom),
        0 <= n <= dom.len(),
    ensures
        lookup(changes_to(dom, n), id) == (match lookup(dom.take(n), id) {
            Some(e) => if e.inner_html != e.original_inner_html {
                Some(e.inner_html)
            } else {
                None
            },
            None => None,
        }),
    decreases n,
{
    if n == 0 {
        assert(dom.take(0) =~= Seq::empty());
    } else {
        lemma_changes(dom, n - 1, id);
        let t = dom.take(n - 1);
        let (k, e) = dom[n - 1];
        assert(dom.take(n) =~= t.push((k, e)));
        lemma_last(t, k, e, id);
        law_put_lookup(changes_to(dom, n - 1), k, e.inner_html, id);
        if id == k {
            lemma_position(t, k, 0);
            let p = position(t, k, 0);
            if p < t.len() {
                assert(dom[p].0 == dom[n - 1].0);
            }
        }
    }
}

/// A run reports the content of exactly those elements whose content differs from what
/// the page brought.
pub proof fn law_changes_reported(dom: DomView, id: Seq<char>)
    requires
        distinct(dom),
    ensures
        lookup(changes_to(dom, dom.len() as int), id) == (match lookup(dom, id) {
            Some(e) => if e.inner_html != e.original_inner_html {
                Some(e.inner_html)
            } else {
                None
            },
            None => None,
        }),
{
    lemma_changes(dom, dom.len() as int, id);
    assert(dom.take(dom.len() as int) =~= dom);
}

// --- Storage ---

/// What was stored is read back, and other keys are as they were.
pub proof fn law_stored_is_read(
    s: StateView,
    persistent: bool,
    key: Seq<char>,
    value: Seq<char>,
    other: Seq<char>,
)
    ensures
        ({
            let m = storage_of(s, persistent);
            let written = with_storage(s, persistent, put(m, key, value), true);
            let after = storage_of(written, persistent);
            &&& lookup(after, key) == Some(value)
            &&& other != key ==> lookup(after, other) == lookup(m, other)
        }),
{
    law_put_lookup(storage_of(s, persistent), key, value, other);
}

/// What was removed is not read back, and other keys are as they were.
pub proof fn law_removed_is_gone(
    s: StateView,
    persistent: bool,
    key: Seq<char>,
    other: Seq<char>,
)
    ensures
        ({
            let m = storage_of(s, persistent);
            let after = storage_of(
                with_storage(s, persistent, without(m, key), lookup(m, key) is Some),
                persistent,
            );
            &&& lookup(after, key) is None
            &&& other != key ==> lookup(after, other) == lookup(m, other)
        }),
{
    law_without_lookup(storage_of(s, persistent), key, other);
}

proof fn lemma_without_absent(m: CookieViews, key: Seq<char>)
    requires
        lookup(m, key) is None,
    ensures
        without(m, key) == m,
    decreases m.len(),
{
    if m.len() > 0 {
        let d = m.drop_last();
        lemma_last(d, m.last().0, m.last().1, key);
        assert(d.push(m.last()) =~= m);
        lemma_without_absent(d, key);
    }
}

/// A run that does not say that the stored data changed did not change them: a removal
/// that finds nothing and a clearing of what is empty leave them as they were.
pub proof fn law_clean_storage(s: StateView, key: Seq<char>)
    ensures
        ({
            let m = s.local_storage;
            let removed = with_storage(s, true, without(m, key), lookup(m, key) is Some);
            let cleared = with_storage(s, true, Seq::empty(), m.len() > 0);
            &&& !removed.local_storage_dirty ==> removed.local_storage == m
            &&& !cleared.local_storage_dirty ==> cleared.local_storage == m
        }),
{
    let m = s.local_storage;
    if lookup(m, key) is None {
        lemma_without_absent(m, key);
    }
    if m.len() == 0 {
        assert(m =~= Seq::empty());
    }
}

/// What one storage does leaves the other alone.
pub proof fn law_storages_apart(s: StateView, persistent: bool, m: CookieViews, changed: bool)
    ensures
        storage_of(with_storage(s, persistent, m, changed), !persistent) == storage_of(
            s,
            !persistent,
        ),
        storage_of(with_storage(s, persistent, m, changed), persistent) == m,
{
}

/// A text that sets no cookie changes none.
pub proof fn law_clean_cookies(m: CookieViews, raw: Seq<char>)
    requires
        cookie_pair(raw) is None,
    ensures
        cookie_set(m, raw) == m,
{
}

// --- Listeners ---

/// A submit that nobody listens to is heard by nobody.
pub proof fn law_no_listener(form: Option<Seq<char>>)
    ensures
        heard_by(Seq::empty(), form) == Seq::<usize>::empty(),
{
}

/// A listener for submits at the document or the window hears every submit; one at an
/// element hears that of its own form only.
pub proof fn law_who_hears(target: Seq<char>, callback: usize, form: Option<Seq<char>>)
    ensures
        ({
            let l = ListenerView { target, event: "submit"@, callback };
            &&& target == "_document"@ || target == "_window"@ ==> hears(l, form)
            &&& target.len() > 0 && target != "_document"@ && target != "_window"@ ==> hears(
                l,
                form,
            ) == (form == Some(target))
        }),
{
}

proof fn lemma_heard(ls: Seq<ListenerView>, form: Option<Seq<char>>, k: int)
    requires
        0 <= k < ls.len(),
        hears(ls[k], form),
    ensures
        heard_by(ls, form).contains(ls[k].callback),
    decreases ls.len(),
{
    let h = heard_by(ls, form);
    if k == ls.len() - 1 {
        assert(h[h.len() - 1] == ls[k].callback);
    } else {
        let d = ls.drop_last();
        assert(d[k] == ls[k]);
        lemma_heard(d, form, k);
        let before = heard_by(d, form);
        let i = choose|i: int| 0 <= i < before.len() && before[i] == ls[k].callback;
        assert(h[i] == ls[k].callback);
    }
}

/// Every listener that hears of a submit is called.
pub proof fn law_listeners_called(ls: Seq<ListenerView>, form: Option<Seq<char>>)
    ensures
        forall|k: int|
            0 <= k < ls.len() && hears(#[trigger] ls[k], form) ==> heard_by(ls, form).contains(
                ls[k].callback,
            ),
{
    assert forall|k: int| 0 <= k < ls.len() && hears(#[trigger] ls[k], form) implies heard_by(
        ls,
        form,
    ).contains(ls[k].callback) by {
        lemma_heard(ls, form, k);
    }
}

// --- What a run begins with and leaves behind ---

/// A run begins with the page's elements, the cookies and the data that came in, and with
/// nothing logged, refused, heard or stored for the session.
pub proof fn law_run_begins(
    dom: DomView,
    host: Seq<char>,
    page_url: Seq<char>,
    cookies: CookieViews,
    localstorage: CookieViews,
    form: Option<Seq<char>>,
)
    ensures
        ({
            let s = started(dom, host, page_url, cookies, localstorage, Seq::empty(), form);
            &&& s.dom == dom
            &&& s.cookies == cookies
            &&& s.local_storage == localstorage
            &&& s.session_storage.len() == 0
            &&& s.page_host == host
            &&& s.page_url == page_url
            &&& s.submit_dispatch_target == form
            &&& s.log.len() == 0
            &&& s.redirect is None
            &&& s.listeners.len() == 0
            &&& s.rsc_chunks.len() == 0
            &&& !s.cookies_dirty && !s.local_storage_dirty && !s.submit_prevented
        }),
{
}

/// The result of a run is the state that it left: what was logged, where it leads, its
/// cookies and stored data, and whether a submit was refused.
pub proof fn law_result_reports(s: StateView, scripts: Seq<Seq<char>>)
    ensures
        ({
            let r = ended(s, scripts);
            &&& r.log == s.log
            &&& r.redirect == s.redirect
            &&& r.cookies == s.cookies
            &&& r.cookies_dirty == s.cookies_dirty
            &&& r.localstorage == s.local_storage
            &&& r.localstorage_dirty == s.local_storage_dirty
            &&& r.submit_prevented == s.submit_prevented
            &&& r.scripts == scripts
            &&& s.rsc_chunks.len() == 0 ==> r.rsc_text is None
            &&& s.rsc_chunks.len() > 0 ==> r.rsc_text == payload_text(
                join(s.rsc_chunks, Seq::empty()),
            )
        }),
{
    reveal_strlit("");
    assert(""@ =~= Seq::<char>::empty());
}

/// What a script logs is one more line, with its channel in brackets before it; what it
/// logged before stays.
pub proof fn law_logged(s: StateView, channel: Seq<char>, msg: Seq<char>)
    ensures
        ({
            let t = logged(s, channel, msg);
            &&& t.log.len() == s.log.len() + 1
            &&& t.log.drop_last() == s.log
            &&& t.log.last() == seq!['['] + channel + seq![']', ' '] + msg
            &&& t.dom == s.dom && t.cookies == s.cookies && t.redirect == s.redirect
        }),
{
    reveal_strlit("[");
    reveal_strlit("] ");
    assert("["@ =~= seq!['[']);
    assert("] "@ =~= seq![']', ' ']);
    assert(logged(s, channel, msg).log.drop_last() =~= s.log);
}

/// The page that a script asked for last is the one that the run leads to.
pub proof fn law_last_redirect(s: StateView, target: Seq<char>, scripts: Seq<Seq<char>>)
    ensures
        ended(redirected(s, target), scripts).redirect == Some(target),
{
}

/// A cookie that a script writes is read back, and the run says that cookies changed.
pub proof fn law_cookie_written(s: StateView, raw: Seq<char>, scripts: Seq<Seq<char>>)
    requires
        cookie_pair(raw) is Some,
    ensures
        ({
            let (name, value) = cookie_pair(raw)->0;
            let t = cookie_written(s, raw);
            &&& lookup(t.cookies, name) == Some(value)
            &&& ended(t, scripts).cookies_dirty
            &&& t.log == s.log && t.dom == s.dom && t.local_storage == s.local_storage
        }),
{
    let (name, value) = cookie_pair(raw)->0;
    law_put_lookup(s.cookies, name, value, name);
}

/// What a script stores to be kept makes the run say so; what it stores for the session
/// does not.
pub proof fn law_storage_marked(s: StateView, key: Seq<char>, value: Seq<char>)
    ensures
        item_set(s, true, key, value).local_storage_dirty,
        item_set(s, false, key, value).local_storage_dirty == s.local_storage_dirty,
        lookup(s.local_storage, key) is Some ==> item_removed(s, true, key).local_storage_dirty,
        s.local_storage.len() > 0 ==> storage_cleared(s, true).local_storage_dirty,
        storage_cleared(s, true).local_storage.len() == 0,
        storage_cleared(s, false).session_storage.len() == 0,
        storage_cleared(s, false).local_storage == s.local_storage,
{
}

/// A listener is registered where it has an event and a callback, behind those before it.
pub proof fn law_listener_registered(
    s: StateView,
    target: Seq<char>,
    event: Seq<char>,
    callback: usize,
)
    ensures
        ({
            let t = listened(s, target, Some(event), Some(callback));
            &&& t.listeners == s.listeners.push(ListenerView { target, event, callback })
            &&& listened(s, target, None, Some(callback)) == s
            &&& listened(s, target, Some(event), None) == s
        }),
{
}

/// A submit that a listener refuses is refused in the result, where a submit was asked for.
pub proof fn law_refused(s: StateView, scripts: Seq<Seq<char>>)
    ensures
        s.submit_dispatch_target is Some ==> ended(refused(s), scripts).submit_prevented,
        s.submit_dispatch_target is None ==> refused(s) == s,
{
}

/// A piece that the page pushes comes behind those before it.
pub proof fn law_chunk_pushed(s: StateView, chunk: Seq<char>)
    ensures
        chunk_pushed(s, chunk).rsc_chunks == s.rsc_chunks.push(chunk),
        chunk_pushed(s, chunk).dom == s.dom,
{
}

// --- Selectors ---

/// A selector of `#` and an id names the element with that id.
pub proof fn law_select_id(dom: DomView, id: Seq<char>)
    ensures
        lookup(dom, id) is Some ==> query_id(dom, seq!['#'] + id) == Some(id),
        lookup(dom, id) is None ==> query_id(dom, seq!['#'] + id) is None,
{
    assert((seq!['#'] + id).skip(1) =~= id);
}

proof fn lemma_first_tagged(dom: DomView, tag: Seq<char>, i: int, k: int)
    requires
        0 <= i <= k < dom.len(),
        lowered(dom[k].1.tag) == lowered(tag),
        forall|j: int| i <= j < k ==> lowered((#[trigger] dom[j]).1.tag) != lowered(tag),
    ensures
        first_tagged(dom, tag, i) == Some(dom[k].0),
    decreases k - i,
{
    if i < k {
        assert(lowered(dom[i].1.tag) != lowered(tag));
        lemma_first_tagged(dom, tag, i + 1, k);
    }
}

/// A selector that is a tag names the first element with that tag, in capitals or not;
/// anything with a space, a dot, `#`, `[` or `>` in it names none.
pub proof fn law_select_tag(dom: DomView, sel: Seq<char>, k: int)
    requires
        sel.len() > 0 ==> sel[0] != '#',
    ensures
        ({
            let plain = !sel.contains(' ') && !sel.contains('.') && !sel.contains('#')
                && !sel.contains('[') && !sel.contains('>');
            &&& plain && 0 <= k < dom.len() && lowered(dom[k].1.tag) == lowered(sel) && (forall|
                j: int,
            |
                0 <= j < k ==> lowered((#[trigger] dom[j]).1.tag) != lowered(sel)) ==> query_id(
                dom,
                sel,
            ) == Some(dom[k].0)
            &&& !plain ==> query_id(dom, sel) is None
        }),
{
    let marks = seq![' ', '.', '#', '[', '>'];
    let stops = |x: char| marks.contains(x);
    lemma_first_where(sel, stops, 0);
    let e = next_in(sel, marks, 0);
    assert(marks[0] == ' ' && marks[1] == '.' && marks[2] == '#' && marks[3] == '[' && marks[4]
        == '>');
    let plain = !sel.contains(' ') && !sel.contains('.') && !sel.contains('#') && !sel.contains('[')
        && !sel.contains('>');
    if plain {
        if e < sel.len() {
            assert(stops(sel[e]));
            assert(sel.contains(sel[e]));
        }
        if 0 <= k < dom.len() && lowered(dom[k].1.tag) == lowered(sel) && (forall|j: int|
            0 <= j < k ==> lowered((#[trigger] dom[j]).1.tag) != lowered(sel)) {
            lemma_first_tagged(dom, sel, 0, k);
        }
    } else {
        let c = if sel.contains(' ') {
            ' '
        } else if sel.contains('.') {
            '.'
        } else if sel.contains('#') {
            '#'
        } else if sel.contains('[') {
            '['
        } else {
            '>'
        };
        let i = choose|i: int| 0 <= i < sel.len() && sel[i] == c;
        assert(stops(sel[i]));
        assert(e < sel.len());
    }
}

// --- Requests of scripts ---

/// A script's request is a post, a put or a delete where it asks for one, in capitals or
/// not, and else a plain one.
pub proof fn law_request_method(method: Seq<char>)
    ensures
        uppercase_of(method) == "POST"@ ==> request_method(Some(method)) == "POST"@,
        uppercase_of(method) == "PUT"@ ==> request_method(Some(method)) == "PUT"@,
        uppercase_of(method) == "DELETE"@ ==> request_method(Some(method)) == "DELETE"@,
        uppercase_of(method) != "POST"@ && uppercase_of(method) != "PUT"@ && uppercase_of(method)
            != "DELETE"@ ==> request_method(Some(method)) == "GET"@,
        request_method(None) == "GET"@,
{
}

/// What is logged of a script that throws names its number and its error, and the script's
/// beginning on one line.
pub proof fn law_script_error(i: int, src: Seq<char>, error: Seq<char>)
    requires
        0 <= i,
    ensures
        ({
            let line = script_error(i, src, error);
            &&& has_part(line, "script["@ + decimal(i as nat) + "]"@)
            &&& has_part(line, error)
            &&& has_part(line, script_head(src))
            &&& !script_head(src).contains('\n')
            &&& src.len() <= 60 && !src.contains('\n') ==> script_head(src) == src
        }),
{
    let line = script_error(i, src, error);
    let n = "script["@ + decimal(i as nat);
    reveal_strlit("] (");
    reveal_strlit("]");
    assert("] ("@ =~= "]"@ + seq![' ', '(']);
    lemma_part_in(
        Seq::empty(),
        n + "]"@,
        seq![' ', '('] + script_head(src) + "): "@ + error,
    );
    assert(Seq::<char>::empty() + (n + "]"@) + (seq![' ', '('] + script_head(src) + "): "@ + error)
        =~= line);
    lemma_part_in(n + "] ("@ + script_head(src) + "): "@, error, Seq::empty());
    assert(n + "] ("@ + script_head(src) + "): "@ + error + Seq::<char>::empty() =~= line);
    lemma_part_in(n + "] ("@, script_head(src), "): "@ + error);
    assert(n + "] ("@ + script_head(src) + ("): "@ + error) =~= line);
    let head = if src.len() > 60 {
        src.take(60)
    } else {
        src
    };
    reveal_strlit(" ");
    assert(!" "@.contains('\n'));
    lemma_no_breaks(head);
    if !src.contains('\n') {
        lemma_replaced_same(src);
    }
}

proof fn lemma_no_breaks(s: Seq<char>)
    ensures
        !replaced(s, '\n', " "@).contains('\n'),
    decreases s.len(),
{
    reveal_strlit(" ");
    if s.len() > 0 {
        lemma_no_breaks(s.drop_last());
        let r = replaced(s, '\n', " "@);
        let d = replaced(s.drop_last(), '\n', " "@);
        assert forall|k: int| 0 <= k < r.len() implies r[k] != '\n' by {
            if k < d.len() {
                assert(r[k] == d[k]);
                assert(d.contains(d[k]));
            }
        }
    }
}

proof fn lemma_replaced_same(s: Seq<char>)
    requires
        !s.contains('\n'),
    ensures
        replaced(s, '\n', " "@) == s,
    decreases s.len(),
{
    if s.len() > 0 {
        let d = s.drop_last();
        assert(!d.contains('\n')) by {
            if d.contains('\n') {
                let k = choose|k: int| 0 <= k < d.len() && d[k] == '\n';
                assert(s[k] == '\n');
            }
        }
        assert(s[s.len() - 1] != '\n');
        lemma_replaced_same(d);
        assert(replaced(s, '\n', " "@) =~= s);
    } else {
        assert(replaced(s, '\n', " "@) =~= s);
    }
}

} // verus!
