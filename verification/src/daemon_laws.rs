//! What holds of the values in a JSON document, and of the replies that come in one.

use vstd::prelude::*;
use crate::assistant::answer_text;
use crate::images::thumbnail;
use crate::json::{
    children_of, json_at, json_children, json_end, json_member, json_rise, lemma_json_rise,
    member_of, text_member, JsonView, LeafView,
};
use crate::servo_daemon::{
    cookies_reply, debug_text, element_reply, is_next, navigate_reply, reply_in, unended, NavView,
    NextStep, ReplyView, Sending, Stage,
};

verus! {

broadcast use vstd::string::group_string_axioms;

// --- Values ---

/// Each value lies at most one step deeper than the one before it, as in any document that
/// is written down from its outside to its inside.
pub open spec fn is_nested(v: Seq<JsonView>) -> bool {
    forall|j: int| 0 < j < v.len() ==> (#[trigger] v[j]).depth <= v[j - 1].depth + 1
}

proof fn lemma_rise(v: Seq<JsonView>, depth: int, j: int)
    requires
        0 <= j <= v.len(),
    ensures
        j <= json_rise(v, depth, j) <= v.len(),
        json_rise(v, depth, j) < v.len() ==> v[json_rise(v, depth, j)].depth <= depth,
        forall|m: int| j <= m < json_rise(v, depth, j) ==> (#[trigger] v[m]).depth > depth,
    decreases v.len() - j,
{
    if j < v.len() && v[j].depth > depth {
        lemma_rise(v, depth, j + 1);
    }
}

proof fn lemma_children(v: Seq<JsonView>, depth: int, j: int, stop: int, k: int)
    requires
        0 <= j <= stop <= v.len(),
        j < stop ==> v[j].depth == depth,
        forall|m: int| j <= m < stop ==> (#[trigger] v[m]).depth >= depth,
    ensures
        json_children(v, j, stop).contains(k) <==> j <= k < stop && v[k].depth == depth,
    decreases v.len() - j,
{
    if j < stop {
        lemma_rise(v, v[j].depth, j + 1);
        lemma_json_rise(v, v[j].depth, j + 1);
        let e = json_end(v, j);
        let rest = json_children(v, e, stop);
        let all = json_children(v, j, stop);
        assert(all == seq![j] + rest);
        if e < stop {
            lemma_children(v, depth, e, stop, k);
        } else {
            assert(rest =~= Seq::empty());
        }
        if k == j {
            assert(all[0] == k);
        }
        if rest.contains(k) {
            let i = choose|i: int| 0 <= i < rest.len() && rest[i] == k;
            assert(all[i + 1] == k);
        }
        if all.contains(k) && k != j {
            let i = choose|i: int| 0 <= i < all.len() && all[i] == k;
            assert(rest[i - 1] == k);
        }
    }
}

/// The values directly in another are those that lie one step deeper, before the next that
/// lies no deeper.
pub proof fn law_values_in(v: Seq<JsonView>, i: int, k: int)
    requires
        0 <= i < v.len(),
        is_nested(v),
    ensures
        children_of(v, i).contains(k) <==> {
            &&& i < k < v.len()
            &&& v[k].depth == v[i].depth + 1
            &&& forall|m: int| i < m <= k ==> (#[trigger] v[m]).depth > v[i].depth
        },
{
    let e = json_end(v, i);
    lemma_rise(v, v[i].depth, i + 1);
    lemma_children(v, v[i].depth + 1, i + 1, e, k);
    if i < k < v.len() && k >= e {
        assert(v[e].depth <= v[i].depth);
    }
}

proof fn lemma_member(v: Seq<JsonView>, depth: int, key: Seq<char>, j: int, stop: int)
    requires
        0 <= j <= stop <= v.len(),
        j < stop ==> v[j].depth == depth,
        forall|m: int| j <= m < stop ==> (#[trigger] v[m]).depth >= depth,
    ensures
        match json_member(v, key, j, stop) {
            Some(k) => j <= k < stop && v[k].depth == depth && v[k].key == key && forall|m: int|
                j <= m < k && (#[trigger] v[m]).depth == depth ==> v[m].key != key,
            None => forall|m: int|
                j <= m < stop && (#[trigger] v[m]).depth == depth ==> v[m].key != key,
        },
    decreases v.len() - j,
{
    if j < stop && v[j].key != key {
        lemma_rise(v, v[j].depth, j + 1);
        lemma_json_rise(v, v[j].depth, j + 1);
        let e = json_end(v, j);
        if e < stop {
            lemma_member(v, depth, key, e, stop);
        }
    }
}

/// A key leads to the first value directly in the object that stands under it, and to
/// nothing where there is none.
pub proof fn law_member(v: Seq<JsonView>, i: int, key: Seq<char>)
    requires
        0 <= i < v.len(),
        v[i].node is Object,
        is_nested(v),
    ensures
        match member_of(v, i, key) {
            Some(k) => children_of(v, i).contains(k) && v[k].key == key && forall|m: int|
                m < k && #[trigger] children_of(v, i).contains(m) ==> v[m].key != key,
            None => forall|m: int| #[trigger] children_of(v, i).contains(m) ==> v[m].key != key,
        },
{
    let e = json_end(v, i);
    lemma_rise(v, v[i].depth, i + 1);
    lemma_member(v, v[i].depth + 1, key, i + 1, e);
    assert forall|m: int| #[trigger] children_of(v, i).contains(m) <==> i + 1 <= m < e && v[m].depth
        == v[i].depth + 1 by {
        lemma_children(v, v[i].depth + 1, i + 1, e, m);
    }
}

/// What is no object has no members.
pub proof fn law_no_member(v: Seq<JsonView>, i: int, key: Seq<char>)
    ensures
        0 <= i < v.len() && !(v[i].node is Object) ==> member_of(v, i, key) is None,
{
}

/// The answer is the content of the message of the first choice.
pub proof fn law_answer(v: Seq<JsonView>, c: int, f: int, m: int, t: Seq<char>)
    requires
        member_of(v, 0, "choices"@) == Some(c),
        v[c].node is List,
        children_of(v, c).len() > 0,
        children_of(v, c)[0] == f,
        member_of(v, f, "message"@) == Some(m),
        text_member(v, m, "content"@) == Some(t),
    ensures
        answer_text(v) == Some(t),
{
}

/// The thumbnail is what stands under `thumbnail_url`.
pub proof fn law_thumbnail(v: Seq<JsonView>)
    ensures
        thumbnail(Some(v)) == text_member(v, 0, "thumbnail_url"@),
        thumbnail(None) is None,
{
}

// --- Replies ---

/// Each part of a reply is read from the member of its name.
pub proof fn law_reply_read(doc: Seq<char>, t: Seq<char>, n: u64, b: bool)
    ensures
        json_at(doc, "/html"@) == Ok::<_, Seq<char>>(Some(LeafView::Text(t))) ==> reply_in(doc).html
            == Some(t),
        json_at(doc, "/url"@) == Ok::<_, Seq<char>>(Some(LeafView::Text(t))) ==> reply_in(doc).url
            == Some(t),
        json_at(doc, "/error"@) == Ok::<_, Seq<char>>(Some(LeafView::Text(t))) ==> reply_in(
            doc,
        ).error == Some(t),
        json_at(doc, "/result"@) == Ok::<_, Seq<char>>(Some(LeafView::Text(t))) ==> reply_in(
            doc,
        ).result == Some(t),
        json_at(doc, "/ok"@) == Ok::<_, Seq<char>>(Some(LeafView::Bool(b))) ==> reply_in(doc).ok
            == Some(b),
        json_at(doc, "/timed_out"@) == Ok::<_, Seq<char>>(Some(LeafView::Bool(b))) ==> reply_in(
            doc,
        ).timed_out == Some(b),
        json_at(doc, "/frames"@) == Ok::<_, Seq<char>>(Some(LeafView::Number(Some(n))))
            ==> reply_in(doc).frames == Some(n),
        json_at(doc, "/installed"@) == Ok::<_, Seq<char>>(Some(LeafView::Number(Some(n))))
            ==> reply_in(doc).installed == Some(n),
{
}

/// The line feed that ends a line is no part of its document.
pub proof fn law_line_unended(doc: Seq<char>)
    requires
        doc.len() > 0 ==> doc.last() != '\n',
    ensures
        unended(doc) == doc,
        unended(doc.push('\n')) == doc,
{
    assert(doc.push('\n').drop_last() =~= doc);
}

/// A page that was loaded is handed on as it came; one that was not gives its error.
pub proof fn law_page_reply(v: ReplyView, url: Seq<char>)
    ensures
        v.ok == Some(true) ==> navigate_reply(v, url) is Ok && {
            let r = navigate_reply(v, url)->Ok_0;
            &&& v.html matches Some(h) ==> r.html == h
            &&& v.url matches Some(u) ==> r.url == u
            &&& v.url is None ==> r.url == url
            &&& v.frames matches Some(n) ==> r.frames == n
            &&& r.timed_out <==> v.timed_out == Some(true)
        },
        v.ok != Some(true) ==> navigate_reply(v, url) is Err,
        v.ok != Some(true) ==> (v.error matches Some(e) ==> navigate_reply(v, url)
            == Err::<NavView, Seq<char>>(e)),
        v.ok != Some(true) && v.error is None ==> navigate_reply(v, url) == Err::<
            NavView,
            Seq<char>,
        >("unknown"@),
{
}

/// How many cookies were taken is what the reply says.
pub proof fn law_cookies_reply(v: ReplyView, n: u64)
    ensures
        v.ok == Some(true) && v.installed == Some(n) ==> cookies_reply(v) == Ok::<u64, Seq<char>>(
            n,
        ),
        v.ok == Some(true) && v.installed is None ==> cookies_reply(v) == Ok::<u64, Seq<char>>(0),
        v.ok != Some(true) ==> cookies_reply(v) is Err,
        v.ok != Some(true) ==> (v.error matches Some(e) ==> cookies_reply(v) == Err::<
            u64,
            Seq<char>,
        >(e)),
{
}

/// A command on an element hands on the page; its address comes along where the command can
/// lead to another page. An element that was not found is named.
pub proof fn law_element_reply(v: ReplyView, selector: Seq<char>, moves: bool)
    ensures
        v.ok == Some(true) && v.result == Some("ok"@) ==> element_reply(v, selector, moves) is Ok
            && {
            let r = element_reply(v, selector, moves)->Ok_0;
            &&& v.html matches Some(h) ==> r.html == h
            &&& moves ==> (v.url matches Some(u) ==> r.url == u)
            &&& !moves ==> r.url.len() == 0
            &&& !r.timed_out
        },
        v.ok == Some(true) && v.result == Some("not_found"@) ==> element_reply(v, selector, moves)
            == Err::<NavView, Seq<char>>("no element matched selector "@ + selector),
        v.ok == Some(true) && v.result != Some("ok"@) && v.result != Some("not_found"@)
            ==> element_reply(v, selector, moves) == Err::<NavView, Seq<char>>(
            "unexpected result: "@ + debug_text(v.result),
        ),
        v.ok != Some(true) ==> (v.error matches Some(e) ==> element_reply(v, selector, moves)
            == Err::<NavView, Seq<char>>(e)),
        v.ok != Some(true) ==> element_reply(v, selector, moves) is Err,
{
    reveal_strlit("");
    reveal_strlit("ok");
    reveal_strlit("not_found");
    assert("ok"@.len() == 2);
    assert("not_found"@.len() == 9);
}

/// A command connects, writes and reads, in this order. After its first failure it begins
/// again, after its second it is given up.
pub proof fn law_command_sent(n: NextStep, retry: bool, e: Seq<char>)
    ensures
        is_next(n, (Sending { retry, stage: Stage::Connecting }), None) ==> n
            == NextStep::Continue(Sending { retry, stage: Stage::Writing }),
        is_next(n, (Sending { retry, stage: Stage::Writing }), None) ==> n == NextStep::Continue(
            Sending { retry, stage: Stage::Reading },
        ),
        is_next(n, (Sending { retry, stage: Stage::Reading }), None) ==> n is Finished,
        forall|stage: Stage|
            #[trigger] is_next(n, (Sending { retry: false, stage }), Some(e)) ==> n
                == NextStep::Restart(Sending { retry: true, stage: Stage::Connecting }),
        forall|stage: Stage|
            #[trigger] is_next(n, (Sending { retry: true, stage }), Some(e)) ==> n is GiveUp,
        is_next(n, (Sending { retry: true, stage: Stage::Writing }), Some(e)) ==> (
        n->GiveUp_0)@ == "write: "@ + e,
        is_next(n, (Sending { retry: true, stage: Stage::Reading }), Some(e)) ==> (
        n->GiveUp_0)@ == e,
{
}

} // verus!
