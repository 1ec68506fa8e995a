//! Text in streamed server-component payloads.
//!
//! A payload is lines of an identifier, a colon and a value. What can be read in it is
//! the text in the values that are JSON, under the keys that carry visible text.

use vstd::prelude::*;
use crate::json::{
    children_of, find_json_end, find_member, json_children, json_end, json_parsed,
    lemma_children_inside, lemma_json_rise, lemma_member_inside, list_children, member_of,
    parse_json, text_member, JsonItem, JsonNode, JsonNodeView, JsonView,
};
use crate::number::ints;
use crate::tab::{lemma_views_push, views};
use crate::text::{
    chars2, chars_of, contains, cut, find_text, has_char, has_text, is_white, join, join_strings,
    lemma_find_text, lemma_first_where, lemma_next_char, next_char, next_nonwhite, same, split,
    split_chars, split_once, stands_at, string_of, texts, trim, trimmed, trimmed_end,
};

verus! {

broadcast use vstd::string::group_string_axioms;

// --- Entries in the order of their identifiers ---

/// Whether `a` comes before `b` in the order of their characters from `i` on.
pub open spec fn less_from(a: Seq<char>, b: Seq<char>, i: int) -> bool
    decreases a.len() - i,
{
    if i < 0 || i >= b.len() {
        false
    } else if i >= a.len() {
        true
    } else if a[i] == b[i] {
        less_from(a, b, i + 1)
    } else {
        a[i] < b[i]
    }
}

pub open spec fn text_less(a: Seq<char>, b: Seq<char>) -> bool {
    less_from(a, b, 0)
}

fn is_less(a: &[char], b: &[char]) -> (r: bool)
    ensures
        r == text_less(a@, b@),
{
    let mut i: usize = 0;
    while i < a.len() && i < b.len()
        invariant
            i <= a@.len(),
            i <= b@.len(),
            less_from(a@, b@, i as int) == text_less(a@, b@),
        decreases a@.len() - i,
    {
        if a[i] != b[i] {
            return a[i] < b[i];
        }
        i += 1;
    }
    i < b.len()
}

proof fn lemma_less_total(a: Seq<char>, b: Seq<char>, i: int)
    requires
        0 <= i <= a.len(),
        i <= b.len(),
        a.take(i) == b.take(i),
        !less_from(a, b, i),
    ensures
        a == b || less_from(b, a, i),
    decreases a.len() - i,
{
    if i < a.len() && i < b.len() {
        if a[i] == b[i] {
            assert(a.take(i + 1) =~= a.take(i).push(a[i]));
            assert(b.take(i + 1) =~= b.take(i).push(b[i]));
            lemma_less_total(a, b, i + 1);
        }
    } else if i == a.len() {
        assert(i == b.len());
        assert(a =~= a.take(i));
        assert(b =~= b.take(i));
    }
}

proof fn lemma_less_trans(a: Seq<char>, b: Seq<char>, c: Seq<char>, i: int)
    requires
        0 <= i,
        less_from(a, b, i),
        less_from(b, c, i),
    ensures
        less_from(a, c, i),
    decreases a.len() - i,
{
    if i < a.len() && a[i] == b[i] && b[i] == c[i] {
        lemma_less_trans(a, b, c, i + 1);
    }
}

pub type EntryViews = Seq<(Seq<char>, Seq<JsonView>)>;

/// The first place at or after `i` whose identifier does not come before `id`.
pub open spec fn slot(m: EntryViews, id: Seq<char>, i: int) -> int
    decreases m.len() - i,
{
    if i < 0 || i >= m.len() || !text_less(m[i].0, id) {
        i
    } else {
        slot(m, id, i + 1)
    }
}

/// `m` with `v` under `id`, in its place.
pub open spec fn entry_put(m: EntryViews, id: Seq<char>, v: Seq<JsonView>) -> EntryViews {
    let i = slot(m, id, 0);
    if i < m.len() && m[i].0 == id {
        m.update(i, (id, v))
    } else {
        m.insert(i, (id, v))
    }
}

pub open spec fn is_sorted(m: EntryViews) -> bool {
    forall|i: int, j: int|
        0 <= i < j < m.len() ==> text_less((#[trigger] m[i]).0, (#[trigger] m[j]).0)
}

proof fn lemma_slot(m: EntryViews, id: Seq<char>, i: int)
    requires
        0 <= i <= m.len(),
    ensures
        i <= slot(m, id, i) <= m.len(),
        slot(m, id, i) < m.len() ==> !text_less(m[slot(m, id, i)].0, id),
        forall|k: int| i <= k < slot(m, id, i) ==> text_less((#[trigger] m[k]).0, id),
    decreases m.len() - i,
{
    if i < m.len() && text_less(m[i].0, id) {
        lemma_slot(m, id, i + 1);
    }
}

/// Entries stay in the order of their identifiers, each of which comes once.
pub proof fn law_entries_sorted(m: EntryViews, id: Seq<char>, v: Seq<JsonView>)
    requires
        is_sorted(m),
    ensures
        is_sorted(entry_put(m, id, v)),
{
    lemma_slot(m, id, 0);
    let s = slot(m, id, 0);
    let n = entry_put(m, id, v);
    assert forall|i: int, j: int| 0 <= i < j < n.len() implies text_less(
        (#[trigger] n[i]).0,
        (#[trigger] n[j]).0,
    ) by {
        if s < m.len() {
            assert(m[s].0.take(0) =~= id.take(0));
            lemma_less_total(m[s].0, id, 0);
        }
        if s < m.len() && m[s].0 == id {
            assert(text_less(m[i].0, m[j].0));
        } else {
            if i < s && j == s {
                assert(text_less(m[i].0, id));
            } else if i == s {
                if j - 1 > s {
                    assert(text_less(m[s].0, m[j - 1].0));
                    lemma_less_trans(id, m[s].0, m[j - 1].0, 0);
                }
            } else if i < s && j > s {
                assert(text_less(m[i].0, m[j - 1].0));
            } else if j < s {
                assert(text_less(m[i].0, m[j].0));
            } else {
                assert(text_less(m[i - 1].0, m[j - 1].0));
            }
        }
    }
}

/// The entries of the first `n` lines: those whose value is neither an import nor a
/// hint, and can be read.
pub open spec fn entries_to(lines: Seq<Seq<char>>, n: int) -> EntryViews
    decreases n,
{
    if n <= 0 {
        Seq::empty()
    } else {
        let before = entries_to(lines, n - 1);
        match split_once(lines[n - 1], ':') {
            Some((id, body)) => if body.len() > 0 && (body[0] == 'I' || body[0] == 'H') {
                before
            } else {
                match json_parsed(body) {
                    Some(v) => entry_put(before, id, v),
                    None => before,
                }
            },
            None => before,
        }
    }
}

pub open spec fn entry_views(m: Seq<(String, Vec<JsonItem>)>) -> EntryViews {
    m.map_values(|e: (String, Vec<JsonItem>)| (e.0@, views(e.1@)))
}

fn put_entry(m: &mut Vec<(String, Vec<JsonItem>)>, id: String, v: Vec<JsonItem>)
    ensures
        entry_views(final(m)@) == entry_put(entry_views(old(m)@), id@, views(v@)),
{
    let key = chars_of(id.as_str());
    let ghost before = entry_views(m@);
    let mut i: usize = 0;
    while i < m.len() && is_less(&chars_of(m[i].0.as_str()), &key)
        invariant
            i <= m@.len(),
            key@ == id@,
            before == entry_views(m@),
            slot(before, id@, i as int) == slot(before, id@, 0),
        decreases m@.len() - i,
    {
        assert(before[i as int].0 == m@[i as int].0@);
        i += 1;
    }
    if i < m.len() {
        assert(before[i as int].0 == m@[i as int].0@);
    }
    if i < m.len() && same(m[i].0.as_str(), id.as_str()) {
        let ghost e = (id@, views(v@));
        m.set(i, (id, v));
        assert(entry_views(m@) =~= before.update(i as int, e));
    } else {
        let ghost e = (id@, views(v@));
        m.insert(i, (id, v));
        assert(entry_views(m@) =~= before.insert(i as int, e));
    }
}

fn collect_entries(payload: &str) -> (r: Vec<(String, Vec<JsonItem>)>)
    ensures
        entry_views(r@) == entries_to(split(payload@, '\n'), split(payload@, '\n').len() as int),
        forall|k: int| 0 <= k < r@.len() ==> (#[trigger] r@[k]).1@.len() > 0,
{
    let lines = split_chars(&chars_of(payload), '\n');
    let ghost all = split(payload@, '\n');
    let mut out: Vec<(String, Vec<JsonItem>)> = Vec::new();
    assert(entry_views(out@) =~= Seq::empty());
    for n in 0..lines.len()
        invariant
            all == chars2(lines@),
            entry_views(out@) == entries_to(all, n as int),
            forall|k: int| 0 <= k < out@.len() ==> (#[trigger] out@[k]).1@.len() > 0,
    {
        assert(all[n as int] == lines@[n as int]@);
        if let Some((id, body)) = cut(&lines[n], ':') {
            if body.len() > 0 && (body[0] == 'I' || body[0] == 'H') {
            } else {
                let text = string_of(&body);
                if let Some(v) = parse_json(text.as_str()) {
                    let ghost before = out@;
                    let ghost seen = views(v@);
                    put_entry(&mut out, string_of(&id), v);
                    proof {
                        lemma_nonempty(entry_views(before), id@, seen);
                        assert forall|k: int| 0 <= k < out@.len() implies (
                        #[trigger] out@[k]).1@.len() > 0 by {
                            assert(entry_views(out@)[k].1.len() == out@[k].1@.len());
                        }
                    }
                }
            }
        }
    }
    out
}

proof fn lemma_nonempty(m: EntryViews, id: Seq<char>, v: Seq<JsonView>)
    requires
        v.len() > 0,
        forall|k: int| 0 <= k < m.len() ==> (#[trigger] m[k]).1.len() > 0,
    ensures
        forall|k: int|
            0 <= k < entry_put(m, id, v).len() ==> (#[trigger] entry_put(m, id, v)[k]).1.len() > 0,
{
    lemma_slot(m, id, 0);
    let n = entry_put(m, id, v);
    let s = slot(m, id, 0);
    assert forall|k: int| 0 <= k < n.len() implies (#[trigger] n[k]).1.len() > 0 by {
        if n.len() > m.len() && k > s {
            assert(n[k] == m[k - 1]);
        } else if k != s {
            assert(n[k] == m[k]);
        }
    }
}

// --- Text in a value ---

/// Whether a text leaf is worth showing: not a reference, not blank, not a class name.
pub open spec fn is_content(s: Seq<char>) -> bool {
    let t = trim(s);
    &&& !(s.len() > 0 && s[0] == '$')
    &&& t.len() > 0
    &&& !(has_text(t, "__"@) && !t.contains(' '))
}

/// What was found, with the text `s` where it is content that was not found before.
pub open spec fn text_found(found: Seq<Seq<char>>, s: Seq<char>) -> Seq<Seq<char>> {
    if is_content(s) && !found.contains(trim(s)) {
        found.push(trim(s))
    } else {
        found
    }
}

/// The keys under which an object carries text, in the order in which they are read.
pub open spec fn content_keys() -> Seq<Seq<char>> {
    seq![
        "children"@,
        "title"@,
        "alt"@,
        "label"@,
        "placeholder"@,
        "description"@,
        "value"@,
        "text"@,
        "content"@,
    ]
}

/// Whether a list is an element: a mark, a tag, a key and properties.
pub open spec fn is_element_list(v: Seq<JsonView>, i: int) -> bool {
    let c = children_of(v, i);
    c.len() >= 4 && v[c[0]].node == JsonNodeView::Text("$"@)
}

/// What is found with the value at `i`. Of an element, only the properties are read.
pub open spec fn harvested(v: Seq<JsonView>, i: int, found: Seq<Seq<char>>) -> Seq<Seq<char>>
    decreases v.len() - i, 100int,
    when 0 <= i < v.len()
{
    match v[i].node {
        JsonNodeView::Text(s) => text_found(found, s),
        JsonNodeView::List => {
            proof {
                lemma_children_inside(v, i + 1, json_end(v, i));
            }
            let c = children_of(v, i);
            if is_element_list(v, i) {
                harvested(v, c[3], found)
            } else {
                harvested_from(v, i + 1, json_end(v, i), found)
            }
        },
        JsonNodeView::Object => harvested_keys(v, i, 9, found),
        _ => found,
    }
}

/// What is found with the values from `j` up to `stop`.
pub open spec fn harvested_from(
    v: Seq<JsonView>,
    j: int,
    stop: int,
    found: Seq<Seq<char>>,
) -> Seq<Seq<char>>
    decreases v.len() - j, 101int,
{
    if j < 0 || j >= stop || j >= v.len() {
        found
    } else {
        proof {
            lemma_json_rise(v, v[j].depth, j + 1);
        }
        harvested_from(v, json_end(v, j), stop, harvested(v, j, found))
    }
}

/// What is found under the first `n` keys of the object at `i`.
pub open spec fn harvested_keys(
    v: Seq<JsonView>,
    i: int,
    n: int,
    found: Seq<Seq<char>>,
) -> Seq<Seq<char>>
    decreases v.len() - i, n,
    when 0 <= i < v.len() && n <= 9
{
    if n <= 0 {
        found
    } else {
        let before = harvested_keys(v, i, n - 1, found);
        proof {
            lemma_member_inside(v, content_keys()[n - 1], i + 1, json_end(v, i));
        }
        match member_of(v, i, content_keys()[n - 1]) {
            Some(k) => harvested(v, k, before),
            None => before,
        }
    }
}

/// Texts that are content and of which none comes twice.
pub open spec fn are_distinct_texts(found: Seq<Seq<char>>) -> bool {
    &&& found.no_duplicates()
    &&& forall|k: int| 0 <= k < found.len() ==> (#[trigger] found[k]).len() > 0
}

/// No text is found twice, and none is empty.
pub proof fn law_harvest_distinct(v: Seq<JsonView>, i: int, found: Seq<Seq<char>>)
    requires
        0 <= i < v.len(),
        are_distinct_texts(found),
    ensures
        are_distinct_texts(harvested(v, i, found)),
    decreases v.len() - i, 100int,
{
    match v[i].node {
        JsonNodeView::List => {
            lemma_children_inside(v, i + 1, json_end(v, i));
            let c = children_of(v, i);
            if is_element_list(v, i) {
                law_harvest_distinct(v, c[3], found);
            } else {
                lemma_harvest_from(v, i + 1, json_end(v, i), found);
            }
        },
        JsonNodeView::Object => lemma_harvest_keys(v, i, 9, found),
        _ => {},
    }
}

proof fn lemma_harvest_from(v: Seq<JsonView>, j: int, stop: int, found: Seq<Seq<char>>)
    requires
        are_distinct_texts(found),
    ensures
        are_distinct_texts(harvested_from(v, j, stop, found)),
    decreases v.len() - j, 101int,
{
    if !(j < 0 || j >= stop || j >= v.len()) {
        lemma_json_rise(v, v[j].depth, j + 1);
        law_harvest_distinct(v, j, found);
        lemma_harvest_from(v, json_end(v, j), stop, harvested(v, j, found));
    }
}

proof fn lemma_harvest_keys(v: Seq<JsonView>, i: int, n: int, found: Seq<Seq<char>>)
    requires
        0 <= i < v.len(),
        n <= 9,
        are_distinct_texts(found),
    ensures
        are_distinct_texts(harvested_keys(v, i, n, found)),
    decreases v.len() - i, n,
{
    if n > 0 {
        lemma_harvest_keys(v, i, n - 1, found);
        lemma_member_inside(v, content_keys()[n - 1], i + 1, json_end(v, i));
        if let Some(k) = member_of(v, i, content_keys()[n - 1]) {
            law_harvest_distinct(v, k, harvested_keys(v, i, n - 1, found));
        }
    }
}

fn find_among(found: &Vec<String>, t: &str) -> (r: bool)
    ensures
        r == views(found@).contains(t@),
{
    for k in 0..found.len()
        invariant
            forall|j: int| 0 <= j < k ==> (#[trigger] views(found@)[j]) != t@,
    {
        if same(found[k].as_str(), t) {
            assert(views(found@)[k as int] == t@);
            return true;
        }
    }
    false
}

fn add_text(s: &str, found: &mut Vec<String>)
    ensures
        views(final(found)@) == text_found(views(old(found)@), s@),
{
    let c = chars_of(s);
    if c.len() > 0 && c[0] == '$' {
        return;
    }
    let t = trimmed(s);
    if t.as_str().is_empty() {
        return;
    }
    if contains(t.as_str(), "__") && !has_char(t.as_str(), ' ') {
        return;
    }
    if !find_among(found, t.as_str()) {
        proof {
            lemma_views_push(found@, t);
        }
        found.push(t);
    }
}

fn content_key(n: usize) -> (r: &'static str)
    requires
        n < 9,
    ensures
        r@ == content_keys()[n as int],
{
    match n {
        0 => "children",
        1 => "title",
        2 => "alt",
        3 => "label",
        4 => "placeholder",
        5 => "description",
        6 => "value",
        7 => "text",
        _ => "content",
    }
}

fn is_mark(n: &JsonNode) -> (r: bool)
    ensures
        r == (n@ == JsonNodeView::Text("$"@)),
{
    match n {
        JsonNode::Text(s) => same(s.as_str(), "$"),
        _ => false,
    }
}

/// Adds the text in the value at `i` to what was found.
pub fn extract_rsc_text(v: &Vec<JsonItem>, i: usize, found: &mut Vec<String>)
    requires
        i < v@.len(),
    ensures
        views(final(found)@) == harvested(views(v@), i as int, views(old(found)@)),
    decreases v@.len() - i, 1int,
{
    let ghost w = views(v@);
    assert(w[i as int] == v@[i as int]@);
    match &v[i].node {
        JsonNode::Text(s) => {
            add_text(s.as_str(), found);
        },
        JsonNode::List => {
            let c = list_children(v, i);
            let ghost ps = ints(c@);
            if c.len() >= 4 {
                assert(ps[0] == c@[0] && ps[3] == c@[3]);
                assert(i < c@[0] < v@.len() && i < c@[3] < v@.len());
                assert(w[c@[0] as int] == v@[c@[0] as int]@);
                if is_mark(&v[c[0]].node) {
                    extract_rsc_text(v, c[3], found);
                    return;
                }
            }
            extract_list(v, i, found);
        },
        JsonNode::Object => {
            extract_object(v, i, found);
        },
        _ => {},
    }
}

fn extract_list(v: &Vec<JsonItem>, i: usize, found: &mut Vec<String>)
    requires
        i < v@.len(),
    ensures
        views(final(found)@) == harvested_from(
            views(v@),
            i + 1,
            json_end(views(v@), i as int),
            views(old(found)@),
        ),
    decreases v@.len() - i, 0int,
{
    let stop = find_json_end(v, i);
    let ghost w = views(v@);
    let mut j: usize = i + 1;
    while j < stop
        invariant
            i < j,
            stop <= v@.len(),
            w == views(v@),
            w.len() == v@.len(),
            harvested_from(w, j as int, stop as int, views(found@)) == harvested_from(
                w,
                i + 1,
                stop as int,
                views(old(found)@),
            ),
        decreases v@.len() - j,
    {
        extract_rsc_text(v, j, found);
        j = find_json_end(v, j);
    }
}

fn extract_object(v: &Vec<JsonItem>, i: usize, found: &mut Vec<String>)
    requires
        i < v@.len(),
        views(v@)[i as int].node is Object,
    ensures
        views(final(found)@) == harvested_keys(views(v@), i as int, 9, views(old(found)@)),
    decreases v@.len() - i, 0int,
{
    let ghost w = views(v@);
    for n in 0..9usize
        invariant
            i < v@.len(),
            w == views(v@),
            w.len() == v@.len(),
            views(found@) == harvested_keys(w, i as int, n as int, views(old(found)@)),
    {
        match find_member(v, i, content_key(n)) {
            Some(k) => {
                extract_rsc_text(v, k, found);
            },
            None => {},
        }
    }
}

// --- Payloads ---

/// What is found in the first `n` entries.
pub open spec fn entries_harvested(m: EntryViews, n: int) -> Seq<Seq<char>>
    decreases n,
{
    if n <= 0 {
        Seq::empty()
    } else {
        harvested(m[n - 1].1, 0, entries_harvested(m, n - 1))
    }
}

/// The text of some entries, a line for each piece; `None` where there is none.
pub open spec fn entries_text(m: EntryViews) -> Option<Seq<char>> {
    let found = entries_harvested(m, m.len() as int);
    if found.len() == 0 {
        None
    } else {
        Some(join(found, "\n"@))
    }
}

/// The text of entries whose values have been read.
pub fn text_of_entries(m: &Vec<(String, Vec<JsonItem>)>) -> (r: Option<String>)
    requires
        forall|k: int| 0 <= k < m@.len() ==> (#[trigger] m@[k]).1@.len() > 0,
    ensures
        match r {
            Some(t) => entries_text(entry_views(m@)) == Some(t@),
            None => entries_text(entry_views(m@)) is None,
        },
{
    let mut found: Vec<String> = Vec::new();
    let ghost w = entry_views(m@);
    assert(views(found@) =~= Seq::empty());
    for n in 0..m.len()
        invariant
            w == entry_views(m@),
            forall|k: int| 0 <= k < m@.len() ==> (#[trigger] m@[k]).1@.len() > 0,
            views(found@) == entries_harvested(w, n as int),
    {
        assert(w[n as int].1 == views(m@[n as int].1@));
        assert(m@[n as int].1@.len() > 0);
        extract_rsc_text(&m[n].1, 0, &mut found);
    }
    if found.len() == 0 {
        None
    } else {
        assert(texts(found@) =~= views(found@));
        Some(join_strings(&found, "\n"))
    }
}

pub open spec fn payload_text(payload: Seq<char>) -> Option<Seq<char>> {
    let lines = split(payload, '\n');
    entries_text(entries_to(lines, lines.len() as int))
}

/// The text of a payload, `None` where it has none.
pub fn decode_rsc_payload(payload: &str) -> (r: Option<String>)
    ensures
        match r {
            Some(t) => payload_text(payload@) == Some(t@),
            None => payload_text(payload@) is None,
        },
{
    let entries = collect_entries(payload);
    text_of_entries(&entries)
}

// --- What is text ---

/// Texts that were found stay found, in their order.
pub proof fn law_harvest_grows(v: Seq<JsonView>, i: int, found: Seq<Seq<char>>)
    requires
        0 <= i < v.len(),
    ensures
        found.is_prefix_of(harvested(v, i, found)),
    decreases v.len() - i, 100int,
{
    match v[i].node {
        JsonNodeView::List => {
            lemma_children_inside(v, i + 1, json_end(v, i));
            let c = children_of(v, i);
            if is_element_list(v, i) {
                law_harvest_grows(v, c[3], found);
            } else {
                lemma_grows_from(v, i + 1, json_end(v, i), found);
            }
        },
        JsonNodeView::Object => lemma_grows_keys(v, i, 9, 0, found),
        _ => {},
    }
}

proof fn lemma_grows_from(v: Seq<JsonView>, j: int, stop: int, found: Seq<Seq<char>>)
    ensures
        found.is_prefix_of(harvested_from(v, j, stop, found)),
    decreases v.len() - j, 101int,
{
    if !(j < 0 || j >= stop || j >= v.len()) {
        lemma_json_rise(v, v[j].depth, j + 1);
        law_harvest_grows(v, j, found);
        let next = harvested(v, j, found);
        lemma_grows_from(v, json_end(v, j), stop, next);
        assert(found.is_prefix_of(harvested_from(v, json_end(v, j), stop, next)));
    }
}

proof fn lemma_grows_keys(v: Seq<JsonView>, i: int, n: int, m: int, found: Seq<Seq<char>>)
    requires
        0 <= i < v.len(),
        0 <= m <= n <= 9,
    ensures
        harvested_keys(v, i, m, found).is_prefix_of(harvested_keys(v, i, n, found)),
    decreases v.len() - i, n,
{
    if m < n {
        lemma_grows_keys(v, i, n - 1, m, found);
        let before = harvested_keys(v, i, n - 1, found);
        lemma_member_inside(v, content_keys()[n - 1], i + 1, json_end(v, i));
        if let Some(k) = member_of(v, i, content_keys()[n - 1]) {
            law_harvest_grows(v, k, before);
        }
    }
}

/// Text that a page shows: not a reference, which begins with `$`, not blank, and not a
/// name with `__` in it.
pub open spec fn is_visible(s: Seq<char>) -> bool {
    &&& s.len() > 0 && s[0] != '$'
    &&& exists|i: int| 0 <= i < s.len() && !is_white(#[trigger] s[i])
    &&& !(exists|i: int| stands_at(trim(s), seq!['_', '_'], i)) || trim(s).contains(' ')
}

proof fn lemma_visible(s: Seq<char>)
    ensures
        is_content(s) <==> is_visible(s),
{
    reveal_strlit("__");
    let t = trim(s);
    let u = seq!['_', '_'];
    assert("__"@ =~= u);
    lemma_find_text(t, u, 0);
    if exists|i: int| stands_at(t, u, i) {
        let i = choose|i: int| stands_at(t, u, i);
        if find_text(t, u, 0) is None {
            assert(!stands_at(t, u, i));
        }
    }
    lemma_blank(s);
}

proof fn lemma_blank(s: Seq<char>)
    ensures
        trim(s).len() > 0 <==> exists|i: int| 0 <= i < s.len() && !is_white(#[trigger] s[i]),
{
    let a = next_nonwhite(s, 0);
    lemma_first_where(s, |x: char| !is_white(x), 0);
    let l = s.skip(a);
    if a < s.len() {
        assert(!is_white(s[a]));
        assert(l[0] == s[a]);
        lemma_trimmed_positive(l, l.len() as int);
    } else {
        assert(l.len() == 0);
    }
}

proof fn lemma_trimmed_positive(s: Seq<char>, end: int)
    requires
        0 < end <= s.len(),
        !is_white(s[0]),
    ensures
        0 < trimmed_end(s, end) <= end,
    decreases end,
{
    if end > 1 && is_white(s[end - 1]) {
        lemma_trimmed_positive(s, end - 1);
    }
}

/// A text is found, without the white space around it, exactly where it is visible.
pub proof fn law_text_leaf(v: Seq<JsonView>, i: int, found: Seq<Seq<char>>)
    requires
        0 <= i < v.len(),
        v[i].node is Text,
    ensures
        ({
            let s = v[i].node->Text_0;
            &&& is_visible(s) ==> harvested(v, i, found).contains(trim(s))
            &&& !is_visible(s) ==> harvested(v, i, found) == found
            &&& forall|x: Seq<char>|
                #[trigger] harvested(v, i, found).contains(x) ==> found.contains(x) || x == trim(s)
        }),
{
    let s = v[i].node->Text_0;
    lemma_visible(s);
    let r = harvested(v, i, found);
    if is_content(s) && !found.contains(trim(s)) {
        assert(r[r.len() - 1] == trim(s));
    }
    assert forall|x: Seq<char>| #[trigger] r.contains(x) implies found.contains(x) || x == trim(
        s,
    ) by {
        let k = choose|k: int| 0 <= k < r.len() && r[k] == x;
        if k < found.len() {
            assert(found[k] == x);
        }
    }
}

/// Of an object, exactly the members `children`, `title`, `alt`, `label`, `placeholder`,
/// `description`, `value`, `text` and `content` carry text: what is visible under one of
/// them is found, and an object without any of them gives nothing.
pub proof fn law_content_keys(v: Seq<JsonView>, i: int, key: Seq<char>, found: Seq<Seq<char>>)
    requires
        0 <= i < v.len(),
        v[i].node is Object,
    ensures
        ({
            let carries = |k: Seq<char>|
                k == "children"@ || k == "title"@ || k == "alt"@ || k == "label"@ || k
                    == "placeholder"@ || k == "description"@ || k == "value"@ || k == "text"@ || k
                    == "content"@;
            &&& carries(key) ==> (text_member(v, i, key) matches Some(s) ==> is_visible(s)
                ==> harvested(v, i, found).contains(trim(s)))
            &&& (forall|k: Seq<char>| #[trigger] carries(k) ==> member_of(v, i, k) is None)
                ==> harvested(v, i, found) == found
        }),
{
    let carries = |k: Seq<char>|
        k == "children"@ || k == "title"@ || k == "alt"@ || k == "label"@ || k == "placeholder"@
            || k == "description"@ || k == "value"@ || k == "text"@ || k == "content"@;
    let keys = content_keys();
    if carries(key) {
        let n: int = if key == "children"@ {
            0
        } else if key == "title"@ {
            1
        } else if key == "alt"@ {
            2
        } else if key == "label"@ {
            3
        } else if key == "placeholder"@ {
            4
        } else if key == "description"@ {
            5
        } else if key == "value"@ {
            6
        } else if key == "text"@ {
            7
        } else {
            8
        };
        assert(keys[n] == key);
        if let Some(s) = text_member(v, i, key) {
            if is_visible(s) {
                let k = member_of(v, i, key)->0;
                lemma_member_inside(v, key, i + 1, json_end(v, i));
                let before = harvested_keys(v, i, n, found);
                law_text_leaf(v, k, before);
                let here = harvested_keys(v, i, n + 1, found);
                assert(here.contains(trim(s)));
                lemma_grows_keys(v, i, 9, n + 1, found);
                let all = harvested(v, i, found);
                let x = choose|x: int| 0 <= x < here.len() && here[x] == trim(s);
                assert(all[x] == trim(s));
            }
        }
    }
    if forall|k: Seq<char>| #[trigger] carries(k) ==> member_of(v, i, k) is None {
        assert(carries(keys[0]) && carries(keys[1]) && carries(keys[2]) && carries(keys[3]));
        assert(carries(keys[4]) && carries(keys[5]) && carries(keys[6]) && carries(keys[7]));
        assert(carries(keys[8]));
        lemma_no_keys(v, i, 9, found);
    }
}

proof fn lemma_no_keys(v: Seq<JsonView>, i: int, n: int, found: Seq<Seq<char>>)
    requires
        0 <= i < v.len(),
        0 <= n <= 9,
        forall|k: int| 0 <= k < 9 ==> member_of(v, i, #[trigger] content_keys()[k]) is None,
    ensures
        harvested_keys(v, i, n, found) == found,
    decreases n,
{
    if n > 0 {
        lemma_no_keys(v, i, n - 1, found);
        assert(member_of(v, i, content_keys()[n - 1]) is None);
    }
}

/// Of a list that is an element, a mark `$` with tag, key and properties, the properties
/// are read; of any other list, every value in it.
pub proof fn law_list_read(v: Seq<JsonView>, i: int, k: int, found: Seq<Seq<char>>)
    requires
        0 <= i < v.len(),
        v[i].node is List,
        0 <= k < children_of(v, i).len(),
    ensures
        ({
            let c = children_of(v, i);
            let element = c.len() >= 4 && v[c[0]].node == JsonNodeView::Text(seq!['$']);
            &&& element ==> harvested(v, i, found) == harvested(v, c[3], found)
            &&& !element ==> (v[c[k]].node matches JsonNodeView::Text(s) ==> is_visible(s)
                ==> harvested(v, i, found).contains(trim(s)))
        }),
{
    reveal_strlit("$");
    assert("$"@ =~= seq!['$']);
    lemma_children_inside(v, i + 1, json_end(v, i));
    let c = children_of(v, i);
    if let JsonNodeView::Text(s) = v[c[k]].node {
        if is_visible(s) && !is_element_list(v, i) {
            lemma_list_found(v, i + 1, json_end(v, i), k, found);
        }
    }
}

proof fn lemma_list_found(v: Seq<JsonView>, j: int, stop: int, k: int, found: Seq<Seq<char>>)
    requires
        0 <= j,
        0 <= k < json_children(v, j, stop).len(),
        v[json_children(v, j, stop)[k]].node is Text,
        is_visible(v[json_children(v, j, stop)[k]].node->Text_0),
    ensures
        harvested_from(v, j, stop, found).contains(
            trim(v[json_children(v, j, stop)[k]].node->Text_0),
        ),
    decreases v.len() - j,
{
    lemma_json_rise(v, v[j].depth, j + 1);
    let e = json_end(v, j);
    let next = harvested(v, j, found);
    let rest = json_children(v, e, stop);
    assert(json_children(v, j, stop) == seq![j] + rest);
    if k == 0 {
        let t = trim(v[j].node->Text_0);
        law_text_leaf(v, j, found);
        lemma_grows_from(v, e, stop, next);
        let all = harvested_from(v, e, stop, next);
        let x = choose|x: int| 0 <= x < next.len() && next[x] == t;
        assert(all[x] == t);
    } else {
        assert(json_children(v, j, stop)[k] == rest[k - 1]);
        lemma_list_found(v, e, stop, k - 1, next);
    }
}

/// Numbers, truth values and null carry no text.
pub proof fn law_other_silent(v: Seq<JsonView>, i: int, found: Seq<Seq<char>>)
    requires
        0 <= i < v.len(),
        v[i].node is Other,
    ensures
        harvested(v, i, found) == found,
{
}

/// What the last readable line with an identifier says is among the entries, unless it is
/// an import or a hint, which begin with `I` and `H`.
pub proof fn law_entry_read(lines: Seq<Seq<char>>, n: int, id: Seq<char>, body: Seq<char>)
    requires
        0 < n <= lines.len(),
        lines[n - 1] == id + seq![':'] + body,
        !id.contains(':'),
        json_parsed(body) is Some,
    ensures
        body.len() > 0 && (body[0] == 'I' || body[0] == 'H') ==> entries_to(lines, n)
            == entries_to(lines, n - 1),
        !(body.len() > 0 && (body[0] == 'I' || body[0] == 'H')) ==> exists|k: int|
            0 <= k < entries_to(lines, n).len() && #[trigger] entries_to(lines, n)[k] == (
                id,
                json_parsed(body)->0,
            ),
{
    let line = lines[n - 1];
    let c = next_char(line, ':', 0);
    lemma_next_char(line, ':', 0);
    assert(line[id.len() as int] == ':');
    assert(c == id.len()) by {
        if c < id.len() {
            assert(id[c] == line[c]);
            assert(id.contains(':'));
        }
    }
    assert(line.take(c) =~= id);
    assert(line.skip(c + 1) =~= body);
    let before = entries_to(lines, n - 1);
    lemma_slot(before, id, 0);
    let s = slot(before, id, 0);
    if !(body.len() > 0 && (body[0] == 'I' || body[0] == 'H')) {
        assert(entries_to(lines, n)[s] == (id, json_parsed(body)->0));
    }
}

/// Each text that is found in an entry is in the text of the payload.
pub proof fn law_entry_shown(m: EntryViews, k: int, x: Seq<char>)
    requires
        0 <= k < m.len(),
        m[k].1.len() > 0,
        harvested(m[k].1, 0, entries_harvested(m, k)).contains(x),
        forall|j: int| 0 <= j < m.len() ==> (#[trigger] m[j]).1.len() > 0,
    ensures
        entries_text(m) is Some,
        entries_harvested(m, m.len() as int).contains(x),
        entries_text(m) == Some(join(entries_harvested(m, m.len() as int), seq!['\n'])),
{
    reveal_strlit("\n");
    assert("\n"@ =~= seq!['\n']);
    lemma_entries_grow(m, k + 1, m.len() as int);
    let here = entries_harvested(m, k + 1);
    let all = entries_harvested(m, m.len() as int);
    let i = choose|i: int| 0 <= i < here.len() && here[i] == x;
    assert(all[i] == x);
}

proof fn lemma_entries_grow(m: EntryViews, a: int, b: int)
    requires
        0 <= a <= b <= m.len(),
        forall|j: int| 0 <= j < m.len() ==> (#[trigger] m[j]).1.len() > 0,
    ensures
        entries_harvested(m, a).is_prefix_of(entries_harvested(m, b)),
    decreases b - a,
{
    if a < b {
        lemma_entries_grow(m, a, b - 1);
        law_harvest_grows(m[b - 1].1, 0, entries_harvested(m, b - 1));
    }
}

} // verus!
