//! JSON values.
//!
//! A value is the list of itself and all values in it, outer before inner, each with its
//! depth and, in an object, its key.

use vstd::prelude::*;
use serde_json::{from_str, Value};
use crate::number::ints;
use crate::tab::views;
use crate::text::same;

verus! {

pub enum JsonNode {
    Text(String),
    List,
    Object,
    /// A number, a truth value or null.
    Other,
}

pub struct JsonItem {
    pub depth: usize,
    pub key: String,
    pub node: JsonNode,
}

pub enum JsonNodeView {
    Text(Seq<char>),
    List,
    Object,
    Other,
}

pub struct JsonView {
    pub depth: int,
    pub key: Seq<char>,
    pub node: JsonNodeView,
}

impl View for JsonNode {
    type V = JsonNodeView;

    open spec fn view(&self) -> JsonNodeView {
        match *self {
            JsonNode::Text(s) => JsonNodeView::Text(s@),
            JsonNode::List => JsonNodeView::List,
            JsonNode::Object => JsonNodeView::Object,
            JsonNode::Other => JsonNodeView::Other,
        }
    }
}

impl View for JsonItem {
    type V = JsonView;

    open spec fn view(&self) -> JsonView {
        JsonView { depth: self.depth as int, key: self.key@, node: self.node@ }
    }
}

/// The value that `serde_json::from_str` reads in a text, `None` where it finds an error.
pub uninterp spec fn json_parsed(text: Seq<char>) -> Option<Seq<JsonView>>;

/// `serde_json::from_str` reads a text as a `serde_json::Value`, by the text alone; the
/// value is laid out with each list and object before what it holds.
#[verifier::external_body]
pub(crate) fn parse_json(text: &str) -> (r: Option<Vec<JsonItem>>)
    ensures
        match r {
            Some(v) => json_parsed(text@) == Some(views(v@)) && v@.len() > 0,
            None => json_parsed(text@) is None,
        },
{
    let mut out = Vec::new();
    let mut stack = vec![(0, String::new(), from_str::<Value>(text).ok()?)];
    while let Some((depth, key, v)) = stack.pop() {
        out.push(JsonItem { depth, key, node: match v {
            Value::String(s) => JsonNode::Text(s),
            Value::Array(a) => { stack.extend(a.into_iter().rev().map(|x| (depth + 1, String::new(), x))); JsonNode::List }
            Value::Object(o) => { stack.extend(o.into_iter().rev().map(|(k, x)| (depth + 1, k, x))); JsonNode::Object }
            _ => JsonNode::Other,
        } });
    }
    Some(out)
}

/// One value in a JSON document.
pub enum JsonLeaf {
    Bool(bool),
    /// A number, where it is a whole number that fits.
    Number(Option<u64>),
    Text(String),
    Other,
}

pub enum LeafView {
    Bool(bool),
    Number(Option<u64>),
    Text(Seq<char>),
    Other,
}

impl View for JsonLeaf {
    type V = LeafView;

    open spec fn view(&self) -> LeafView {
        match *self {
            JsonLeaf::Bool(b) => LeafView::Bool(b),
            JsonLeaf::Number(n) => LeafView::Number(n),
            JsonLeaf::Text(s) => LeafView::Text(s@),
            JsonLeaf::Other => LeafView::Other,
        }
    }
}

/// The value at a pointer in a JSON document, `None` where there is none, or the text of
/// the error that `serde_json::from_str` finds in the document.
pub uninterp spec fn json_at(text: Seq<char>, pointer: Seq<char>) -> Result<
    Option<LeafView>,
    Seq<char>,
>;

pub open spec fn leaf_view(r: Result<Option<JsonLeaf>, String>) -> Result<
    Option<LeafView>,
    Seq<char>,
> {
    match r {
        Ok(Some(l)) => Ok(Some(l@)),
        Ok(None) => Ok(None),
        Err(e) => Err(e@),
    }
}

/// `serde_json::Value::pointer` finds the value at a pointer in the document that
/// `serde_json::from_str` reads, by the two texts alone.
#[verifier::external_body]
pub(crate) fn find_leaf(text: &str, pointer: &str) -> (r: Result<Option<JsonLeaf>, String>)
    ensures
        leaf_view(r) == json_at(text@, pointer@),
{
    let v = from_str::<Value>(text).map_err(|e| e.to_string())?;
    Ok(v.pointer(pointer).map(|x| match x {
        Value::Bool(b) => JsonLeaf::Bool(*b),
        Value::Number(n) => JsonLeaf::Number(n.as_u64()),
        Value::String(s) => JsonLeaf::Text(s.clone()),
        _ => JsonLeaf::Other,
    }))
}

/// A lower-case hexadecimal digit.
pub open spec fn low_hex(d: u32) -> char {
    if d == 10 {
        'a'
    } else if d == 11 {
        'b'
    } else if d == 12 {
        'c'
    } else if d == 13 {
        'd'
    } else if d == 14 {
        'e'
    } else if d == 15 {
        'f'
    } else {
        crate::number::digit_char(d as int)
    }
}

/// A character as it stands in a JSON string.
pub open spec fn escaped_char(c: char) -> Seq<char> {
    if c == '\u{22}' {
        seq!['\u{5c}', '\u{22}']
    } else if c == '\u{5c}' {
        seq!['\u{5c}', '\u{5c}']
    } else if c == '\u{8}' {
        seq!['\u{5c}', 'b']
    } else if c == '\t' {
        seq!['\u{5c}', 't']
    } else if c == '\n' {
        seq!['\u{5c}', 'n']
    } else if c == '\u{c}' {
        seq!['\u{5c}', 'f']
    } else if c == '\r' {
        seq!['\u{5c}', 'r']
    } else if c as u32 <= 31 {
        seq!['\u{5c}', 'u', '0', '0', low_hex(c as u32 / 16), low_hex(c as u32 % 16)]
    } else {
        seq![c]
    }
}

pub open spec fn escaped(s: Seq<char>) -> Seq<char>
    decreases s.len(),
{
    if s.len() == 0 {
        Seq::empty()
    } else {
        escaped(s.drop_last()) + escaped_char(s.last())
    }
}

/// A text as a JSON string.
pub open spec fn json_quoted(text: Seq<char>) -> Seq<char> {
    seq!['\u{22}'] + escaped(text) + seq!['\u{22}']
}

/// A `serde_json::Value` that holds a string is written in quotes, in which quotes,
/// backslashes and control characters are escaped and all else stands as it is.
#[verifier::external_body]
pub(crate) fn quote_json(text: &str) -> (r: String)
    ensures
        r@ == json_quoted(text@),
{
    Value::from(text).to_string()
}

proof fn lemma_escaped_line(s: Seq<char>)
    ensures
        !escaped(s).contains('\n'),
    decreases s.len(),
{
    if s.len() > 0 {
        lemma_escaped_line(s.drop_last());
        let a = escaped(s.drop_last());
        let b = escaped_char(s.last());
        let r = escaped(s);
        assert forall|i: int| 0 <= i < r.len() implies r[i] != '\n' by {
            if i < a.len() {
                assert(r[i] == a[i]);
                assert(a.contains(a[i]));
            } else {
                assert(r[i] == b[i - a.len()]);
            }
        }
    }
}

/// A JSON string is one line, whatever the text.
pub proof fn law_quoted_line(text: Seq<char>)
    ensures
        !json_quoted(text).contains('\n'),
{
    lemma_escaped_line(text);
    let a = escaped(text);
    let r = json_quoted(text);
    assert forall|i: int| 0 <= i < r.len() implies r[i] != '\n' by {
        if 0 < i && i < r.len() - 1 {
            assert(r[i] == a[i - 1]);
            assert(a.contains(a[i - 1]));
        }
    }
}

// --- What a value holds ---

/// The first position at or after `j` whose value lies no deeper than `depth`.
pub open spec fn json_rise(v: Seq<JsonView>, depth: int, j: int) -> int
    decreases v.len() - j,
{
    if j < 0 || j >= v.len() {
        v.len() as int
    } else if v[j].depth <= depth {
        j
    } else {
        json_rise(v, depth, j + 1)
    }
}

pub open spec fn json_end(v: Seq<JsonView>, i: int) -> int {
    json_rise(v, v[i].depth, i + 1)
}

pub proof fn lemma_json_rise(v: Seq<JsonView>, depth: int, j: int)
    requires
        0 <= j <= v.len(),
    ensures
        j <= json_rise(v, depth, j) <= v.len(),
    decreases v.len() - j,
{
    if j < v.len() && v[j].depth > depth {
        lemma_json_rise(v, depth, j + 1);
    }
}

/// The positions of the values directly in a list or an object, from `j` up to `stop`.
pub open spec fn json_children(v: Seq<JsonView>, j: int, stop: int) -> Seq<int>
    decreases v.len() - j,
{
    if j < 0 || j >= stop || j >= v.len() {
        Seq::empty()
    } else {
        proof {
            lemma_json_rise(v, v[j].depth, j + 1);
        }
        seq![j] + json_children(v, json_end(v, j), stop)
    }
}

pub open spec fn children_of(v: Seq<JsonView>, i: int) -> Seq<int> {
    json_children(v, i + 1, json_end(v, i))
}

/// The position of the value under `key`, among the values from `j` up to `stop`.
pub open spec fn json_member(v: Seq<JsonView>, key: Seq<char>, j: int, stop: int) -> Option<int>
    decreases v.len() - j,
{
    if j < 0 || j >= stop || j >= v.len() {
        None
    } else if v[j].key == key {
        Some(j)
    } else {
        proof {
            lemma_json_rise(v, v[j].depth, j + 1);
        }
        json_member(v, key, json_end(v, j), stop)
    }
}

/// The position of the value under `key` in the object at `i`.
pub open spec fn member_of(v: Seq<JsonView>, i: int, key: Seq<char>) -> Option<int> {
    if 0 <= i < v.len() && v[i].node is Object {
        json_member(v, key, i + 1, json_end(v, i))
    } else {
        None
    }
}

pub fn find_json_end(v: &Vec<JsonItem>, i: usize) -> (r: usize)
    requires
        i < v@.len(),
    ensures
        r == json_end(views(v@), i as int),
        i < r <= v@.len(),
{
    let n: usize = v.len();
    let depth: usize = v[i].depth;
    let mut j: usize = i + 1;
    while j < n
        invariant
            n == v@.len(),
            i < j <= n,
            depth == v@[i as int].depth,
            json_rise(views(v@), depth as int, j as int) == json_end(views(v@), i as int),
        decreases n - j,
    {
        if v[j].depth <= depth {
            return j;
        }
        j += 1;
    }
    j
}

pub proof fn lemma_children_inside(v: Seq<JsonView>, j: int, stop: int)
    requires
        0 <= j,
    ensures
        forall|k: int|
            0 <= k < json_children(v, j, stop).len() ==> j <= (#[trigger] json_children(
                v,
                j,
                stop,
            )[k]) < v.len(),
    decreases v.len() - j,
{
    if !(j >= stop || j >= v.len()) {
        lemma_json_rise(v, v[j].depth, j + 1);
        lemma_children_inside(v, json_end(v, j), stop);
        let c = json_children(v, j, stop);
        let rest = json_children(v, json_end(v, j), stop);
        assert forall|k: int| 0 <= k < c.len() implies j <= (#[trigger] c[k]) < v.len() by {
            if k > 0 {
                assert(c[k] == rest[k - 1]);
            }
        }
    }
}

pub proof fn lemma_member_inside(v: Seq<JsonView>, key: Seq<char>, j: int, stop: int)
    requires
        0 <= j,
    ensures
        json_member(v, key, j, stop) matches Some(k) ==> j <= k < v.len(),
    decreases v.len() - j,
{
    if !(j >= stop || j >= v.len()) {
        lemma_json_rise(v, v[j].depth, j + 1);
        lemma_member_inside(v, key, json_end(v, j), stop);
    }
}

/// The positions of the values directly in the list or object at `i`.
pub fn list_children(v: &Vec<JsonItem>, i: usize) -> (r: Vec<usize>)
    requires
        i < v@.len(),
    ensures
        ints(r@) == children_of(views(v@), i as int),
        forall|k: int| 0 <= k < r@.len() ==> i < (#[trigger] r@[k]) < v@.len(),
{
    let stop = find_json_end(v, i);
    let ghost w = views(v@);
    let mut out: Vec<usize> = Vec::new();
    let mut j: usize = i + 1;
    assert(ints(out@) =~= Seq::empty());
    assert(ints(out@) + json_children(w, i + 1, stop as int) =~= json_children(
        w,
        i + 1,
        stop as int,
    ));
    while j < stop
        invariant
            i < j,
            stop <= v@.len(),
            w == views(v@),
            w.len() == v@.len(),
            forall|k: int| 0 <= k < out@.len() ==> i < (#[trigger] out@[k]) < v@.len(),
            ints(out@) + json_children(w, j as int, stop as int) == json_children(
                w,
                i + 1,
                stop as int,
            ),
        decreases v@.len() - j,
    {
        let next = find_json_end(v, j);
        let ghost before = ints(out@);
        out.push(j);
        assert(ints(out@) =~= before.push(j as int));
        assert(before.push(j as int) + json_children(w, next as int, stop as int) =~= before + (
        seq![j as int] + json_children(w, next as int, stop as int)));
        j = next;
    }
    assert(ints(out@) + Seq::<int>::empty() =~= ints(out@));
    out
}

pub fn find_member(v: &Vec<JsonItem>, i: usize, key: &str) -> (r: Option<usize>)
    requires
        i < v@.len(),
    ensures
        match r {
            Some(k) => member_of(views(v@), i as int, key@) == Some(k as int) && i < k < v@.len(),
            None => member_of(views(v@), i as int, key@) is None,
        },
{
    let ghost w = views(v@);
    assert(w[i as int] == v@[i as int]@);
    match v[i].node {
        JsonNode::Object => {},
        _ => {
            return None;
        },
    }
    let stop = find_json_end(v, i);
    let mut j: usize = i + 1;
    while j < stop
        invariant
            i < j,
            stop <= v@.len(),
            w == views(v@),
            w.len() == v@.len(),
            w[i as int].node is Object,
            stop == json_end(w, i as int),
            json_member(w, key@, j as int, stop as int) == json_member(
                w,
                key@,
                i + 1,
                stop as int,
            ),
            i < v@.len(),
        decreases v@.len() - j,
    {
        assert(w[j as int] == v@[j as int]@);
        if same(v[j].key.as_str(), key) {
            return Some(j);
        }
        j = find_json_end(v, j);
    }
    None
}

// --- Members of a kind ---

pub open spec fn text_member(v: Seq<JsonView>, i: int, key: Seq<char>) -> Option<Seq<char>> {
    match member_of(v, i, key) {
        Some(k) => match v[k].node {
            JsonNodeView::Text(s) => Some(s),
            _ => None,
        },
        None => None,
    }
}

pub fn get_text<'a>(v: &'a Vec<JsonItem>, i: usize, key: &str) -> (r: Option<&'a str>)
    requires
        i < v@.len(),
    ensures
        match r {
            Some(s) => text_member(views(v@), i as int, key@) == Some(s@),
            None => text_member(views(v@), i as int, key@) is None,
        },
{
    match find_member(v, i, key) {
        Some(k) => {
            assert(views(v@)[k as int] == v@[k as int]@);
            match &v[k].node {
                JsonNode::Text(s) => Some(s.as_str()),
                _ => None,
            }
        },
        None => None,
    }
}

} // verus!
