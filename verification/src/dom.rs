//! Parsed pages.
//!
//! A page is the list of its nodes in document order, each with its depth. The nodes
//! that lie under a node follow it directly and lie deeper than it.

use vstd::prelude::*;
use scraper::{Html, Node, Selector};
use crate::tab::views;
use crate::text::same;

verus! {

pub enum DomNode {
    /// An element with its name and its attributes, each with namespace, name and value.
    Element { name: String, attrs: Vec<(String, String, String)> },
    Text(String),
    /// A comment, a doctype or a processing instruction.
    Other,
}

pub struct DomItem {
    pub depth: usize,
    pub node: DomNode,
}

pub enum NodeView {
    Element { name: Seq<char>, attrs: Seq<(Seq<char>, Seq<char>, Seq<char>)> },
    Text(Seq<char>),
    Other,
}

pub struct ItemView {
    pub depth: int,
    pub node: NodeView,
}

pub open spec fn attr_views(v: Seq<(String, String, String)>) -> Seq<
    (Seq<char>, Seq<char>, Seq<char>),
> {
    v.map_values(|a: (String, String, String)| (a.0@, a.1@, a.2@))
}

impl View for DomNode {
    type V = NodeView;

    open spec fn view(&self) -> NodeView {
        match *self {
            DomNode::Element { name, attrs } => NodeView::Element {
                name: name@,
                attrs: attr_views(attrs@),
            },
            DomNode::Text(t) => NodeView::Text(t@),
            DomNode::Other => NodeView::Other,
        }
    }
}

impl View for DomItem {
    type V = ItemView;

    open spec fn view(&self) -> ItemView {
        ItemView { depth: self.depth as int, node: self.node@ }
    }
}

/// An element that a selector found: its nodes, itself first, and its content as markup.
pub struct Selected {
    pub items: Vec<DomItem>,
    pub inner_html: String,
}

pub struct SelectedView {
    pub items: Seq<ItemView>,
    pub inner_html: Seq<char>,
}

impl View for Selected {
    type V = SelectedView;

    open spec fn view(&self) -> SelectedView {
        SelectedView { items: views(self.items@), inner_html: self.inner_html@ }
    }
}

// --- Parsing ---

/// The elements that `scraper::Html::select` finds on a page, `None` for a selector that
/// `scraper::Selector::parse` refuses.
pub uninterp spec fn selected_elements(html: Seq<char>, selector: Seq<char>) -> Option<
    Seq<SelectedView>,
>;

/// `scraper::Html::select` finds the elements of a page that a selector matches, by the
/// page and the selector alone. Each comes with its nodes and what `inner_html` gives.
#[verifier::external_body]
pub(crate) fn select_elements(html: &str, selector: &str) -> (r: Option<Vec<Selected>>)
    ensures
        match r {
            Some(v) => selected_elements(html@, selector@) == Some(views(v@)),
            None => selected_elements(html@, selector@) is None,
        },
{
    let doc = Html::parse_document(html);
    let sel = Selector::parse(selector).ok()?;
    Some(doc.select(&sel).map(|el| Selected { inner_html: el.inner_html(), items: el.descendants().map(|n| DomItem {
        depth: n.ancestors().count(),
        node: match n.value() {
            Node::Element(e) => DomNode::Element {
                name: e.name.local.to_string(),
                attrs: e.attrs.iter().map(|(k, v)| (k.ns.to_string(), k.local.to_string(), v.to_string())).collect(),
            },
            Node::Text(t) => DomNode::Text(t.text.to_string()),
            _ => DomNode::Other,
        },
    }).collect() }).collect())
}

// --- The tree ---

/// The first position at or after `j` whose node lies no deeper than `depth`.
pub open spec fn rise(d: Seq<ItemView>, depth: int, j: int) -> int
    decreases d.len() - j,
{
    if j < 0 || j >= d.len() {
        d.len() as int
    } else if d[j].depth <= depth {
        j
    } else {
        rise(d, depth, j + 1)
    }
}

/// The position behind the last node under node `i`.
pub open spec fn end_of(d: Seq<ItemView>, i: int) -> int {
    rise(d, d[i].depth, i + 1)
}

pub proof fn lemma_rise(d: Seq<ItemView>, depth: int, j: int)
    requires
        0 <= j <= d.len(),
    ensures
        j <= rise(d, depth, j) <= d.len(),
        forall|k: int| j <= k < rise(d, depth, j) ==> (#[trigger] d[k]).depth > depth,
    decreases d.len() - j,
{
    if j < d.len() && d[j].depth > depth {
        lemma_rise(d, depth, j + 1);
    }
}

pub open spec fn is_named(d: Seq<ItemView>, i: int, tag: Seq<char>) -> bool {
    match d[i].node {
        NodeView::Element { name, .. } => name == tag,
        _ => false,
    }
}

/// The value of the first of `attrs` that has no namespace and the name `key`.
pub open spec fn attr_from(
    attrs: Seq<(Seq<char>, Seq<char>, Seq<char>)>,
    key: Seq<char>,
    k: int,
) -> Option<Seq<char>>
    decreases attrs.len() - k,
{
    if k < 0 || k >= attrs.len() {
        None
    } else if attrs[k].0.len() == 0 && attrs[k].1 == key {
        Some(attrs[k].2)
    } else {
        attr_from(attrs, key, k + 1)
    }
}

pub open spec fn attr_of(n: NodeView, key: Seq<char>) -> Option<Seq<char>> {
    match n {
        NodeView::Element { attrs, .. } => attr_from(attrs, key, 0),
        _ => None,
    }
}

/// The value of an attribute, or `other` where the element does not have it.
pub open spec fn attr_or(n: NodeView, key: Seq<char>, other: Seq<char>) -> Seq<char> {
    match attr_of(n, key) {
        Some(v) => v,
        None => other,
    }
}

/// The text in nodes `a` to `b`.
pub open spec fn text_in(d: Seq<ItemView>, a: int, b: int) -> Seq<char>
    decreases b - a,
{
    if a >= b {
        Seq::empty()
    } else {
        text_in(d, a, b - 1) + (match d[b - 1].node {
            NodeView::Text(t) => t,
            _ => Seq::empty(),
        })
    }
}

/// All text under node `i`.
pub open spec fn text_of(d: Seq<ItemView>, i: int) -> Seq<char> {
    text_in(d, i, end_of(d, i))
}

/// The first of nodes `a` to `b` that is an element named `tag`.
pub open spec fn first_named(d: Seq<ItemView>, tag: Seq<char>, a: int, b: int) -> Option<int>
    decreases b - a,
{
    if a >= b {
        None
    } else if is_named(d, a, tag) {
        Some(a)
    } else {
        first_named(d, tag, a + 1, b)
    }
}

/// Whether an element named `tag` lies under node `i`.
pub open spec fn holds(d: Seq<ItemView>, i: int, tag: Seq<char>) -> bool {
    first_named(d, tag, i + 1, end_of(d, i)) is Some
}

pub fn find_end(d: &Vec<DomItem>, i: usize) -> (r: usize)
    requires
        i < d@.len(),
    ensures
        r == end_of(views(d@), i as int),
        i < r <= d@.len(),
{
    let n: usize = d.len();
    let depth: usize = d[i].depth;
    let mut j: usize = i + 1;
    while j < n
        invariant
            n == d@.len(),
            i < j <= d@.len(),
            i < d@.len(),
            depth == d@[i as int].depth,
            rise(views(d@), depth as int, j as int) == end_of(views(d@), i as int),
        decreases d@.len() - j,
    {
        if d[j].depth <= depth {
            return j;
        }
        j += 1;
    }
    j
}

pub fn node_attr<'a>(n: &'a DomNode, key: &str) -> (r: Option<&'a str>)
    ensures
        match r {
            Some(v) => attr_of(n@, key@) == Some(v@),
            None => attr_of(n@, key@) is None,
        },
{
    match n {
        DomNode::Element { attrs, .. } => {
            let ghost a = attr_views(attrs@);
            let mut k: usize = 0;
            while k < attrs.len()
                invariant
                    k <= attrs@.len(),
                    a == attr_views(attrs@),
                    attr_of(n@, key@) == attr_from(a, key@, 0),
                    attr_from(a, key@, k as int) == attr_from(a, key@, 0),
                decreases attrs@.len() - k,
            {
                assert(a[k as int] == (
                    attrs@[k as int].0@,
                    attrs@[k as int].1@,
                    attrs@[k as int].2@,
                ));
                if attrs[k].0.as_str().is_empty() && same(attrs[k].1.as_str(), key) {
                    return Some(attrs[k].2.as_str());
                }
                k += 1;
            }
            None
        },
        _ => None,
    }
}

pub fn node_attr_or(n: &DomNode, key: &str, other: &str) -> (r: String)
    ensures
        r@ == attr_or(n@, key@, other@),
{
    match node_attr(n, key) {
        Some(v) => v.to_string(),
        None => other.to_string(),
    }
}

pub fn named(n: &DomNode, tag: &str) -> (r: bool)
    ensures
        r == (n@ matches NodeView::Element { name, .. } && name == tag@),
{
    match n {
        DomNode::Element { name, .. } => same(name.as_str(), tag),
        _ => false,
    }
}

pub fn text_between(d: &Vec<DomItem>, a: usize, b: usize) -> (r: String)
    requires
        a <= b <= d@.len(),
    ensures
        r@ == text_in(views(d@), a as int, b as int),
{
    let mut out = String::new();
    for i in a..b
        invariant
            a <= b <= d@.len(),
            out@ == text_in(views(d@), a as int, i as int),
    {
        match &d[i].node {
            DomNode::Text(t) => {
                out.append(t.as_str());
            },
            _ => {
                assert(out@ =~= out@ + Seq::<char>::empty());
            },
        }
    }
    out
}

pub fn text_under(d: &Vec<DomItem>, i: usize) -> (r: String)
    requires
        i < d@.len(),
    ensures
        r@ == text_of(views(d@), i as int),
{
    let e = find_end(d, i);
    text_between(d, i, e)
}

pub fn find_named(d: &Vec<DomItem>, tag: &str, a: usize, b: usize) -> (r: Option<usize>)
    requires
        a <= b <= d@.len(),
    ensures
        match r {
            Some(i) => first_named(views(d@), tag@, a as int, b as int) == Some(i as int) && a <= i
                < b,
            None => first_named(views(d@), tag@, a as int, b as int) is None,
        },
{
    let mut i: usize = a;
    while i < b
        invariant
            a <= i <= b <= d@.len(),
            first_named(views(d@), tag@, i as int, b as int) == first_named(
                views(d@),
                tag@,
                a as int,
                b as int,
            ),
        decreases b - i,
    {
        if named(&d[i].node, tag) {
            return Some(i);
        }
        i += 1;
    }
    None
}

pub fn has_named(d: &Vec<DomItem>, i: usize, tag: &str) -> (r: bool)
    requires
        i < d@.len(),
    ensures
        r == holds(views(d@), i as int, tag@),
{
    let e = find_end(d, i);
    find_named(d, tag, i + 1, e).is_some()
}

} // verus!
