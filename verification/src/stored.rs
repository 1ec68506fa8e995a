//! Texts, lists and maps as they are stored: JSON documents.

use vstd::prelude::*;
use serde_json::to_string_pretty;
use std::collections::BTreeMap;
use crate::config::opt_str;
use crate::cookies::{CookieJar, CookieViews, JarView};
use crate::json::{
    children_of, json_parsed, list_children, parse_json, JsonItem, JsonNode, JsonNodeView, JsonView,
};
use crate::number::ints;
use crate::strmap::{distinct, law_put_distinct, lookup, put, Duplicate, StrMap};
use crate::tab::{duplicate_all, lemma_views_push, views};

verus! {

broadcast use vstd::string::group_string_axioms;

/// A map of pairs of texts.
pub type PairViews = Seq<(Seq<char>, (Seq<char>, Seq<char>))>;

// --- What a document holds ---

/// The text at position `i`, where a text stands there.
pub open spec fn text_at(v: Seq<JsonView>, i: int) -> Option<Seq<char>> {
    match v[i].node {
        JsonNodeView::Text(s) => Some(s),
        _ => None,
    }
}

/// The texts at the first `n` of the positions `at`, where there are only texts.
pub open spec fn texts_to(v: Seq<JsonView>, at: Seq<int>, n: int) -> Option<Seq<Seq<char>>>
    decreases n,
{
    if n <= 0 {
        Some(Seq::empty())
    } else {
        match (texts_to(v, at, n - 1), text_at(v, at[n - 1])) {
            (Some(before), Some(s)) => Some(before.push(s)),
            _ => None,
        }
    }
}

/// The texts of the list at position `i`.
pub open spec fn list_at(v: Seq<JsonView>, i: int) -> Option<Seq<Seq<char>>> {
    if v[i].node is List {
        texts_to(v, children_of(v, i), children_of(v, i).len() as int)
    } else {
        None
    }
}

/// The two texts of the list at position `i`, where it has just two.
pub open spec fn pair_at(v: Seq<JsonView>, i: int) -> Option<(Seq<char>, Seq<char>)> {
    match list_at(v, i) {
        Some(t) => if t.len() == 2 {
            Some((t[0], t[1]))
        } else {
            None
        },
        None => None,
    }
}

/// The members at the first `n` of the positions `at`, where `read` finds something at
/// each.
pub open spec fn members_to<T>(
    v: Seq<JsonView>,
    at: Seq<int>,
    n: int,
    read: spec_fn(int) -> Option<T>,
) -> Option<Seq<(Seq<char>, T)>>
    decreases n,
{
    if n <= 0 {
        Some(Seq::empty())
    } else {
        match (members_to(v, at, n - 1, read), read(at[n - 1])) {
            (Some(before), Some(x)) => Some(put(before, v[at[n - 1]].key, x)),
            _ => None,
        }
    }
}

pub open spec fn members_at<T>(
    v: Seq<JsonView>,
    i: int,
    read: spec_fn(int) -> Option<T>,
) -> Option<Seq<(Seq<char>, T)>> {
    if v[i].node is Object {
        members_to(v, children_of(v, i), children_of(v, i).len() as int, read)
    } else {
        None
    }
}

pub open spec fn text_reader(v: Seq<JsonView>) -> spec_fn(int) -> Option<Seq<char>> {
    |i: int| text_at(v, i)
}

pub open spec fn pair_reader(v: Seq<JsonView>) -> spec_fn(int) -> Option<(Seq<char>, Seq<char>)> {
    |i: int| pair_at(v, i)
}

pub open spec fn map_reader(v: Seq<JsonView>) -> spec_fn(int) -> Option<CookieViews> {
    |i: int| map_at(v, i)
}

/// The object at position `i`, where its members are texts.
pub open spec fn map_at(v: Seq<JsonView>, i: int) -> Option<CookieViews> {
    members_at(v, i, text_reader(v))
}

/// The object at position `i`, where its members are lists of two texts.
pub open spec fn pairs_at(v: Seq<JsonView>, i: int) -> Option<PairViews> {
    members_at(v, i, pair_reader(v))
}

/// The object at position `i`, where its members are objects of texts.
pub open spec fn maps_at(v: Seq<JsonView>, i: int) -> Option<JarView> {
    members_at(v, i, map_reader(v))
}

proof fn lemma_texts_none(v: Seq<JsonView>, at: Seq<int>, n: int, m: int)
    requires
        n <= m,
        texts_to(v, at, n) is None,
    ensures
        texts_to(v, at, m) is None,
    decreases m - n,
{
    if n < m {
        lemma_texts_none(v, at, n, m - 1);
    }
}

proof fn lemma_members_none<T>(
    v: Seq<JsonView>,
    at: Seq<int>,
    n: int,
    m: int,
    read: spec_fn(int) -> Option<T>,
)
    requires
        n <= m,
        members_to(v, at, n, read) is None,
    ensures
        members_to(v, at, m, read) is None,
    decreases m - n,
{
    if n < m {
        lemma_members_none(v, at, n, m - 1, read);
    }
}

pub open spec fn list_view(r: Option<Vec<String>>) -> Option<Seq<Seq<char>>> {
    match r {
        Some(l) => Some(views(l@)),
        None => None,
    }
}

pub open spec fn map_view<V: View>(r: Option<StrMap<V>>) -> Option<Seq<(Seq<char>, V::V)>> {
    match r {
        Some(m) => Some(m@),
        None => None,
    }
}

pub fn read_list(v: &Vec<JsonItem>, i: usize) -> (r: Option<Vec<String>>)
    requires
        i < v@.len(),
    ensures
        list_view(r) == list_at(views(v@), i as int),
{
    let ghost w = views(v@);
    assert(w[i as int] == v@[i as int]@);
    match v[i].node {
        JsonNode::List => {},
        _ => {
            return None;
        },
    }
    let kids = list_children(v, i);
    let ghost at = children_of(w, i as int);
    let mut out: Vec<String> = Vec::new();
    assert(views(out@) =~= Seq::empty());
    for n in 0..kids.len()
        invariant
            w == views(v@),
            at == ints(kids@),
            at == children_of(w, i as int),
            w[i as int].node is List,
            forall|k: int| 0 <= k < kids@.len() ==> i < (#[trigger] kids@[k]) < v@.len(),
            texts_to(w, at, n as int) == Some(views(out@)),
    {
        let j: usize = kids[n];
        assert(at[n as int] == j);
        assert(w[j as int] == v@[j as int]@);
        match &v[j].node {
            JsonNode::Text(s) => {
                let text = s.clone();
                proof {
                    lemma_views_push(out@, text);
                }
                out.push(text);
            },
            _ => {
                proof {
                    assert(texts_to(w, at, n + 1) is None);
                    lemma_texts_none(w, at, n + 1, at.len() as int);
                }
                return None;
            },
        }
    }
    Some(out)
}

fn read_pair(v: &Vec<JsonItem>, i: usize) -> (r: Option<(String, String)>)
    requires
        i < v@.len(),
    ensures
        match r {
            Some(p) => pair_at(views(v@), i as int) == Some(p@),
            None => pair_at(views(v@), i as int) is None,
        },
{
    match read_list(v, i) {
        Some(l) => {
            if l.len() != 2 {
                return None;
            }
            assert(views(l@)[0] == l@[0]@ && views(l@)[1] == l@[1]@);
            Some((l[0].clone(), l[1].clone()))
        },
        None => None,
    }
}

pub fn read_map(v: &Vec<JsonItem>, i: usize) -> (r: Option<StrMap<String>>)
    requires
        i < v@.len(),
    ensures
        map_view(r) == map_at(views(v@), i as int),
{
    let ghost w = views(v@);
    assert(w[i as int] == v@[i as int]@);
    match v[i].node {
        JsonNode::Object => {},
        _ => {
            return None;
        },
    }
    let kids = list_children(v, i);
    let ghost at = children_of(w, i as int);
    let ghost read = text_reader(w);
    let mut out: StrMap<String> = StrMap::new();
    for n in 0..kids.len()
        invariant
            w == views(v@),
            read == text_reader(w),
            at == ints(kids@),
            at == children_of(w, i as int),
            w[i as int].node is Object,
            forall|k: int| 0 <= k < kids@.len() ==> i < (#[trigger] kids@[k]) < v@.len(),
            members_to(w, at, n as int, read) == Some(out@),
    {
        let j: usize = kids[n];
        assert(at[n as int] == j);
        assert(w[j as int] == v@[j as int]@);
        assert(read(j as int) == text_at(w, j as int));
        match &v[j].node {
            JsonNode::Text(s) => {
                out.insert(v[j].key.clone(), s.clone());
            },
            _ => {
                proof {
                    assert(members_to(w, at, n + 1, read) is None);
                    lemma_members_none(w, at, n + 1, at.len() as int, read);
                }
                return None;
            },
        }
    }
    Some(out)
}

pub fn read_pairs(v: &Vec<JsonItem>, i: usize) -> (r: Option<StrMap<(String, String)>>)
    requires
        i < v@.len(),
    ensures
        map_view(r) == pairs_at(views(v@), i as int),
{
    let ghost w = views(v@);
    assert(w[i as int] == v@[i as int]@);
    match v[i].node {
        JsonNode::Object => {},
        _ => {
            return None;
        },
    }
    let kids = list_children(v, i);
    let ghost at = children_of(w, i as int);
    let ghost read = pair_reader(w);
    let mut out: StrMap<(String, String)> = StrMap::new();
    for n in 0..kids.len()
        invariant
            w == views(v@),
            read == pair_reader(w),
            at == ints(kids@),
            at == children_of(w, i as int),
            w[i as int].node is Object,
            forall|k: int| 0 <= k < kids@.len() ==> i < (#[trigger] kids@[k]) < v@.len(),
            members_to(w, at, n as int, read) == Some(out@),
    {
        let j: usize = kids[n];
        assert(at[n as int] == j);
        assert(w[j as int] == v@[j as int]@);
        assert(read(j as int) == pair_at(w, j as int));
        match read_pair(v, j) {
            Some(p) => {
                out.insert(v[j].key.clone(), p);
            },
            None => {
                proof {
                    assert(members_to(w, at, n + 1, read) is None);
                    lemma_members_none(w, at, n + 1, at.len() as int, read);
                }
                return None;
            },
        }
    }
    Some(out)
}

pub fn read_maps(v: &Vec<JsonItem>, i: usize) -> (r: Option<CookieJar>)
    requires
        i < v@.len(),
    ensures
        map_view(r) == maps_at(views(v@), i as int),
{
    let ghost w = views(v@);
    assert(w[i as int] == v@[i as int]@);
    match v[i].node {
        JsonNode::Object => {},
        _ => {
            return None;
        },
    }
    let kids = list_children(v, i);
    let ghost at = children_of(w, i as int);
    let ghost read = map_reader(w);
    let mut out: CookieJar = StrMap::new();
    for n in 0..kids.len()
        invariant
            w == views(v@),
            read == map_reader(w),
            at == ints(kids@),
            at == children_of(w, i as int),
            w[i as int].node is Object,
            forall|k: int| 0 <= k < kids@.len() ==> i < (#[trigger] kids@[k]) < v@.len(),
            members_to(w, at, n as int, read) == Some(out@),
    {
        let j: usize = kids[n];
        assert(at[n as int] == j);
        assert(w[j as int] == v@[j as int]@);
        assert(read(j as int) == map_at(w, j as int));
        match read_map(v, j) {
            Some(m) => {
                out.insert(v[j].key.clone(), m);
            },
            None => {
                proof {
                    assert(members_to(w, at, n + 1, read) is None);
                    lemma_members_none(w, at, n + 1, at.len() as int, read);
                }
                return None;
            },
        }
    }
    Some(out)
}

// --- Reading ---

/// The value that a stored text holds, where there is such a text.
pub open spec fn value_in(stored: Option<Seq<char>>) -> Option<Seq<JsonView>> {
    match stored {
        Some(text) => json_parsed(text),
        None => None,
    }
}

/// The list of texts that is stored.
pub open spec fn list_in(stored: Option<Seq<char>>) -> Option<Seq<Seq<char>>> {
    match value_in(stored) {
        Some(v) => list_at(v, 0),
        None => None,
    }
}

/// The map of texts that is stored, an empty one where the text is no such map.
pub open spec fn texts_in(stored: Option<Seq<char>>) -> CookieViews {
    match value_in(stored) {
        Some(v) => match map_at(v, 0) {
            Some(m) => m,
            None => Seq::empty(),
        },
        None => Seq::empty(),
    }
}

/// The map of pairs of texts that is stored, an empty one where the text is no such map.
pub open spec fn pairs_in(stored: Option<Seq<char>>) -> PairViews {
    match value_in(stored) {
        Some(v) => match pairs_at(v, 0) {
            Some(m) => m,
            None => Seq::empty(),
        },
        None => Seq::empty(),
    }
}

/// The map of maps of texts that is stored, an empty one where the text is no such map.
pub open spec fn jar_in(stored: Option<Seq<char>>) -> JarView {
    match value_in(stored) {
        Some(v) => match maps_at(v, 0) {
            Some(m) => m,
            None => Seq::empty(),
        },
        None => Seq::empty(),
    }
}

fn read_value(stored: Option<&str>) -> (r: Option<Vec<JsonItem>>)
    ensures
        match r {
            Some(v) => value_in(opt_str(stored)) == Some(views(v@)) && v@.len() > 0,
            None => value_in(opt_str(stored)) is None,
        },
{
    match stored {
        Some(text) => parse_json(text),
        None => None,
    }
}

pub fn stored_list(stored: Option<&str>) -> (r: Option<Vec<String>>)
    ensures
        list_view(r) == list_in(opt_str(stored)),
{
    match read_value(stored) {
        Some(v) => read_list(&v, 0),
        None => None,
    }
}

pub fn stored_texts(stored: Option<&str>) -> (r: StrMap<String>)
    ensures
        r@ == texts_in(opt_str(stored)),
{
    if let Some(v) = read_value(stored) {
        if let Some(m) = read_map(&v, 0) {
            return m;
        }
    }
    StrMap::new()
}

pub fn stored_pairs(stored: Option<&str>) -> (r: StrMap<(String, String)>)
    ensures
        r@ == pairs_in(opt_str(stored)),
{
    if let Some(v) = read_value(stored) {
        if let Some(m) = read_pairs(&v, 0) {
            return m;
        }
    }
    StrMap::new()
}

pub fn stored_jar(stored: Option<&str>) -> (r: CookieJar)
    ensures
        r@ == jar_in(opt_str(stored)),
{
    if let Some(v) = read_value(stored) {
        if let Some(m) = read_maps(&v, 0) {
            return m;
        }
    }
    StrMap::new()
}

proof fn lemma_members_distinct<T>(
    v: Seq<JsonView>,
    at: Seq<int>,
    n: int,
    read: spec_fn(int) -> Option<T>,
)
    ensures
        members_to(v, at, n, read) matches Some(m) ==> distinct(m),
    decreases n,
{
    if n > 0 {
        lemma_members_distinct(v, at, n - 1, read);
        if let Some(before) = members_to(v, at, n - 1, read) {
            if let Some(x) = read(at[n - 1]) {
                law_put_distinct(before, v[at[n - 1]].key, x);
            }
        }
    }
}

/// No key comes twice in a map that was stored.
pub proof fn law_stored_distinct(stored: Option<Seq<char>>)
    ensures
        distinct(texts_in(stored)),
        distinct(pairs_in(stored)),
        distinct(jar_in(stored)),
{
    if let Some(v) = value_in(stored) {
        let at = children_of(v, 0);
        lemma_members_distinct(v, at, at.len() as int, text_reader(v));
        lemma_members_distinct(v, at, at.len() as int, pair_reader(v));
        lemma_members_distinct(v, at, at.len() as int, map_reader(v));
    }
}

// --- Writing ---

/// What is stored.
pub enum Record {
    List(Vec<String>),
    Texts(Vec<(String, String)>),
    Pairs(Vec<(String, (String, String))>),
    Maps(Vec<(String, Vec<(String, String)>)>),
}

pub enum RecordView {
    List(Seq<Seq<char>>),
    Texts(CookieViews),
    Pairs(PairViews),
    Maps(JarView),
}

impl View for Record {
    type V = RecordView;

    open spec fn view(&self) -> RecordView {
        match *self {
            Record::List(l) => RecordView::List(views(l@)),
            Record::Texts(m) => RecordView::Texts(views(m@)),
            Record::Pairs(m) => RecordView::Pairs(views(m@)),
            Record::Maps(m) => RecordView::Maps(
                m@.map_values(|e: (String, Vec<(String, String)>)| (e.0@, views(e.1@))),
            ),
        }
    }
}

/// Two maps hold the same.
pub open spec fn same_members<T>(a: Seq<(Seq<char>, T)>, b: Seq<(Seq<char>, T)>) -> bool {
    forall|k: Seq<char>| #[trigger] lookup(a, k) == lookup(b, k)
}

/// Two maps of maps hold the same.
pub open spec fn same_jars(a: JarView, b: JarView) -> bool {
    forall|k: Seq<char>|
        match (#[trigger] lookup(a, k), lookup(b, k)) {
            (Some(x), Some(y)) => same_members(x, y),
            (None, None) => true,
            _ => false,
        }
}

/// No key comes twice in a map of maps, nor in the maps in it.
pub open spec fn all_distinct(jar: JarView) -> bool {
    distinct(jar) && forall|i: int| 0 <= i < jar.len() ==> distinct((#[trigger] jar[i]).1)
}

/// A document holds what was stored in it.
pub open spec fn reads_back(text: Seq<char>, rec: RecordView) -> bool {
    match rec {
        RecordView::List(l) => list_in(Some(text)) == Some(l),
        RecordView::Texts(m) => distinct(m) ==> same_members(texts_in(Some(text)), m),
        RecordView::Pairs(m) => distinct(m) ==> same_members(pairs_in(Some(text)), m),
        RecordView::Maps(m) => all_distinct(m) ==> same_jars(jar_in(Some(text)), m),
    }
}

/// What `serde_json::to_string_pretty` writes, of maps with their keys in order.
pub uninterp spec fn json_pretty(rec: RecordView) -> Seq<char>;

/// `serde_json::to_string_pretty` writes lists and maps of texts as a document, by what
/// they hold alone, and `serde_json::from_str` reads the same from it. It does not fail on
/// these: their keys are texts.
#[verifier::external_body]
pub(crate) fn write_record(rec: Record) -> (r: String)
    ensures
        r@ == json_pretty(rec@),
        reads_back(r@, rec@),
{
    match rec {
        Record::List(l) => to_string_pretty(&l),
        Record::Texts(m) => to_string_pretty(&m.into_iter().collect::<BTreeMap<_, _>>()),
        Record::Pairs(m) => to_string_pretty(&m.into_iter().collect::<BTreeMap<_, _>>()),
        Record::Maps(m) => to_string_pretty(
            &m.into_iter().map(|(k, v)| (k, v.into_iter().collect::<BTreeMap<_, _>>())).collect::<BTreeMap<_, _>>(),
        ),
    }.unwrap_or_default()
}

/// The members of a map.
pub fn members<V: Duplicate>(m: &StrMap<V>) -> (r: Vec<(String, V)>)
    ensures
        views(r@) == m@,
{
    let mut out: Vec<(String, V)> = Vec::new();
    let n: usize = m.len();
    for i in 0..n
        invariant
            n == m@.len(),
            out@.len() == i,
            forall|j: int| 0 <= j < i ==> (#[trigger] out@[j])@ == m@[j],
    {
        out.push((m.key_at(i).to_string(), m.value_at(i).duplicate()));
    }
    assert(views(out@) =~= m@);
    out
}

pub fn write_list(l: &Vec<String>) -> (r: String)
    ensures
        r@ == json_pretty(RecordView::List(views(l@))),
        list_in(Some(r@)) == Some(views(l@)),
{
    write_record(Record::List(duplicate_all(l)))
}

pub fn write_texts(m: &StrMap<String>) -> (r: String)
    ensures
        r@ == json_pretty(RecordView::Texts(m@)),
        distinct(m@) ==> same_members(texts_in(Some(r@)), m@),
{
    write_record(Record::Texts(members(m)))
}

pub fn write_pairs(m: &StrMap<(String, String)>) -> (r: String)
    ensures
        r@ == json_pretty(RecordView::Pairs(m@)),
        distinct(m@) ==> same_members(pairs_in(Some(r@)), m@),
{
    write_record(Record::Pairs(members(m)))
}

pub fn write_jar(jar: &CookieJar) -> (r: String)
    ensures
        r@ == json_pretty(RecordView::Maps(jar@)),
        all_distinct(jar@) ==> same_jars(jar_in(Some(r@)), jar@),
{
    let mut out: Vec<(String, Vec<(String, String)>)> = Vec::new();
    let n: usize = jar.len();
    for i in 0..n
        invariant
            n == jar@.len(),
            out@.len() == i,
            forall|j: int|
                0 <= j < i ==> ((#[trigger] out@[j]).0@, views(out@[j].1@)) == jar@[j],
    {
        out.push((jar.key_at(i).to_string(), members(jar.value_at(i))));
    }
    let rec = Record::Maps(out);
    assert(rec@->Maps_0 =~= jar@);
    write_record(rec)
}

} // verus!
