//! Maps with text keys, in the order in which the keys first came.

use vstd::prelude::*;
use crate::text::same;

verus! {

// --- The model: a sequence of pairs in which no key comes twice ---

/// The position of the first pair at or after `from` with key `k`, or the length.
pub open spec fn position<T>(m: Seq<(Seq<char>, T)>, k: Seq<char>, from: int) -> int
    decreases m.len() - from,
{
    if from < 0 || from >= m.len() {
        m.len() as int
    } else if m[from].0 == k {
        from
    } else {
        position(m, k, from + 1)
    }
}

pub open spec fn lookup<T>(m: Seq<(Seq<char>, T)>, k: Seq<char>) -> Option<T> {
    let i = position(m, k, 0);
    if 0 <= i < m.len() {
        Some(m[i].1)
    } else {
        None
    }
}

/// `m` with `v` under `k`: a key that is there keeps its place.
pub open spec fn put<T>(m: Seq<(Seq<char>, T)>, k: Seq<char>, v: T) -> Seq<(Seq<char>, T)> {
    let i = position(m, k, 0);
    if 0 <= i < m.len() {
        m.update(i, (k, v))
    } else {
        m.push((k, v))
    }
}

/// `m` without the key `k`.
pub open spec fn without<T>(m: Seq<(Seq<char>, T)>, k: Seq<char>) -> Seq<(Seq<char>, T)>
    decreases m.len(),
{
    if m.len() == 0 {
        m
    } else if m.last().0 == k {
        without(m.drop_last(), k)
    } else {
        without(m.drop_last(), k).push(m.last())
    }
}

pub open spec fn distinct<T>(m: Seq<(Seq<char>, T)>) -> bool {
    forall|i: int, j: int|
        0 <= i < j < m.len() ==> (#[trigger] m[i]).0 != (#[trigger] m[j]).0
}

pub proof fn lemma_position<T>(m: Seq<(Seq<char>, T)>, k: Seq<char>, from: int)
    requires
        0 <= from <= m.len(),
    ensures
        from <= position(m, k, from) <= m.len(),
        position(m, k, from) < m.len() ==> m[position(m, k, from)].0 == k,
        forall|i: int| from <= i < position(m, k, from) ==> (#[trigger] m[i]).0 != k,
    decreases m.len() - from,
{
    if from < m.len() && m[from].0 != k {
        lemma_position(m, k, from + 1);
    }
}

/// A position at which `k` stands, with no `k` before it, is `k`'s position.
pub proof fn lemma_position_is<T>(m: Seq<(Seq<char>, T)>, k: Seq<char>, i: int)
    requires
        0 <= i <= m.len(),
        i < m.len() ==> m[i].0 == k,
        forall|j: int| 0 <= j < i ==> (#[trigger] m[j]).0 != k,
    ensures
        position(m, k, 0) == i,
{
    lemma_position(m, k, 0);
    let p = position(m, k, 0);
    if p < i {
        assert(m[p].0 != k);
    }
    if i < p {
        assert(m[i].0 != k);
    }
}

/// What was put is found, and every other key is as it was.
pub proof fn law_put_lookup<T>(m: Seq<(Seq<char>, T)>, k: Seq<char>, v: T, other: Seq<char>)
    ensures
        lookup(put(m, k, v), k) == Some(v),
        other != k ==> lookup(put(m, k, v), other) == lookup(m, other),
{
    lemma_position(m, k, 0);
    lemma_position(m, other, 0);
    let p = position(m, k, 0);
    let n = put(m, k, v);
    assert forall|j: int| 0 <= j < p implies (#[trigger] n[j]).0 != k by {
        assert(m[j].0 != k);
    }
    lemma_position_is(n, k, p);
    if other != k {
        let q = position(m, other, 0);
        assert forall|j: int| 0 <= j < q implies (#[trigger] n[j]).0 != other by {
            assert(m[j].0 != other);
        }
        if q < m.len() {
            assert(q != p);
            lemma_position_is(n, other, q);
        } else {
            assert forall|j: int| 0 <= j < n.len() implies (#[trigger] n[j]).0 != other by {
                if j < m.len() {
                    assert(m[j].0 != other);
                }
            }
            lemma_position_is(n, other, n.len() as int);
        }
    }
}

/// What was removed is gone, and every other key is as it was.
pub proof fn law_without_lookup<T>(m: Seq<(Seq<char>, T)>, k: Seq<char>, other: Seq<char>)
    ensures
        lookup(without(m, k), k) is None,
        other != k ==> lookup(without(m, k), other) == lookup(m, other),
    decreases m.len(),
{
    if m.len() > 0 {
        let d = m.drop_last();
        law_without_lookup(d, k, other);
        let w = without(d, k);
        lemma_last(d, m.last().0, m.last().1, other);
        assert(d.push(m.last()) =~= m);
        if m.last().0 != k {
            lemma_last(w, m.last().0, m.last().1, other);
            lemma_last(w, m.last().0, m.last().1, k);
        }
    }
}

/// A pair at the end is found by its key where no pair before it has that key.
pub proof fn lemma_last<T>(m: Seq<(Seq<char>, T)>, k: Seq<char>, v: T, other: Seq<char>)
    ensures
        lookup(m.push((k, v)), other) == (match lookup(m, other) {
            Some(x) => Some(x),
            None => if other == k {
                Some(v)
            } else {
                None
            },
        }),
{
    let n = m.push((k, v));
    lemma_position(m, other, 0);
    let p = position(m, other, 0);
    assert forall|j: int| 0 <= j < p implies (#[trigger] n[j]).0 != other by {
        assert(m[j].0 != other);
    }
    if p < m.len() || other == k {
        lemma_position_is(n, other, p);
    } else {
        assert forall|j: int| 0 <= j < n.len() implies (#[trigger] n[j]).0 != other by {
            if j < m.len() {
                assert(m[j].0 != other);
            }
        }
        lemma_position_is(n, other, n.len() as int);
    }
}

/// Putting a pair into a map in which no key comes twice keeps it so.
pub proof fn law_put_distinct<T>(m: Seq<(Seq<char>, T)>, k: Seq<char>, v: T)
    requires
        distinct(m),
    ensures
        distinct(put(m, k, v)),
{
    lemma_position(m, k, 0);
    let n = put(m, k, v);
    assert forall|i: int, j: int| 0 <= i < j < n.len() implies (#[trigger] n[i]).0 != (
    #[trigger] n[j]).0 by {
        if i < m.len() && j < m.len() {
            assert(m[i].0 != m[j].0);
        }
    }
}

/// Removing a key from a map in which no key comes twice keeps it so.
pub proof fn law_without_distinct<T>(m: Seq<(Seq<char>, T)>, k: Seq<char>)
    requires
        distinct(m),
    ensures
        distinct(without(m, k)),
    decreases m.len(),
{
    if m.len() > 0 {
        law_without_distinct(m.drop_last(), k);
        lemma_without_from(m.drop_last(), k);
    }
}

/// Every pair that stays was there before.
pub proof fn lemma_without_from<T>(m: Seq<(Seq<char>, T)>, k: Seq<char>)
    ensures
        forall|i: int|
            0 <= i < without(m, k).len() ==> exists|j: int|
                0 <= j < m.len() && #[trigger] without(m, k)[i] == #[trigger] m[j],
    decreases m.len(),
{
    if m.len() > 0 {
        let d = m.drop_last();
        lemma_without_from(d, k);
        assert forall|i: int| 0 <= i < without(m, k).len() implies exists|j: int|
            0 <= j < m.len() && #[trigger] without(m, k)[i] == #[trigger] m[j] by {
            if i < without(d, k).len() {
                let j = choose|j: int|
                    0 <= j < d.len() && #[trigger] without(d, k)[i] == #[trigger] d[j];
                assert(m[j] == d[j]);
                assert(without(m, k)[i] == m[j]);
            } else {
                assert(without(m, k)[i] == m[m.len() - 1]);
            }
        }
    }
}

// --- The executable map ---

/// A value that can be copied without change to what it stands for.
pub trait Duplicate: View + Sized {
    fn duplicate(&self) -> (r: Self)
        ensures
            r@ == self@,
    ;
}

impl Duplicate for String {
    fn duplicate(&self) -> (r: Self) {
        self.clone()
    }
}

#[derive(Clone, Debug)]
pub struct StrMap<V> {
    entries: Vec<(String, V)>,
}

impl<V: View> View for StrMap<V> {
    type V = Seq<(Seq<char>, V::V)>;

    closed spec fn view(&self) -> Seq<(Seq<char>, V::V)> {
        self.entries@.map_values(|e: (String, V)| (e.0@, e.1@))
    }
}

impl<V: View> StrMap<V> {
    pub fn new() -> (r: Self)
        ensures
            r@ == Seq::<(Seq<char>, V::V)>::empty(),
    {
        let r = StrMap { entries: Vec::new() };
        assert(r@ =~= Seq::empty());
        r
    }

    pub fn len(&self) -> (r: usize)
        ensures
            r == self@.len(),
    {
        self.entries.len()
    }

    pub fn is_empty(&self) -> (r: bool)
        ensures
            r == (self@.len() == 0),
    {
        self.entries.len() == 0
    }

    pub fn key_at(&self, i: usize) -> (r: &str)
        requires
            i < self@.len(),
        ensures
            r@ == self@[i as int].0,
    {
        self.entries[i].0.as_str()
    }

    pub fn value_at(&self, i: usize) -> (r: &V)
        requires
            i < self@.len(),
        ensures
            r@ == self@[i as int].1,
    {
        &self.entries[i].1
    }

    /// The place of the pair with key `k`, or the number of pairs.
    pub fn place(&self, k: &str) -> (r: usize)
        ensures
            r == position(self@, k@, 0),
            r <= self@.len(),
            r < self@.len() ==> self@[r as int].0 == k@,
    {
        let mut i: usize = 0;
        while i < self.entries.len()
            invariant
                i <= self.entries@.len(),
                self@.len() == self.entries@.len(),
                position(self@, k@, i as int) == position(self@, k@, 0),
            decreases self.entries@.len() - i,
        {
            assert(self@[i as int].0 == self.entries@[i as int].0@);
            if same(self.entries[i].0.as_str(), k) {
                return i;
            }
            i += 1;
        }
        i
    }

    pub fn get(&self, k: &str) -> (r: Option<&V>)
        ensures
            match r {
                Some(v) => lookup(self@, k@) == Some(v@),
                None => lookup(self@, k@) is None,
            },
    {
        let i = self.place(k);
        if i < self.entries.len() {
            Some(&self.entries[i].1)
        } else {
            None
        }
    }

    pub fn contains_key(&self, k: &str) -> (r: bool)
        ensures
            r == lookup(self@, k@) is Some,
    {
        self.place(k) < self.entries.len()
    }

    pub fn get_mut(&mut self, i: usize) -> (r: &mut V)
        requires
            i < old(self)@.len(),
        ensures
            r@ == old(self)@[i as int].1,
            final(self)@ == old(self)@.update(
                i as int,
                (old(self)@[i as int].0, final(r)@),
            ),
    {
        assert(self.entries@.len() == self@.len());
        &mut self.entries[i].1
    }

    pub fn insert(&mut self, k: String, v: V)
        ensures
            final(self)@ == put(old(self)@, k@, v@),
    {
        let i = self.place(k.as_str());
        let ghost before = self@;
        if i < self.entries.len() {
            let ghost key = k@;
            self.entries.set(i, (k, v));
            assert(self@ =~= before.update(i as int, (key, v@)));
        } else {
            self.entries.push((k, v));
            assert(self@ =~= before.push((k@, v@)));
        }
    }

    pub fn remove(&mut self, k: &str)
        ensures
            final(self)@ == without(old(self)@, k@),
    {
        let mut kept: Vec<(String, V)> = Vec::new();
        let mut rest: Vec<(String, V)> = Vec::new();
        std::mem::swap(&mut rest, &mut self.entries);
        let ghost m = old(self)@;
        let n = rest.len();
        let mut left: Vec<(String, V)> = Vec::new();
        // Turn the order round, so that the pairs leave from the end.
        while rest.len() > 0
            invariant
                rest@.len() + left@.len() == n,
                forall|j: int| 0 <= j < rest@.len() ==> (rest@[j].0@, rest@[j].1@) == #[trigger] m[j],
                forall|j: int|
                    0 <= j < left@.len() ==> (#[trigger] left@[j].0@, left@[j].1@) == m[n - 1 - j],
                m.len() == n,
            decreases rest@.len(),
        {
            match rest.pop() {
                Some(e) => {
                    left.push(e);
                },
                None => {},
            }
        }
        let ghost view = |v: Seq<(String, V)>| v.map_values(|e: (String, V)| (e.0@, e.1@));
        assert(m.take(0) =~= Seq::empty());
        assert(view(kept@) =~= without(m.take(0), k@));
        while left.len() > 0
            invariant
                m.len() == n,
                left@.len() <= n,
                forall|j: int|
                    0 <= j < left@.len() ==> (#[trigger] left@[j].0@, left@[j].1@) == m[n - 1 - j],
                view == (|v: Seq<(String, V)>| v.map_values(|e: (String, V)| (e.0@, e.1@))),
                view(kept@) == without(m.take(n - left@.len()), k@),
            decreases left@.len(),
        {
            let ghost i = n - left@.len();
            let ghost t = m.take(i + 1);
            assert(t.drop_last() =~= m.take(i));
            assert(t.last() == m[i]);
            match left.pop() {
                Some(e) => {
                    assert((e.0@, e.1@) == m[i]);
                    if !same(e.0.as_str(), k) {
                        let ghost before = view(kept@);
                        kept.push(e);
                        assert(view(kept@) =~= before.push((e.0@, e.1@)));
                    }
                },
                None => {},
            }
        }
        assert(m.take(n as int) =~= m);
        self.entries = kept;
    }

    pub fn clear(&mut self)
        ensures
            final(self)@ == Seq::<(Seq<char>, V::V)>::empty(),
    {
        self.entries.clear();
        assert(self@ =~= Seq::empty());
    }
}

impl<V: Duplicate> Duplicate for StrMap<V> {
    fn duplicate(&self) -> (r: Self) {
        let mut out: Vec<(String, V)> = Vec::new();
        for i in 0..self.entries.len()
            invariant
                out@.len() == i,
                forall|j: int|
                    0 <= j < i ==> (#[trigger] out@[j]).0@ == self.entries@[j].0@ && out@[j].1@
                        == self.entries@[j].1@,
        {
            let k = self.entries[i].0.clone();
            let v = self.entries[i].1.duplicate();
            out.push((k, v));
        }
        let r = StrMap { entries: out };
        assert(r@ =~= self@);
        r
    }
}

} // verus!
