//! The open tabs and the sets that they belong to.
//!
//! A set is an identity with its own cookies. Each operation gives what is left to do
//! outside: which set's cookies to use, whether to load the homepage, which file to remove.

use vstd::prelude::*;
use crate::address::opt_text;
use crate::number::ints;
use crate::strmap::{lookup, StrMap};
use crate::tab::{fresh_tab, lemma_views_push, views, Tab, TabView};
use crate::text::{lowercase_of, same, starts, starts_with, trim, trimmed};

verus! {

broadcast use vstd::string::group_string_axioms;

pub struct Browser {
    pub tabs: Vec<Tab>,
    pub current_tab: usize,
    /// For each tab the set that it is in.
    pub tab_set: Vec<usize>,
    /// The names of the sets.
    pub sets: Vec<String>,
    pub current_set: usize,
    pub closed_tabs: Vec<Tab>,
    pub closed_tab_sets: Vec<usize>,
    pub running: bool,
}

pub struct BrowserView {
    pub tabs: Seq<TabView>,
    pub current_tab: int,
    pub tab_set: Seq<usize>,
    pub sets: Seq<Seq<char>>,
    pub current_set: int,
    pub closed_tabs: Seq<TabView>,
    pub closed_tab_sets: Seq<usize>,
    pub running: bool,
}

impl View for Browser {
    type V = BrowserView;

    open spec fn view(&self) -> BrowserView {
        BrowserView {
            tabs: views(self.tabs@),
            current_tab: self.current_tab as int,
            tab_set: self.tab_set@,
            sets: views(self.sets@),
            current_set: self.current_set as int,
            closed_tabs: views(self.closed_tabs@),
            closed_tab_sets: self.closed_tab_sets@,
            running: self.running,
        }
    }
}

/// Every tab, open or closed, has a set, one tab is current, and there is a set.
pub open spec fn well_formed(b: BrowserView) -> bool {
    &&& b.tabs.len() == b.tab_set.len()
    &&& 0 <= b.current_tab < b.tabs.len()
    &&& b.closed_tabs.len() == b.closed_tab_sets.len()
    &&& b.sets.len() > 0
}

// --- The tabs of a set ---

/// The positions among the first `n` tabs of those in `set`.
pub open spec fn members_to(tab_set: Seq<usize>, set: int, n: int) -> Seq<int>
    decreases n,
{
    if n <= 0 {
        Seq::empty()
    } else if tab_set[n - 1] == set {
        members_to(tab_set, set, n - 1).push(n - 1)
    } else {
        members_to(tab_set, set, n - 1)
    }
}

pub open spec fn members(tab_set: Seq<usize>, set: int) -> Seq<int> {
    members_to(tab_set, set, tab_set.len() as int)
}

pub open spec fn in_current_set(b: BrowserView) -> Seq<int> {
    members(b.tab_set, b.current_set)
}

/// The first place of `x` in `v`, or the length.
pub open spec fn place_of(v: Seq<int>, x: int, i: int) -> int
    decreases v.len() - i,
{
    if i < 0 || i >= v.len() {
        v.len() as int
    } else if v[i] == x {
        i
    } else {
        place_of(v, x, i + 1)
    }
}

proof fn lemma_place_of(v: Seq<int>, x: int, i: int)
    requires
        0 <= i <= v.len(),
    ensures
        i <= place_of(v, x, i) <= v.len(),
        place_of(v, x, i) < v.len() ==> v[place_of(v, x, i)] == x,
        place_of(v, x, i) == v.len() ==> forall|k: int| i <= k < v.len() ==> v[k] != x,
    decreases v.len() - i,
{
    if i < v.len() && v[i] != x {
        lemma_place_of(v, x, i + 1);
    }
}

/// The members of a set are exactly its tabs, in order.
pub proof fn lemma_members(tab_set: Seq<usize>, set: int, n: int)
    requires
        0 <= n <= tab_set.len(),
    ensures
        forall|k: int|
            0 <= k < members_to(tab_set, set, n).len() ==> 0 <= (#[trigger] members_to(
                tab_set,
                set,
                n,
            )[k]) < n && tab_set[members_to(tab_set, set, n)[k]] == set,
        forall|j: int, k: int|
            0 <= j < k < members_to(tab_set, set, n).len() ==> (#[trigger] members_to(
                tab_set,
                set,
                n,
            )[j]) < (#[trigger] members_to(tab_set, set, n)[k]),
        forall|i: int|
            0 <= i < n && (#[trigger] tab_set[i]) == set ==> members_to(tab_set, set, n).contains(
                i,
            ),
    decreases n,
{
    if n > 0 {
        lemma_members(tab_set, set, n - 1);
        let before = members_to(tab_set, set, n - 1);
        let after = members_to(tab_set, set, n);
        assert forall|i: int| 0 <= i < n && (#[trigger] tab_set[i]) == set implies after.contains(
            i,
        ) by {
            if i < n - 1 {
                assert(before.contains(i));
                let k = choose|k: int| 0 <= k < before.len() && before[k] == i;
                assert(after[k] == i);
            } else {
                assert(after[before.len() as int] == i);
            }
        }
    }
}

fn find_place(v: &Vec<usize>, x: usize) -> (r: usize)
    ensures
        r == place_of(ints(v@), x as int, 0),
        r <= v@.len(),
        r < v@.len() ==> v@[r as int] == x,
{
    let mut i: usize = 0;
    while i < v.len()
        invariant
            i <= v@.len(),
            place_of(ints(v@), x as int, i as int) == place_of(ints(v@), x as int, 0),
        decreases v@.len() - i,
    {
        if v[i] == x {
            return i;
        }
        i += 1;
    }
    i
}

// --- Steps from tab to tab ---

/// The position `by` places on from `pos` in a circle of `n`.
pub open spec fn around(pos: int, by: int, n: int) -> int {
    (pos + by) % n
}

/// The place of the current tab in its set, the first where it is in another.
pub open spec fn current_place(b: BrowserView) -> int {
    let m = in_current_set(b);
    let p = place_of(m, b.current_tab, 0);
    if p < m.len() {
        p
    } else {
        0
    }
}

/// The browser `by` tabs on within the current set.
pub open spec fn stepped(b: BrowserView, by: int) -> BrowserView {
    let m = in_current_set(b);
    if m.len() <= 1 {
        b
    } else {
        BrowserView {
            current_tab: m[around(current_place(b), by, m.len() as int)],
            ..b
        }
    }
}

pub open spec fn swapped<T>(s: Seq<T>, i: int, j: int) -> Seq<T> {
    s.update(i, s[j]).update(j, s[i])
}

/// The browser with the current tab `by` places on within the current set, in exchange
/// with the tab there.
pub open spec fn shifted(b: BrowserView, by: int) -> BrowserView {
    let m = in_current_set(b);
    let p = place_of(m, b.current_tab, 0);
    if m.len() <= 1 || p >= m.len() {
        b
    } else {
        let other = m[around(p, by, m.len() as int)];
        BrowserView {
            tabs: swapped(b.tabs, b.current_tab, other),
            tab_set: swapped(b.tab_set, b.current_tab, other),
            current_tab: other,
            ..b
        }
    }
}

pub proof fn lemma_around(pos: int, n: int)
    requires
        0 <= pos < n,
    ensures
        0 <= around(pos, 1, n) < n,
        around(around(pos, 1, n), n - 1, n) == pos,
        around(around(pos, n - 1, n), 1, n) == pos,
        0 <= around(pos, n - 1, n) < n,
        around(pos, -1, n) == around(pos, n - 1, n),
        pos + 1 < n ==> around(pos, 1, n) == pos + 1,
        pos + 1 == n ==> around(pos, 1, n) == 0,
        pos > 0 ==> around(pos, n - 1, n) == pos - 1,
        pos == 0 ==> around(pos, n - 1, n) == n - 1,
{
    assert(around(pos, 1, n) == if pos + 1 == n {
        0
    } else {
        pos + 1
    }) by (nonlinear_arith)
        requires
            0 <= pos < n,
            around(pos, 1, n) == (pos + 1) % n,
    ;
    assert(around(pos, n - 1, n) == if pos == 0 {
        n - 1
    } else {
        pos - 1
    }) by (nonlinear_arith)
        requires
            0 <= pos < n,
            around(pos, n - 1, n) == (pos + (n - 1)) % n,
    ;
    assert(around(pos, -1, n) == if pos == 0 {
        n - 1
    } else {
        pos - 1
    }) by (nonlinear_arith)
        requires
            0 <= pos < n,
            around(pos, -1, n) == (pos + (-1)) % n,
    ;
    let q = around(pos, 1, n);
    assert(around(q, n - 1, n) == if q == 0 {
        n - 1
    } else {
        q - 1
    }) by (nonlinear_arith)
        requires
            0 <= q < n,
            around(q, n - 1, n) == (q + (n - 1)) % n,
    ;
    let r = around(pos, n - 1, n);
    assert(around(r, 1, n) == if r + 1 == n {
        0
    } else {
        r + 1
    }) by (nonlinear_arith)
        requires
            0 <= r < n,
            around(r, 1, n) == (r + 1) % n,
    ;
}

pub proof fn lemma_place_is(v: Seq<int>, k: int)
    requires
        0 <= k < v.len(),
        forall|i: int, j: int| 0 <= i < j < v.len() ==> v[i] < v[j],
    ensures
        place_of(v, v[k], 0) == k,
{
    lemma_place_of(v, v[k], 0);
    let p = place_of(v, v[k], 0);
    if p < k {
        assert(v[p] < v[k]);
    }
    if k < p {
        if p < v.len() {
            assert(v[k] < v[p]);
        } else {
            assert(v[k] != v[k]);
        }
    }
}

/// From a tab of the current set, a step to the next tab and a step back lead to where
/// they began.
pub proof fn law_next_prev(b: BrowserView)
    requires
        well_formed(b),
        b.tab_set[b.current_tab] == b.current_set,
    ensures
        ({
            let n = in_current_set(b).len() as int;
            &&& stepped(stepped(b, 1), n - 1) == b
            &&& stepped(stepped(b, n - 1), 1) == b
        }),
{
    let m = in_current_set(b);
    let n = m.len() as int;
    lemma_members(b.tab_set, b.current_set, b.tab_set.len() as int);
    if n > 1 {
        assert(m.contains(b.current_tab));
        lemma_place_of(m, b.current_tab, 0);
        let p = place_of(m, b.current_tab, 0);
        lemma_around(p, n);
        lemma_place_is(m, around(p, 1, n));
        lemma_place_is(m, around(p, n - 1, n));
        let f = stepped(b, 1);
        let r = stepped(b, n - 1);
        assert(in_current_set(f) == m);
        assert(in_current_set(r) == m);
    }
}

/// Moving a tab to the right and back to the left leaves everything as it was.
pub proof fn law_move_back(b: BrowserView)
    requires
        well_formed(b),
        b.tab_set[b.current_tab] == b.current_set,
    ensures
        ({
            let n = in_current_set(b).len() as int;
            &&& shifted(shifted(b, 1), n - 1) == b
            &&& shifted(shifted(b, n - 1), 1) == b
        }),
{
    let m = in_current_set(b);
    let n = m.len() as int;
    lemma_members(b.tab_set, b.current_set, b.tab_set.len() as int);
    if n > 1 {
        assert(m.contains(b.current_tab));
        lemma_place_of(m, b.current_tab, 0);
        let p = place_of(m, b.current_tab, 0);
        lemma_around(p, n);
        let i = around(p, 1, n);
        let j = around(p, n - 1, n);
        lemma_place_is(m, i);
        lemma_place_is(m, j);
        assert(b.tab_set[m[i]] == b.current_set);
        assert(b.tab_set[m[j]] == b.current_set);
        let f = shifted(b, 1);
        assert(f.tab_set =~= b.tab_set);
        let r = shifted(b, n - 1);
        assert(r.tab_set =~= b.tab_set);
        assert(shifted(f, n - 1).tabs =~= b.tabs);
        assert(shifted(f, n - 1).tab_set =~= b.tab_set);
        assert(shifted(r, 1).tabs =~= b.tabs);
        assert(shifted(r, 1).tab_set =~= b.tab_set);
    }
}

// --- Closing and reopening ---

/// The browser without its current tab, before another becomes current.
pub open spec fn removed(b: BrowserView) -> BrowserView {
    BrowserView {
        tabs: b.tabs.remove(b.current_tab),
        tab_set: b.tab_set.remove(b.current_tab),
        closed_tabs: b.closed_tabs.push(b.tabs[b.current_tab]),
        closed_tab_sets: b.closed_tab_sets.push(b.tab_set[b.current_tab]),
        ..b
    }
}

/// The browser after its current tab was closed. The last tab takes the browser with it.
/// Else the first tab of the set becomes current; where the set has none left, the tab
/// that took the place, and its set with it.
pub open spec fn closed(b: BrowserView) -> BrowserView {
    if b.tabs.len() <= 1 {
        BrowserView { running: false, ..b }
    } else {
        let r = removed(b);
        let m = in_current_set(r);
        if m.len() > 0 {
            BrowserView { current_tab: m[0], ..r }
        } else {
            let i = if r.current_tab >= r.tabs.len() {
                r.tabs.len() - 1
            } else {
                r.current_tab
            };
            BrowserView { current_tab: i, current_set: r.tab_set[i] as int, ..r }
        }
    }
}

/// The browser after the tab that was closed last was opened again, behind the current
/// one.
pub open spec fn reopened(b: BrowserView) -> BrowserView {
    if b.closed_tabs.len() == 0 {
        b
    } else {
        let at = b.current_tab + 1;
        let set = b.closed_tab_sets.last();
        BrowserView {
            tabs: b.tabs.insert(at, b.closed_tabs.last()),
            tab_set: b.tab_set.insert(at, set),
            closed_tabs: b.closed_tabs.drop_last(),
            closed_tab_sets: b.closed_tab_sets.drop_last(),
            current_tab: at,
            current_set: set as int,
            ..b
        }
    }
}

/// A tab that was closed and reopened is current again, in the set it was in, and nothing
/// else was lost: the tabs are those from before.
pub proof fn law_undo_close(b: BrowserView)
    requires
        well_formed(b),
        b.tabs.len() > 1,
    ensures
        ({
            let u = reopened(closed(b));
            &&& u.tabs[u.current_tab] == b.tabs[b.current_tab]
            &&& u.tab_set[u.current_tab] == b.tab_set[b.current_tab]
            &&& u.current_set == b.tab_set[b.current_tab]
            &&& u.closed_tabs == b.closed_tabs
            &&& u.closed_tab_sets == b.closed_tab_sets
            &&& u.tabs.remove(u.current_tab) == b.tabs.remove(b.current_tab)
            &&& u.tab_set.remove(u.current_tab) == b.tab_set.remove(b.current_tab)
        }),
{
    let c = closed(b);
    let r = removed(b);
    lemma_members(r.tab_set, r.current_set, r.tab_set.len() as int);
    let u = reopened(c);
    assert(0 <= c.current_tab < c.tabs.len());
    assert(u.closed_tabs =~= b.closed_tabs);
    assert(u.closed_tab_sets =~= b.closed_tab_sets);
    assert(u.tabs.remove(u.current_tab) =~= c.tabs);
    assert(u.tab_set.remove(u.current_tab) =~= c.tab_set);
}

/// Closing, reopening, stepping and moving keep the browser well formed.
pub proof fn law_tabs_well_formed(b: BrowserView, by: int)
    requires
        well_formed(b),
    ensures
        well_formed(closed(b)),
        well_formed(reopened(b)),
        well_formed(stepped(b, by)),
        well_formed(shifted(b, by)),
{
    let m = in_current_set(b);
    let r = removed(b);
    lemma_members(b.tab_set, b.current_set, b.tab_set.len() as int);
    if b.tabs.len() > 1 {
        lemma_members(r.tab_set, r.current_set, r.tab_set.len() as int);
    }
    lemma_place_of(m, b.current_tab, 0);
    if m.len() > 1 {
        let n = m.len() as int;
        let p = current_place(b);
        assert(0 <= around(p, by, n) < n) by (nonlinear_arith)
            requires
                n > 1,
                around(p, by, n) == (p + by) % n,
        ;
        let q = place_of(m, b.current_tab, 0);
        assert(0 <= around(q, by, n) < n) by (nonlinear_arith)
            requires
                n > 1,
                around(q, by, n) == (q + by) % n,
        ;
    }
}

// --- Opening ---

/// The browser with a new tab in the current set, which is current.
pub open spec fn opened(b: BrowserView) -> BrowserView {
    BrowserView {
        tabs: b.tabs.push(fresh_tab("about:blank"@)),
        tab_set: b.tab_set.push(b.current_set as usize),
        current_tab: b.tabs.len() as int,
        ..b
    }
}

// --- Sets ---

/// The browser in `set`, at the set's first tab, or at a new one where it has none.
pub open spec fn entered(b: BrowserView, set: int) -> BrowserView {
    let s = BrowserView { current_set: set, ..b };
    let m = in_current_set(s);
    if m.len() > 0 {
        BrowserView { current_tab: m[0], ..s }
    } else {
        opened(s)
    }
}

/// What is left to do after the browser changed its set.
pub struct SetChange {
    /// The set that is current now.
    pub set: usize,
    /// Whether a tab was opened, in which the homepage is to be loaded.
    pub opened: bool,
}

/// The name that the user gave, where they gave one.
pub open spec fn given_name(answer: Seq<char>) -> Option<Seq<char>> {
    if trim(answer).len() > 0 {
        Some(trim(answer))
    } else {
        None
    }
}

/// The place of each tab's set after set `cut` was removed.
pub open spec fn renumbered(tab_set: Seq<usize>, cut: int) -> Seq<usize> {
    tab_set.map_values(
        |s: usize|
            if s > cut {
                (s - 1) as usize
            } else {
                s
            },
    )
}

/// Of the first `n` tabs those that are in another set than `set`.
pub open spec fn tabs_outside(tabs: Seq<TabView>, tab_set: Seq<usize>, set: int, n: int) -> Seq<
    TabView,
>
    decreases n,
{
    if n <= 0 {
        Seq::empty()
    } else if tab_set[n - 1] == set {
        tabs_outside(tabs, tab_set, set, n - 1)
    } else {
        tabs_outside(tabs, tab_set, set, n - 1).push(tabs[n - 1])
    }
}

/// Of the first `n` tabs' sets those that are another than `set`.
pub open spec fn sets_outside(tab_set: Seq<usize>, set: int, n: int) -> Seq<usize>
    decreases n,
{
    if n <= 0 {
        Seq::empty()
    } else if tab_set[n - 1] == set {
        sets_outside(tab_set, set, n - 1)
    } else {
        sets_outside(tab_set, set, n - 1).push(tab_set[n - 1])
    }
}

/// The browser without its current set and the tabs in it, in the set that took its
/// place, or in the last one.
pub open spec fn set_deleted(b: BrowserView) -> BrowserView {
    let cur = b.current_set;
    let n = b.tabs.len() as int;
    let sets = b.sets.remove(cur);
    let rest = BrowserView {
        tabs: tabs_outside(b.tabs, b.tab_set, cur, n),
        tab_set: renumbered(sets_outside(b.tab_set, cur, n), cur),
        sets,
        ..b
    };
    entered(
        rest,
        if cur < sets.len() {
            cur
        } else {
            sets.len() - 1
        },
    )
}

/// What came of a wish to delete a set.
pub enum Deletion {
    /// There is no other set.
    LastSet,
    /// The user did not confirm.
    Cancelled,
    /// The set is gone; its cookies are to be deleted once the change is made.
    Deleted { name: String, change: SetChange },
}

/// The first set whose name, in lower case, begins with `q`.
pub open spec fn set_with_prefix(lower: Seq<Seq<char>>, q: Seq<char>, i: int) -> Option<int>
    decreases lower.len() - i,
{
    if i < 0 || i >= lower.len() {
        None
    } else if starts(lower[i], q) {
        Some(i)
    } else {
        set_with_prefix(lower, q, i + 1)
    }
}

pub open spec fn lower_names(sets: Seq<Seq<char>>) -> Seq<Seq<char>> {
    sets.map_values(|s: Seq<char>| lowercase_of(s))
}

/// The set that the user named by its beginning, whatever the case.
pub open spec fn named_set(sets: Seq<Seq<char>>, answer: Seq<char>) -> Option<int> {
    let q = lowercase_of(trim(answer));
    if q.len() == 0 {
        None
    } else {
        set_with_prefix(lower_names(sets), q, 0)
    }
}

pub fn find_prefix(lower: &Vec<String>, q: &str) -> (r: Option<usize>)
    ensures
        match r {
            Some(i) => set_with_prefix(views(lower@), q@, 0) == Some(i as int) && i < lower@.len(),
            None => set_with_prefix(views(lower@), q@, 0) is None,
        },
{
    let ghost v = views(lower@);
    let mut i: usize = 0;
    while i < lower.len()
        invariant
            i <= lower@.len(),
            v == views(lower@),
            set_with_prefix(v, q@, i as int) == set_with_prefix(v, q@, 0),
        decreases lower@.len() - i,
    {
        assert(v[i as int] == lower@[i as int]@);
        if starts_with(lower[i].as_str(), q) {
            return Some(i);
        }
        i += 1;
    }
    None
}

pub proof fn lemma_outside(tabs: Seq<TabView>, tab_set: Seq<usize>, set: int, n: int)
    requires
        0 <= n <= tab_set.len(),
        tabs.len() == tab_set.len(),
    ensures
        tabs_outside(tabs, tab_set, set, n).len() == sets_outside(tab_set, set, n).len(),
        forall|k: int|
            0 <= k < sets_outside(tab_set, set, n).len() ==> (#[trigger] sets_outside(
                tab_set,
                set,
                n,
            )[k]) != set,
    decreases n,
{
    if n > 0 {
        lemma_outside(tabs, tab_set, set, n - 1);
    }
}

/// Entering a set keeps the browser well formed, and the current tab is in that set.
pub proof fn law_entered(b: BrowserView, set: int)
    requires
        b.tabs.len() == b.tab_set.len(),
        b.closed_tabs.len() == b.closed_tab_sets.len(),
        b.sets.len() > 0,
        0 <= set <= usize::MAX,
    ensures
        well_formed(entered(b, set)),
        ({
            let e = entered(b, set);
            &&& e.current_set == set
            &&& e.tab_set[e.current_tab] == set
        }),
{
    let s = BrowserView { current_set: set, ..b };
    lemma_members(s.tab_set, set, s.tab_set.len() as int);
}

/// Deleting a set leaves a well-formed browser with one set less and the tabs of the other
/// sets, and a new tab where the set that is entered had none; the current tab is in the
/// current set.
pub proof fn law_set_deleted(b: BrowserView)
    requires
        well_formed(b),
        b.sets.len() > 1,
        0 <= b.current_set < b.sets.len(),
        b.sets.len() <= usize::MAX,
    ensures
        ({
            let d = set_deleted(b);
            &&& well_formed(d)
            &&& d.sets == b.sets.remove(b.current_set)
            &&& 0 <= d.current_set < d.sets.len()
            &&& d.tab_set[d.current_tab] == d.current_set
            &&& ({
                let kept = tabs_outside(b.tabs, b.tab_set, b.current_set, b.tabs.len() as int);
                d.tabs == kept || d.tabs == kept.push(fresh_tab("about:blank"@))
            })
        }),
{
    let cur = b.current_set;
    let n = b.tabs.len() as int;
    lemma_outside(b.tabs, b.tab_set, cur, n);
    let sets = b.sets.remove(cur);
    let rest = BrowserView {
        tabs: tabs_outside(b.tabs, b.tab_set, cur, n),
        tab_set: renumbered(sets_outside(b.tab_set, cur, n), cur),
        sets,
        ..b
    };
    law_entered(
        rest,
        if cur < sets.len() {
            cur
        } else {
            sets.len() - 1
        },
    );
}

/// Going to the next set and back, or back and forth, leads to the same set.
pub proof fn law_sets_around(b: BrowserView)
    requires
        well_formed(b),
        0 <= b.current_set < b.sets.len(),
        b.sets.len() <= usize::MAX,
    ensures
        ({
            let n = b.sets.len() as int;
            let next = entered(b, around(b.current_set, 1, n));
            let prev = entered(b, around(b.current_set, n - 1, n));
            &&& entered(next, around(next.current_set, n - 1, n)).current_set == b.current_set
            &&& entered(prev, around(prev.current_set, 1, n)).current_set == b.current_set
        }),
{
    lemma_around(b.current_set, b.sets.len() as int);
}

impl Browser {
    /// A browser with one new tab in the first of some sets.
    pub fn new(sets: Vec<String>) -> (r: Self)
        requires
            sets@.len() > 0,
        ensures
            r@ == (BrowserView {
                tabs: seq![fresh_tab("about:blank"@)],
                current_tab: 0,
                tab_set: seq![0usize],
                sets: views(sets@),
                current_set: 0,
                closed_tabs: Seq::empty(),
                closed_tab_sets: Seq::empty(),
                running: true,
            }),
            well_formed(r@),
    {
        let mut tabs: Vec<Tab> = Vec::new();
        let tab = Tab::new("about:blank");
        tabs.push(tab);
        let mut tab_set: Vec<usize> = Vec::new();
        tab_set.push(0);
        let r = Browser {
            tabs,
            current_tab: 0,
            tab_set,
            sets,
            current_set: 0,
            closed_tabs: Vec::new(),
            closed_tab_sets: Vec::new(),
            running: true,
        };
        assert(r@.tabs =~= seq![fresh_tab("about:blank"@)]);
        assert(r@.tab_set =~= seq![0usize]);
        assert(r@.closed_tabs =~= Seq::empty());
        assert(r@.closed_tab_sets =~= Seq::empty());
        r
    }

    /// The tabs in the current set.
    pub fn tabs_in_current_set(&self) -> (r: Vec<usize>)
        requires
            well_formed(self@),
        ensures
            ints(r@) == in_current_set(self@),
            forall|k: int| 0 <= k < r@.len() ==> (#[trigger] r@[k]) < self@.tabs.len(),
    {
        let mut out: Vec<usize> = Vec::new();
        assert(ints(out@) =~= Seq::empty());
        for i in 0..self.tab_set.len()
            invariant
                ints(out@) == members_to(self.tab_set@, self.current_set as int, i as int),
                forall|k: int| 0 <= k < out@.len() ==> (#[trigger] out@[k]) < i,
        {
            if self.tab_set[i] == self.current_set {
                let ghost before = ints(out@);
                out.push(i);
                assert(ints(out@) =~= before.push(i as int));
            }
        }
        out
    }

    pub fn next_tab(&mut self)
        requires
            well_formed(old(self)@),
        ensures
            final(self)@ == stepped(old(self)@, 1),
            well_formed(final(self)@),
    {
        proof {
            law_tabs_well_formed(self@, 1);
        }
        let m = self.tabs_in_current_set();
        let n: usize = m.len();
        if n <= 1 {
            return;
        }
        let mut p = find_place(&m, self.current_tab);
        if p >= n {
            p = 0;
        }
        let q: usize = if p + 1 < n {
            p + 1
        } else {
            0
        };
        assert(q == around(p as int, 1, n as int)) by {
            lemma_next(p as int, n as int);
        }
        assert(ints(m@)[q as int] == m@[q as int]);
        self.current_tab = m[q];
    }

    pub fn prev_tab(&mut self)
        requires
            well_formed(old(self)@),
        ensures
            final(self)@ == stepped(old(self)@, in_current_set(old(self)@).len() - 1),
            well_formed(final(self)@),
    {
        proof {
            law_tabs_well_formed(self@, in_current_set(self@).len() - 1);
        }
        let m = self.tabs_in_current_set();
        let n: usize = m.len();
        if n <= 1 {
            return;
        }
        let mut p = find_place(&m, self.current_tab);
        if p >= n {
            p = 0;
        }
        let q: usize = if p == 0 {
            n - 1
        } else {
            p - 1
        };
        assert(q == around(p as int, n - 1, n as int)) by {
            lemma_next(p as int, n as int);
        }
        assert(ints(m@)[q as int] == m@[q as int]);
        self.current_tab = m[q];
    }

    fn exchange(&mut self, other: usize)
        requires
            well_formed(old(self)@),
            other < old(self)@.tabs.len(),
        ensures
            final(self)@ == (BrowserView {
                tabs: swapped(old(self)@.tabs, old(self)@.current_tab, other as int),
                tab_set: swapped(old(self)@.tab_set, old(self)@.current_tab, other as int),
                current_tab: other as int,
                ..old(self)@
            }),
    {
        let ghost b = self@;
        let here: usize = self.current_tab;
        let here_set: usize = self.tab_set[here];
        let other_set: usize = self.tab_set[other];
        self.tab_set.set(here, other_set);
        self.tab_set.set(other, here_set);
        if here != other {
            let mut tab = Tab::new("");
            std::mem::swap(&mut self.tabs[here], &mut tab);
            std::mem::swap(&mut self.tabs[other], &mut tab);
            std::mem::swap(&mut self.tabs[here], &mut tab);
        }
        assert(views(self.tabs@) =~= swapped(b.tabs, here as int, other as int));
        self.current_tab = other;
    }

    /// Moves the current tab to the right within its set.
    pub fn move_tab_right(&mut self)
        requires
            well_formed(old(self)@),
        ensures
            final(self)@ == shifted(old(self)@, 1),
            well_formed(final(self)@),
    {
        proof {
            law_tabs_well_formed(self@, 1);
        }
        let m = self.tabs_in_current_set();
        let n: usize = m.len();
        if n <= 1 {
            return;
        }
        let p = find_place(&m, self.current_tab);
        if p >= n {
            return;
        }
        let q: usize = if p + 1 < n {
            p + 1
        } else {
            0
        };
        assert(q == around(p as int, 1, n as int)) by {
            lemma_next(p as int, n as int);
        }
        assert(ints(m@)[q as int] == m@[q as int]);
        self.exchange(m[q]);
    }

    /// Moves the current tab to the left within its set.
    pub fn move_tab_left(&mut self)
        requires
            well_formed(old(self)@),
        ensures
            final(self)@ == shifted(old(self)@, in_current_set(old(self)@).len() - 1),
            well_formed(final(self)@),
    {
        proof {
            law_tabs_well_formed(self@, in_current_set(self@).len() - 1);
        }
        let m = self.tabs_in_current_set();
        let n: usize = m.len();
        if n <= 1 {
            return;
        }
        let p = find_place(&m, self.current_tab);
        if p >= n {
            return;
        }
        let q: usize = if p == 0 {
            n - 1
        } else {
            p - 1
        };
        assert(q == around(p as int, n - 1, n as int)) by {
            lemma_next(p as int, n as int);
        }
        assert(ints(m@)[q as int] == m@[q as int]);
        self.exchange(m[q]);
    }

    /// Closes the current tab. Gives the set whose cookies are to be used, where the
    /// current set had no other tab.
    pub fn close_tab(&mut self) -> (r: Option<usize>)
        requires
            well_formed(old(self)@),
        ensures
            final(self)@ == closed(old(self)@),
            well_formed(final(self)@),
            r == (if old(self)@.tabs.len() > 1 && in_current_set(removed(old(self)@)).len() == 0 {
                Some(final(self)@.current_set as usize)
            } else {
                None
            }),
    {
        let ghost b = self@;
        proof {
            law_tabs_well_formed(b, 1);
        }
        if self.tabs.len() <= 1 {
            self.running = false;
            return None;
        }
        let tab = self.tabs.remove(self.current_tab);
        let set: usize = self.tab_set.remove(self.current_tab);
        proof {
            lemma_views_push(self.closed_tabs@, tab);
        }
        self.closed_tabs.push(tab);
        self.closed_tab_sets.push(set);
        assert(views(self.tabs@) =~= b.tabs.remove(b.current_tab));
        assert(self@ == removed(b));
        let mut first: Option<usize> = None;
        let mut i: usize = 0;
        while i < self.tab_set.len() && first.is_none()
            invariant
                i <= self.tab_set@.len(),
                match first {
                    Some(k) => k < i && members_to(
                        self.tab_set@,
                        self.current_set as int,
                        i as int,
                    ).len() > 0 && members_to(
                        self.tab_set@,
                        self.current_set as int,
                        i as int,
                    )[0] == k,
                    None => members_to(self.tab_set@, self.current_set as int, i as int).len() == 0,
                },
            decreases self.tab_set@.len() - i,
        {
            if self.tab_set[i] == self.current_set {
                first = Some(i);
            }
            i += 1;
        }
        match first {
            Some(k) => {
                proof {
                    lemma_first_member(
                        self.tab_set@,
                        self.current_set as int,
                        i as int,
                        self.tab_set@.len() as int,
                    );
                }
                self.current_tab = k;
                None
            },
            None => {
                if self.current_tab >= self.tabs.len() {
                    self.current_tab = self.tabs.len() - 1;
                }
                self.current_set = self.tab_set[self.current_tab];
                Some(self.current_set)
            },
        }
    }

    /// Opens the tab again that was closed last. Gives the set whose cookies are to be
    /// used.
    pub fn undo_close_tab(&mut self) -> (r: Option<usize>)
        requires
            well_formed(old(self)@),
        ensures
            final(self)@ == reopened(old(self)@),
            well_formed(final(self)@),
            r == (if old(self)@.closed_tabs.len() > 0 {
                Some(final(self)@.current_set as usize)
            } else {
                None
            }),
    {
        let ghost b = self@;
        proof {
            law_tabs_well_formed(b, 1);
        }
        match self.closed_tabs.pop() {
            Some(tab) => {
                let set: usize = match self.closed_tab_sets.pop() {
                    Some(s) => s,
                    None => self.current_set,
                };
                assert(b.closed_tabs.last() == tab@);
                assert(views(self.closed_tabs@) =~= b.closed_tabs.drop_last());
                assert(self.closed_tab_sets@ =~= b.closed_tab_sets.drop_last());
                let n: usize = self.tabs.len();
                let at: usize = self.current_tab + 1;
                self.tabs.insert(at, tab);
                self.tab_set.insert(at, set);
                assert(views(self.tabs@) =~= b.tabs.insert(at as int, tab@));
                self.current_tab = at;
                self.current_set = set;
                Some(set)
            },
            None => {
                assert(views(self.closed_tabs@) =~= b.closed_tabs);
                None
            },
        }
    }

    /// Opens a tab in the current set.
    pub fn open_tab(&mut self)
        requires
            well_formed(old(self)@),
        ensures
            final(self)@ == opened(old(self)@),
            well_formed(final(self)@),
    {
        self.push_tab();
    }

    fn push_tab(&mut self)
        requires
            old(self)@.tabs.len() == old(self)@.tab_set.len(),
        ensures
            final(self)@ == opened(old(self)@),
    {
        let tab = Tab::new("about:blank");
        proof {
            lemma_views_push(self.tabs@, tab);
        }
        let n: usize = self.tabs.len();
        self.tabs.push(tab);
        self.tab_set.push(self.current_set);
        self.current_tab = n;
    }

    fn enter_set(&mut self, set: usize) -> (r: SetChange)
        requires
            old(self)@.tabs.len() == old(self)@.tab_set.len(),
            old(self)@.closed_tabs.len() == old(self)@.closed_tab_sets.len(),
            old(self)@.sets.len() > 0,
        ensures
            final(self)@ == entered(old(self)@, set as int),
            well_formed(final(self)@),
            r.set == set,
            r.opened == (members(old(self)@.tab_set, set as int).len() == 0),
    {
        proof {
            law_entered(self@, set as int);
        }
        self.current_set = set;
        let ghost all = members(self.tab_set@, set as int);
        let mut i: usize = 0;
        while i < self.tab_set.len()
            invariant
                i <= self.tab_set@.len(),
                set == self.current_set,
                all == members(self.tab_set@, set as int),
                members_to(self.tab_set@, set as int, i as int).len() == 0,
                self@ == (BrowserView { current_set: set as int, ..old(self)@ }),
                entered(old(self)@, set as int) == (if all.len() > 0 {
                    BrowserView { current_tab: all[0], ..self@ }
                } else {
                    opened(self@)
                }),
                well_formed(entered(old(self)@, set as int)),
                old(self)@.tabs.len() == old(self)@.tab_set.len(),
            decreases self.tab_set@.len() - i,
        {
            if self.tab_set[i] == set {
                proof {
                    lemma_first_member(
                        self.tab_set@,
                        set as int,
                        i + 1,
                        self.tab_set@.len() as int,
                    );
                }
                self.current_tab = i;
                return SetChange { set, opened: false };
            }
            i += 1;
        }
        self.push_tab();
        SetChange { set, opened: true }
    }

    /// Goes to the next set.
    pub fn next_set(&mut self) -> (r: SetChange)
        requires
            well_formed(old(self)@),
            old(self)@.current_set < usize::MAX,
        ensures
            final(self)@ == entered(
                old(self)@,
                around(old(self)@.current_set, 1, old(self)@.sets.len() as int),
            ),
            well_formed(final(self)@),
            r.set == final(self)@.current_set,
            r.opened == (members(old(self)@.tab_set, final(self)@.current_set).len() == 0),
    {
        let n: usize = self.sets.len();
        self.enter_set((self.current_set + 1) % n)
    }

    /// Goes to the set before the current one.
    pub fn prev_set(&mut self) -> (r: SetChange)
        requires
            well_formed(old(self)@),
            old(self)@.current_set + old(self)@.sets.len() <= usize::MAX,
        ensures
            final(self)@ == entered(
                old(self)@,
                around(
                    old(self)@.current_set,
                    old(self)@.sets.len() - 1,
                    old(self)@.sets.len() as int,
                ),
            ),
            well_formed(final(self)@),
            r.set == final(self)@.current_set,
            r.opened == (members(old(self)@.tab_set, final(self)@.current_set).len() == 0),
    {
        let n: usize = self.sets.len();
        self.enter_set((self.current_set + n - 1) % n)
    }

    /// Gives the current set another name, where the user gave one. Gives the old and the
    /// new name.
    pub fn rename_set(&mut self, answer: &str) -> (r: Option<(String, String)>)
        requires
            well_formed(old(self)@),
            old(self)@.current_set < old(self)@.sets.len(),
        ensures
            ({
                let cur = old(self)@.sets[old(self)@.current_set];
                match given_name(answer@) {
                    Some(name) => if name != cur {
                        &&& final(self)@ == (BrowserView {
                            sets: old(self)@.sets.update(old(self)@.current_set, name),
                            ..old(self)@
                        })
                        &&& r matches Some((a, b)) && a@ == cur && b@ == name
                    } else {
                        final(self)@ == old(self)@ && r is None
                    },
                    None => final(self)@ == old(self)@ && r is None,
                }
            }),
            well_formed(final(self)@),
    {
        let ghost b = self@;
        let name = trimmed(answer);
        let cur = self.sets[self.current_set].clone();
        if name.as_str().is_empty() || same(name.as_str(), cur.as_str()) {
            return None;
        }
        self.sets.set(self.current_set, name.clone());
        assert(views(self.sets@) =~= b.sets.update(b.current_set, name@));
        Some((cur, name))
    }

    /// Makes a new set, where the user gave a name, and opens a tab in it.
    pub fn new_set(&mut self, answer: &str) -> (r: Option<usize>)
        requires
            well_formed(old(self)@),
        ensures
            match given_name(answer@) {
                Some(name) => {
                    let s = BrowserView {
                        sets: old(self)@.sets.push(name),
                        current_set: old(self)@.sets.len() as int,
                        ..old(self)@
                    };
                    final(self)@ == opened(s) && r == Some(old(self)@.sets.len() as usize)
                },
                None => final(self)@ == old(self)@ && r is None,
            },
            well_formed(final(self)@),
    {
        let name = trimmed(answer);
        if name.as_str().is_empty() {
            return None;
        }
        let n: usize = self.sets.len();
        proof {
            lemma_views_push(self.sets@, name);
        }
        self.sets.push(name);
        self.current_set = n;
        self.push_tab();
        Some(n)
    }

    fn drop_set_tabs(&mut self, cut: usize)
        requires
            old(self)@.tabs.len() == old(self)@.tab_set.len(),
        ensures
            final(self)@ == (BrowserView {
                tabs: tabs_outside(
                    old(self)@.tabs,
                    old(self)@.tab_set,
                    cut as int,
                    old(self)@.tabs.len() as int,
                ),
                tab_set: renumbered(
                    sets_outside(old(self)@.tab_set, cut as int, old(self)@.tabs.len() as int),
                    cut as int,
                ),
                ..old(self)@
            }),
    {
        let ghost b = self@;
        let ghost cur = cut as int;
        let n: usize = self.tabs.len();
        let mut reversed: Vec<Tab> = Vec::new();
        while self.tabs.len() > 0
            invariant
                self.tabs@.len() + reversed@.len() == n,
                n == b.tabs.len(),
                forall|j: int| 0 <= j < self.tabs@.len() ==> (#[trigger] self.tabs@[j])@ == b.tabs[j],
                forall|j: int|
                    0 <= j < reversed@.len() ==> (#[trigger] reversed@[j])@ == b.tabs[n - 1 - j],
                self@ == (BrowserView { tabs: self@.tabs, ..b }),
            decreases self.tabs@.len(),
        {
            match self.tabs.pop() {
                Some(tab) => {
                    reversed.push(tab);
                },
                None => {},
            }
        }
        let mut tab_set: Vec<usize> = Vec::new();
        let mut i: usize = 0;
        assert(views(self.tabs@) =~= Seq::empty());
        assert(tab_set@ =~= renumbered(sets_outside(b.tab_set, cur, 0), cur));
        while i < n
            invariant
                i <= n,
                n == b.tabs.len(),
                n == b.tab_set.len(),
                cur == cut,
                reversed@.len() == n - i,
                forall|j: int|
                    0 <= j < reversed@.len() ==> (#[trigger] reversed@[j])@ == b.tabs[n - 1 - j],
                self@ == (BrowserView { tabs: tabs_outside(b.tabs, b.tab_set, cur, i as int), ..b }),
                tab_set@ == renumbered(sets_outside(b.tab_set, cur, i as int), cur),
            decreases n - i,
        {
            let set: usize = self.tab_set[i];
            match reversed.pop() {
                Some(tab) => {
                    assert(tab@ == b.tabs[i as int]);
                    if set != cut {
                        proof {
                            lemma_views_push(self.tabs@, tab);
                        }
                        self.tabs.push(tab);
                        let ghost before = sets_outside(b.tab_set, cur, i as int);
                        let ghost next = renumbered(before.push(set), cur);
                        if set > cut {
                            tab_set.push(set - 1);
                        } else {
                            tab_set.push(set);
                        }
                        assert(tab_set@ =~= next);
                    }
                },
                None => {},
            }
            i += 1;
        }
        self.tab_set = tab_set;
    }

    /// Deletes the current set and the tabs in it, where there is another and the user
    /// answered exactly `yes`.
    pub fn delete_current_set(&mut self, answer: &str) -> (r: Deletion)
        requires
            well_formed(old(self)@),
            old(self)@.current_set < old(self)@.sets.len(),
        ensures
            ({
                let b = old(self)@;
                if b.sets.len() <= 1 {
                    final(self)@ == b && r is LastSet
                } else if answer@ != "yes"@ {
                    final(self)@ == b && r is Cancelled
                } else {
                    &&& final(self)@ == set_deleted(b)
                    &&& r matches Deletion::Deleted { name, change } && name@
                        == b.sets[b.current_set] && change.set == final(self)@.current_set
                        && change.opened == (final(self)@.tabs.len() > tabs_outside(
                        b.tabs,
                        b.tab_set,
                        b.current_set,
                        b.tabs.len() as int,
                    ).len())
                }
            }),
            well_formed(final(self)@),
    {
        let ghost b = self@;
        let n: usize = self.sets.len();
        if n <= 1 {
            return Deletion::LastSet;
        }
        if !same(answer, "yes") {
            return Deletion::Cancelled;
        }
        proof {
            law_set_deleted(b);
        }
        let cut: usize = self.current_set;
        self.drop_set_tabs(cut);
        let ghost rest = self@;
        proof {
            lemma_outside(b.tabs, b.tab_set, cut as int, b.tabs.len() as int);
        }
        let name = self.sets.remove(cut);
        assert(views(self.sets@) =~= b.sets.remove(cut as int));
        let target: usize = if cut < n - 1 {
            cut
        } else {
            n - 2
        };
        let change = self.enter_set(target);
        Deletion::Deleted { name, change }
    }

    /// Moves the current tab to the set that the user named by its beginning.
    pub fn move_tab_to_set(&mut self, answer: &str) -> (r: Option<usize>)
        requires
            well_formed(old(self)@),
        ensures
            match named_set(old(self)@.sets, answer@) {
                Some(t) => {
                    &&& final(self)@ == (BrowserView {
                        tab_set: old(self)@.tab_set.update(old(self)@.current_tab, t as usize),
                        current_set: t,
                        ..old(self)@
                    })
                    &&& r == Some(t as usize)
                },
                None => final(self)@ == old(self)@ && r is None,
            },
            well_formed(final(self)@),
    {
        let q = trimmed(answer).as_str().to_lowercase();
        if q.as_str().is_empty() {
            return None;
        }
        let mut lower: Vec<String> = Vec::new();
        for i in 0..self.sets.len()
            invariant
                lower@.len() == i,
                forall|j: int|
                    0 <= j < i ==> (#[trigger] lower@[j])@ == lowercase_of(self.sets@[j]@),
        {
            lower.push(self.sets[i].as_str().to_lowercase());
        }
        assert(views(lower@) =~= lower_names(self@.sets));
        match find_prefix(&lower, q.as_str()) {
            Some(t) => {
                self.tab_set.set(self.current_tab, t);
                self.current_set = t;
                Some(t)
            },
            None => None,
        }
    }

    /// Whose cookies to use in a set: its name, and the Firefox profile to take cookies
    /// from, where one is given for it.
    pub fn activation(&self, set: usize, profiles: &StrMap<String>) -> (r: (
        Option<String>,
        Option<String>,
    ))
        ensures
            ({
                let name = if set < self@.sets.len() {
                    Some(self@.sets[set as int])
                } else {
                    None
                };
                &&& opt_text(r.0) == name
                &&& opt_text(r.1) == (match name {
                    Some(n) => match lookup(profiles@, n) {
                        Some(p) => if p.len() > 0 {
                            Some(p)
                        } else {
                            None
                        },
                        None => None,
                    },
                    None => None,
                })
            }),
    {
        if set >= self.sets.len() {
            return (None, None);
        }
        let name = self.sets[set].clone();
        let profile = match profiles.get(name.as_str()) {
            Some(p) => if p.as_str().is_empty() {
                None
            } else {
                Some(p.clone())
            },
            None => None,
        };
        (Some(name), profile)
    }
}

proof fn lemma_next(p: int, n: int)
    requires
        0 <= p < n,
    ensures
        around(p, 1, n) == if p + 1 < n {
            p + 1
        } else {
            0
        },
        around(p, n - 1, n) == if p == 0 {
            n - 1
        } else {
            p - 1
        },
{
    assert((p + 1) % n == if p + 1 < n {
        p + 1
    } else {
        0
    }) by (nonlinear_arith)
        requires
            0 <= p < n,
    ;
    assert((p + (n - 1)) % n == if p == 0 {
        n - 1
    } else {
        p - 1
    }) by (nonlinear_arith)
        requires
            0 <= p < n,
    ;
}

/// The first member stays the first as more tabs are looked at.
proof fn lemma_first_member(tab_set: Seq<usize>, set: int, i: int, n: int)
    requires
        0 <= i <= n <= tab_set.len(),
        members_to(tab_set, set, i).len() > 0,
    ensures
        members_to(tab_set, set, n).len() > 0,
        members_to(tab_set, set, n)[0] == members_to(tab_set, set, i)[0],
    decreases n - i,
{
    if i < n {
        lemma_first_member(tab_set, set, i, n - 1);
    }
}

} // verus!
