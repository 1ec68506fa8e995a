//! What holds of tabs and sets of tabs.

use vstd::prelude::*;
use crate::browser::{
    around, closed, entered, in_current_set, lemma_around, lemma_members, lemma_outside,
    lemma_place_is, removed, renumbered, reopened, set_deleted, sets_outside, shifted, stepped,
    tabs_outside, well_formed, BrowserView,
};
use crate::tab::{fresh_tab, TabView};

verus! {

/// The tabs of the current set are exactly those that are in it, in their order.
pub proof fn law_tabs_of_set(b: BrowserView, i: int)
    requires
        well_formed(b),
    ensures
        in_current_set(b).contains(i) <==> 0 <= i < b.tabs.len() && b.tab_set[i] == b.current_set,
        forall|j: int, k: int|
            0 <= j < k < in_current_set(b).len() ==> (#[trigger] in_current_set(b)[j]) < (
            #[trigger] in_current_set(b)[k]),
{
    let m = in_current_set(b);
    lemma_members(b.tab_set, b.current_set, b.tab_set.len() as int);
    if m.contains(i) {
        let k = choose|k: int| 0 <= k < m.len() && m[k] == i;
        assert(b.tab_set[m[k]] == b.current_set);
    }
}

/// A step goes to the tab behind or before the current one in the current set, around its
/// end, and changes nothing else.
pub proof fn law_stepped(b: BrowserView, k: int)
    requires
        well_formed(b),
        0 <= k < in_current_set(b).len(),
        b.current_tab == in_current_set(b)[k],
        in_current_set(b).len() > 1,
    ensures
        ({
            let m = in_current_set(b);
            let n = m.len() as int;
            &&& k + 1 < n ==> stepped(b, 1) == (BrowserView { current_tab: m[k + 1], ..b })
            &&& k + 1 == n ==> stepped(b, 1) == (BrowserView { current_tab: m[0], ..b })
            &&& k > 0 ==> stepped(b, n - 1) == (BrowserView { current_tab: m[k - 1], ..b })
            &&& k == 0 ==> stepped(b, n - 1) == (BrowserView { current_tab: m[n - 1], ..b })
        }),
{
    let m = in_current_set(b);
    lemma_members(b.tab_set, b.current_set, b.tab_set.len() as int);
    lemma_place_is(m, k);
    lemma_around(k, m.len() as int);
}

/// Moving a tab exchanges it with the next one of its set, and it stays the current one; the
/// tabs of other sets stay where they are.
pub proof fn law_shifted(b: BrowserView, k: int, i: int)
    requires
        well_formed(b),
        0 <= k < in_current_set(b).len() - 1,
        b.current_tab == in_current_set(b)[k],
        0 <= i < b.tabs.len(),
    ensures
        ({
            let m = in_current_set(b);
            let s = shifted(b, 1);
            &&& s.current_tab == m[k + 1]
            &&& s.tabs[s.current_tab] == b.tabs[b.current_tab]
            &&& s.tabs[b.current_tab] == b.tabs[m[k + 1]]
            &&& i != m[k] && i != m[k + 1] ==> s.tabs[i] == b.tabs[i]
            &&& s.tab_set =~= b.tab_set
        }),
{
    let m = in_current_set(b);
    lemma_members(b.tab_set, b.current_set, b.tab_set.len() as int);
    lemma_place_is(m, k);
    lemma_around(k, m.len() as int);
}

/// Closing a tab takes it away and remembers it. The first tab that is left of its set is
/// then current; where none is left, another tab, and its set with it. Closing the only tab
/// ends the browser.
pub proof fn law_closed(b: BrowserView)
    requires
        well_formed(b),
    ensures
        ({
            let c = closed(b);
            let rest = in_current_set(removed(b));
            &&& b.tabs.len() == 1 ==> !c.running
            &&& b.tabs.len() > 1 ==> {
                &&& c.running == b.running
                &&& c.tabs == b.tabs.remove(b.current_tab)
                &&& c.tab_set == b.tab_set.remove(b.current_tab)
                &&& c.closed_tabs == b.closed_tabs.push(b.tabs[b.current_tab])
                &&& c.closed_tab_sets == b.closed_tab_sets.push(b.tab_set[b.current_tab])
                &&& c.sets == b.sets
                &&& rest.len() > 0 ==> c.current_tab == rest[0] && c.current_set == b.current_set
                &&& rest.len() == 0 ==> c.current_set == c.tab_set[c.current_tab]
            }
        }),
{
}

/// The tab that was closed last comes back behind the current one and is current, in the
/// set that it was in.
pub proof fn law_reopened(b: BrowserView)
    requires
        well_formed(b),
        b.closed_tabs.len() > 0,
    ensures
        ({
            let r = reopened(b);
            &&& r.current_tab == b.current_tab + 1
            &&& r.tabs[r.current_tab] == b.closed_tabs.last()
            &&& r.tab_set[r.current_tab] == b.closed_tab_sets.last()
            &&& r.current_set == b.closed_tab_sets.last()
            &&& r.closed_tabs == b.closed_tabs.drop_last()
            &&& r.tabs.len() == b.tabs.len() + 1
        }),
{
}

/// A set that is entered shows its first tab, or a new one where it has none.
pub proof fn law_set_entered(b: BrowserView, set: int, i: int)
    requires
        well_formed(b),
        0 <= set <= usize::MAX,
        0 <= i < b.tabs.len(),
    ensures
        ({
            let e = entered(b, set);
            &&& e.current_set == set
            &&& (b.tab_set[i] == set && forall|j: int|
                0 <= j < i ==> #[trigger] b.tab_set[j] != set) ==> e.current_tab == i && e.tabs
                == b.tabs
            &&& (forall|j: int| 0 <= j < b.tabs.len() ==> #[trigger] b.tab_set[j] != set) ==> e.tabs
                == b.tabs.push(fresh_tab("about:blank"@)) && e.current_tab == b.tabs.len()
                && e.tab_set.last() == set
        }),
{
    let s = BrowserView { current_set: set, ..b };
    let m = in_current_set(s);
    lemma_members(s.tab_set, set, s.tab_set.len() as int);
    if b.tab_set[i] == set && (forall|j: int| 0 <= j < i ==> #[trigger] b.tab_set[j] != set) {
        assert(m.contains(i));
        let k = choose|k: int| 0 <= k < m.len() && m[k] == i;
        assert(b.tab_set[m[0]] == set);
        if k > 0 {
            assert(m[0] < m[k]);
        }
    }
    if forall|j: int| 0 <= j < b.tabs.len() ==> #[trigger] b.tab_set[j] != set {
        if m.len() > 0 {
            assert(b.tab_set[m[0]] == set);
        }
    }
}

proof fn lemma_outside_kept(
    tabs: Seq<TabView>,
    tab_set: Seq<usize>,
    set: int,
    n: int,
    i: int,
) -> (k: int)
    requires
        0 <= i < n <= tab_set.len(),
        tabs.len() == tab_set.len(),
        tab_set[i] != set,
    ensures
        0 <= k < tabs_outside(tabs, tab_set, set, n).len(),
        k < sets_outside(tab_set, set, n).len(),
        tabs_outside(tabs, tab_set, set, n)[k] == tabs[i],
        sets_outside(tab_set, set, n)[k] == tab_set[i],
    decreases n,
{
    lemma_outside(tabs, tab_set, set, n - 1);
    if i == n - 1 {
        tabs_outside(tabs, tab_set, set, n - 1).len() as int
    } else {
        lemma_outside_kept(tabs, tab_set, set, n - 1, i)
    }
}

/// Deleting a set leaves every tab of another set in its set: the one of the same name.
pub proof fn law_others_stay(b: BrowserView, i: int)
    requires
        well_formed(b),
        b.sets.len() > 1,
        0 <= b.current_set < b.sets.len() <= usize::MAX,
        0 <= i < b.tabs.len(),
        b.tab_set[i] != b.current_set,
        b.tab_set[i] < b.sets.len(),
    ensures
        ({
            let d = set_deleted(b);
            exists|k: int|
                0 <= k < d.tabs.len() && k < d.tab_set.len() && #[trigger] d.tabs[k] == b.tabs[i]
                    && d.tab_set[k] < d.sets.len() && d.sets[d.tab_set[k] as int]
                    == b.sets[b.tab_set[i] as int]
        }),
{
    let cur = b.current_set;
    let n = b.tabs.len() as int;
    let d = set_deleted(b);
    let k = lemma_outside_kept(b.tabs, b.tab_set, cur, n, i);
    let kept = sets_outside(b.tab_set, cur, n);
    let again = renumbered(kept, cur);
    lemma_outside(b.tabs, b.tab_set, cur, n);
    crate::browser::law_set_deleted(b);
    assert(again[k] == (if kept[k] > cur {
        (kept[k] - 1) as usize
    } else {
        kept[k]
    }));
    assert(d.tabs[k] == b.tabs[i]);
    assert(d.tab_set[k] == again[k]);
    let s = b.tab_set[i] as int;
    assert(b.sets.remove(cur)[again[k] as int] == b.sets[s]);
}

} // verus!
