//! A run of a page's scripts, turn by turn: every script, then the listeners that hear of
//! the submit. An engine performs the turns; this module says which comes next.

use vstd::prelude::*;
use crate::config::opt_str;
use crate::cookies::{cookie_pair, CookieViews};
use crate::js::{
    chunk_pushed, cookie_written, ended, heard, item_removed, item_set, listened, logged,
    redirected, refused, script_error, started, storage_cleared, with_element, DomView,
    ElementView, JsState, StateView,
};
use crate::js_laws::{law_clean_cookies, law_clean_storage};
use crate::strmap::{distinct, law_put_distinct, law_without_distinct};
use crate::tab::views;

verus! {

broadcast use vstd::string::group_string_axioms;

// --- Turns ---

/// What is to be done next.
pub enum Turn {
    /// To evaluate the script with this number.
    Script(usize),
    /// To call the listener at this place among those that hear of the submit.
    Listener(Vec<usize>, usize),
    /// Nothing: the run is over.
    Finish,
}

pub enum TurnView {
    Script(int),
    Listener(Seq<usize>, int),
    Finish,
}

impl View for Turn {
    type V = TurnView;

    open spec fn view(&self) -> TurnView {
        match *self {
            Turn::Script(i) => TurnView::Script(i as int),
            Turn::Listener(calls, k) => TurnView::Listener(calls@, k as int),
            Turn::Finish => TurnView::Finish,
        }
    }
}

/// The turn of the `k`-th of the listeners `calls`, where there is one.
pub open spec fn listener_turn(calls: Seq<usize>, k: int) -> TurnView {
    if k < calls.len() {
        TurnView::Listener(calls, k)
    } else {
        TurnView::Finish
    }
}

/// The turn of script number `i` of `n`; behind the last one the listeners have theirs.
pub open spec fn script_turn(s: StateView, n: int, i: int) -> TurnView {
    if i < n {
        TurnView::Script(i)
    } else {
        listener_turn(heard(s), 0)
    }
}

/// The state and the next turn after `turn`, which may have failed: what a script or a
/// listener throws is logged, and the run goes on.
pub open spec fn turned(
    s: StateView,
    scripts: Seq<Seq<char>>,
    turn: TurnView,
    failure: Option<Seq<char>>,
) -> (StateView, TurnView) {
    match turn {
        TurnView::Script(i) if 0 <= i < scripts.len() => {
            let t = match failure {
                Some(e) => logged(s, "error"@, script_error(i, scripts[i], e)),
                None => s,
            };
            (t, script_turn(t, scripts.len() as int, i + 1))
        },
        TurnView::Listener(calls, k) if 0 <= k < calls.len() => {
            let t = match failure {
                Some(e) => logged(s, "error"@, "submit listener threw: "@ + e),
                None => s,
            };
            (t, listener_turn(calls, k + 1))
        },
        _ => (s, TurnView::Finish),
    }
}

fn turn_of_listener(calls: Vec<usize>, k: usize) -> (r: Turn)
    ensures
        r@ == listener_turn(calls@, k as int),
{
    if k < calls.len() {
        Turn::Listener(calls, k)
    } else {
        Turn::Finish
    }
}

impl JsState {
    fn turn_of_script(&self, n: usize, i: usize) -> (r: Turn)
        ensures
            r@ == script_turn(self@, n as int, i as int),
    {
        if i < n {
            Turn::Script(i)
        } else {
            turn_of_listener(self.submit_listeners(), 0)
        }
    }

    /// The turn with which a run of `scripts` begins.
    pub fn first_turn(&self, scripts: &Vec<String>) -> (r: Turn)
        ensures
            r@ == script_turn(self@, scripts@.len() as int, 0),
    {
        self.turn_of_script(scripts.len(), 0)
    }

    /// `turn` was performed, and threw `failure` if that is given. Gives the turn that comes
    /// next.
    pub fn next_turn(&mut self, turn: Turn, scripts: &Vec<String>, failure: Option<&str>) -> (r:
        Turn)
        ensures
            (final(self)@, r@) == turned(old(self)@, views(scripts@), turn@, opt_str(failure)),
    {
        match turn {
            Turn::Script(i) => {
                if i >= scripts.len() {
                    return Turn::Finish;
                }
                assert(views(scripts@)[i as int] == scripts@[i as int]@);
                if let Some(e) = failure {
                    self.script_failed(i, scripts[i].as_str(), e);
                }
                self.turn_of_script(scripts.len(), i + 1)
            },
            Turn::Listener(calls, k) => {
                if k >= calls.len() {
                    return Turn::Finish;
                }
                if let Some(e) = failure {
                    self.listener_failed(e);
                }
                turn_of_listener(calls, k + 1)
            },
            Turn::Finish => Turn::Finish,
        }
    }
}

// --- Whole runs ---

/// What a script or a listener can do to the state.
pub enum Call {
    Log(Seq<char>, Seq<char>),
    Redirect(Seq<char>),
    Cookie(Seq<char>),
    Edit(Seq<char>, ElementView),
    SetItem(bool, Seq<char>, Seq<char>),
    RemoveItem(bool, Seq<char>),
    Clear(bool),
    Listen(Seq<char>, Option<Seq<char>>, Option<usize>),
    Refuse,
    Push(Seq<char>),
}

pub open spec fn called(s: StateView, c: Call) -> StateView {
    match c {
        Call::Log(channel, msg) => logged(s, channel, msg),
        Call::Redirect(target) => redirected(s, target),
        Call::Cookie(raw) => cookie_written(s, raw),
        Call::Edit(id, e) => with_element(s, id, e),
        Call::SetItem(persistent, key, value) => item_set(s, persistent, key, value),
        Call::RemoveItem(persistent, key) => item_removed(s, persistent, key),
        Call::Clear(persistent) => storage_cleared(s, persistent),
        Call::Listen(target, event, callback) => listened(s, target, event, callback),
        Call::Refuse => refused(s),
        Call::Push(chunk) => chunk_pushed(s, chunk),
    }
}

pub open spec fn all_called(s: StateView, calls: Seq<Call>) -> StateView
    decreases calls.len(),
{
    if calls.len() == 0 {
        s
    } else {
        called(all_called(s, calls.drop_last()), calls.last())
    }
}

/// A turn as it was performed: the calls that it made, and what it threw.
pub struct Played {
    pub calls: Seq<Call>,
    pub failure: Option<Seq<char>>,
}

/// The state and the next turn after the first `k` turns of a run.
pub open spec fn run_to(
    start: StateView,
    scripts: Seq<Seq<char>>,
    played: Seq<Played>,
    k: int,
) -> (StateView, TurnView)
    decreases k,
{
    if k <= 0 {
        (start, script_turn(start, scripts.len() as int, 0))
    } else {
        let (s, turn) = run_to(start, scripts, played, k - 1);
        let p = played[k - 1];
        turned(all_called(s, p.calls), scripts, turn, p.failure)
    }
}

/// Every script has its turn, in order, whatever those before it did and whether or not
/// they threw.
pub proof fn law_every_script_runs(
    start: StateView,
    scripts: Seq<Seq<char>>,
    played: Seq<Played>,
    k: int,
)
    requires
        0 <= k < scripts.len(),
    ensures
        run_to(start, scripts, played, k).1 == TurnView::Script(k),
    decreases k,
{
    if k > 0 {
        law_every_script_runs(start, scripts, played, k - 1);
    }
}

/// What the `k`-th script throws is the last line of the log when the next turn comes.
pub proof fn law_failure_logged(
    start: StateView,
    scripts: Seq<Seq<char>>,
    played: Seq<Played>,
    k: int,
)
    requires
        0 <= k < scripts.len(),
    ensures
        ({
            let s = all_called(run_to(start, scripts, played, k).0, played[k].calls);
            run_to(start, scripts, played, k + 1).0 == (match played[k].failure {
                Some(e) => logged(s, "error"@, script_error(k, scripts[k], e)),
                None => s,
            })
        }),
{
    law_every_script_runs(start, scripts, played, k);
}

/// Behind the scripts each listener that hears of the submit has its turn, in the order in
/// which they came, and then the run is over.
pub proof fn law_listeners_follow(
    start: StateView,
    scripts: Seq<Seq<char>>,
    played: Seq<Played>,
    j: int,
)
    requires
        scripts.len() > 0,
        0 <= j,
    ensures
        ({
            let n = scripts.len() as int;
            let calls = heard(run_to(start, scripts, played, n).0);
            run_to(start, scripts, played, n + j).1 == listener_turn(calls, j)
        }),
    decreases j,
{
    let n = scripts.len() as int;
    if j == 0 {
        law_every_script_runs(start, scripts, played, n - 1);
    } else {
        law_listeners_follow(start, scripts, played, j - 1);
    }
}

/// What a state keeps of the one in which its run began.
pub open spec fn faithful(start: StateView, s: StateView) -> bool {
    &&& s.page_host == start.page_host
    &&& s.page_url == start.page_url
    &&& s.submit_dispatch_target == start.submit_dispatch_target
    &&& !s.cookies_dirty ==> s.cookies == start.cookies
    &&& !s.local_storage_dirty ==> s.local_storage == start.local_storage
    &&& s.submit_dispatch_target is None ==> !s.submit_prevented
}

proof fn lemma_call_faithful(start: StateView, s: StateView, c: Call)
    requires
        faithful(start, s),
    ensures
        faithful(start, called(s, c)),
{
    match c {
        Call::Cookie(raw) => {
            if cookie_pair(raw) is None {
                law_clean_cookies(s.cookies, raw);
            }
        },
        Call::RemoveItem(_, key) => law_clean_storage(s, key),
        Call::Clear(_) => law_clean_storage(s, Seq::empty()),
        _ => {},
    }
}

proof fn lemma_calls_faithful(start: StateView, s: StateView, calls: Seq<Call>)
    requires
        faithful(start, s),
    ensures
        faithful(start, all_called(s, calls)),
    decreases calls.len(),
{
    if calls.len() > 0 {
        lemma_calls_faithful(start, s, calls.drop_last());
        lemma_call_faithful(start, all_called(s, calls.drop_last()), calls.last());
    }
}

proof fn lemma_run_faithful(
    start: StateView,
    scripts: Seq<Seq<char>>,
    played: Seq<Played>,
    k: int,
)
    requires
        faithful(start, start),
    ensures
        faithful(start, run_to(start, scripts, played, k).0),
    decreases k,
{
    if k > 0 {
        lemma_run_faithful(start, scripts, played, k - 1);
        lemma_calls_faithful(
            start,
            run_to(start, scripts, played, k - 1).0,
            played[k - 1].calls,
        );
    }
}

/// The result of a run holds its scripts. Cookies and stored data that it does not call
/// changed are those that came in. Where no submit was asked for, none is refused.
pub proof fn law_run_result(
    dom: DomView,
    host: Seq<char>,
    page_url: Seq<char>,
    cookies: CookieViews,
    localstorage: CookieViews,
    values: CookieViews,
    form: Option<Seq<char>>,
    scripts: Seq<Seq<char>>,
    played: Seq<Played>,
    k: int,
)
    ensures
        ({
            let start = started(dom, host, page_url, cookies, localstorage, values, form);
            let r = ended(run_to(start, scripts, played, k).0, scripts);
            &&& r.scripts == scripts
            &&& !r.cookies_dirty ==> r.cookies == cookies
            &&& !r.localstorage_dirty ==> r.localstorage == localstorage
            &&& form is None ==> !r.submit_prevented
        }),
{
    let start = started(dom, host, page_url, cookies, localstorage, values, form);
    lemma_run_faithful(start, scripts, played, k);
}

proof fn lemma_calls_distinct(s: StateView, calls: Seq<Call>)
    requires
        distinct(s.local_storage),
    ensures
        distinct(all_called(s, calls).local_storage),
    decreases calls.len(),
{
    if calls.len() > 0 {
        let t = all_called(s, calls.drop_last());
        lemma_calls_distinct(s, calls.drop_last());
        match calls.last() {
            Call::SetItem(_, key, value) => law_put_distinct(t.local_storage, key, value),
            Call::RemoveItem(_, key) => law_without_distinct(t.local_storage, key),
            _ => {},
        }
    }
}

/// No key comes twice in the data that a run leaves stored, if none did before.
pub proof fn law_storage_distinct(
    start: StateView,
    scripts: Seq<Seq<char>>,
    played: Seq<Played>,
    k: int,
)
    requires
        distinct(start.local_storage),
    ensures
        distinct(run_to(start, scripts, played, k).0.local_storage),
    decreases k,
{
    if k > 0 {
        law_storage_distinct(start, scripts, played, k - 1);
        lemma_calls_distinct(
            run_to(start, scripts, played, k - 1).0,
            played[k - 1].calls,
        );
    }
}

/// Where no submit was asked for, no listener has a turn: behind the scripts the run is
/// over.
pub proof fn law_no_submit(start: StateView, scripts: Seq<Seq<char>>, played: Seq<Played>, k: int)
    requires
        faithful(start, start),
        start.submit_dispatch_target is None,
        scripts.len() > 0,
        k >= scripts.len(),
    ensures
        run_to(start, scripts, played, k).1 == TurnView::Finish,
{
    let n = scripts.len() as int;
    lemma_run_faithful(start, scripts, played, n);
    law_listeners_follow(start, scripts, played, k - n);
}

} // verus!
