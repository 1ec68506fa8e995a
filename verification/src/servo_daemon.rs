//! Talking to the helper that renders pages with a full engine.
//!
//! Commands and replies are lines of JSON. A command is tried twice: what fails on a
//! connection that went stale is tried once more on a new one.

use vstd::prelude::*;
use crate::address::opt_text;
use crate::config::opt_str;
use crate::json::{
    find_leaf, json_at, json_quoted, law_quoted_line, quote_json, JsonLeaf, LeafView,
};
use crate::text::{chars_of, concat, concat3, part_string, same};

verus! {

broadcast use vstd::string::group_string_axioms;

// --- Where the helper is ---

pub open spec fn home_or_tmp(home: Option<Seq<char>>) -> Seq<char> {
    match home {
        Some(h) => h,
        None => "/tmp"@,
    }
}

/// The connection to the helper.
pub struct DaemonClient {
    pub socket_path: String,
    pub connected: bool,
}

/// The file to which the helper writes its messages.
pub fn log_path(home: Option<&str>) -> (r: String)
    ensures
        r@ == home_or_tmp(opt_str(home)) + "/.scroll/servo-daemon.log"@,
{
    match home {
        Some(h) => concat(h, "/.scroll/servo-daemon.log"),
        None => concat("/tmp", "/.scroll/servo-daemon.log"),
    }
}

/// The message for a helper that did not come up.
pub fn spawn_timeout(socket: &str, log: &str) -> (r: String)
    ensures
        r@ == "scroll-servo daemon didn't bind "@ + socket@ + " within 10s \u{2014} check "@ + log@,
{
    let mut r = concat3("scroll-servo daemon didn't bind ", socket, " within 10s \u{2014} check ");
    r.append(log);
    r
}

// --- A command's way ---

/// How far an attempt has come.
#[derive(Clone, Copy, PartialEq, Eq, Structural)]
pub enum Stage {
    Connecting,
    Writing,
    Reading,
}

/// A command on its way: whether this is the second attempt, and how far it has come.
#[derive(Clone, Copy, PartialEq, Eq, Structural)]
pub struct Sending {
    pub retry: bool,
    pub stage: Stage,
}

/// What came of a step, with the message of a failure.
pub enum StepResult {
    Done,
    Failed(String),
}

/// What is to be done next.
pub enum NextStep {
    /// Go on with the command at this place.
    Continue(Sending),
    /// Drop the connection and begin again.
    Restart(Sending),
    /// The reply has come.
    Finished,
    /// The command failed.
    GiveUp(String),
}

/// The message of a step that failed.
pub open spec fn failure(stage: Stage, e: Seq<char>) -> Seq<char> {
    match stage {
        Stage::Writing => "write: "@ + e,
        _ => e,
    }
}

pub open spec fn is_next(n: NextStep, s: Sending, ok: Option<Seq<char>>) -> bool {
    match ok {
        None => match s.stage {
            Stage::Connecting => n == NextStep::Continue(
                Sending { retry: s.retry, stage: Stage::Writing },
            ),
            Stage::Writing => n == NextStep::Continue(
                Sending { retry: s.retry, stage: Stage::Reading },
            ),
            Stage::Reading => n == NextStep::Finished,
        },
        Some(e) => if s.retry {
            n matches NextStep::GiveUp(msg) && msg@ == failure(s.stage, e)
        } else {
            n == NextStep::Restart(Sending { retry: true, stage: Stage::Connecting })
        },
    }
}

pub open spec fn step_error(r: StepResult) -> Option<Seq<char>> {
    match r {
        StepResult::Done => None,
        StepResult::Failed(e) => Some(e@),
    }
}

pub fn begin_sending() -> (r: Sending)
    ensures
        r == (Sending { retry: false, stage: Stage::Connecting }),
{
    Sending { retry: false, stage: Stage::Connecting }
}

/// The steps that a command has left at most.
pub open spec fn steps_left(s: Sending) -> nat {
    (if s.retry {
        0nat
    } else {
        3nat
    }) + (match s.stage {
        Stage::Connecting => 3nat,
        Stage::Writing => 2nat,
        Stage::Reading => 1nat,
    })
}

/// Every step brings a command nearer to its end: after six steps at most it is answered
/// or has failed, and it is tried again only once.
pub proof fn law_sending_ends(n: NextStep, s: Sending, ok: Option<Seq<char>>)
    requires
        is_next(n, s, ok),
    ensures
        steps_left(s) <= 6,
        n matches NextStep::Continue(t) ==> steps_left(t) < steps_left(s) && t.retry == s.retry,
        n matches NextStep::Restart(t) ==> steps_left(t) < steps_left(s) && !s.retry && t.retry,
        n is GiveUp ==> s.retry,
{
}

/// How a connection is had.
#[derive(Clone, Copy, PartialEq, Eq, Structural)]
pub enum Connect {
    /// It is there.
    Keep,
    /// Try the socket, and start the helper where that fails.
    TrySocket,
    /// Start the helper.
    Spawn,
}

/// How the helper is stopped.
#[derive(Clone, Copy, PartialEq, Eq, Structural)]
pub enum Shutdown {
    /// It is not running.
    Gone,
    /// Connect first; where that fails the socket is stale and is removed.
    TrySocket,
    /// Ask it to stop and read its answer.
    Ask,
}

// --- Commands ---

pub open spec fn cookies_text(jar: Seq<char>, url: Seq<char>) -> Seq<char> {
    "{\"cmd\":\"cookies\",\"for\":"@ + json_quoted(url) + ",\"jar\":"@ + json_quoted(jar) + "}"@
}

/// `a` and what is put behind it are one line.
fn put_behind(a: String, b: &str) -> (r: String)
    requires
        !a@.contains('\n'),
        !b@.contains('\n'),
    ensures
        r@ == a@ + b@,
        !r@.contains('\n'),
{
    let mut r = a;
    let ghost start = r@;
    r.append(b);
    assert forall|i: int| 0 <= i < r@.len() implies r@[i] != '\n' by {
        if i < start.len() {
            assert(start.contains(start[i]));
        } else {
            assert(b@.contains(b@[i - start.len()]));
        }
    }
    r
}

/// The command that has the helper take the cookies of a jar for the host of `for_url`. As
/// every command it is one line.
pub fn cookies_command(jar_path: &str, for_url: &str) -> (r: String)
    ensures
        r@ == cookies_text(jar_path@, for_url@),
        !r@.contains('\n'),
{
    proof {
        law_quoted_line(for_url@);
        law_quoted_line(jar_path@);
        reveal_strlit("{\"cmd\":\"cookies\",\"for\":");
        reveal_strlit(",\"jar\":");
        reveal_strlit("}");
    }
    let r = put_behind("{\"cmd\":\"cookies\",\"for\":".to_string(), quote_json(for_url).as_str());
    let r = put_behind(r, ",\"jar\":");
    let r = put_behind(r, quote_json(jar_path).as_str());
    put_behind(r, "}")
}

/// The command that has the helper load a page.
pub fn navigate_command(url: &str) -> (r: String)
    ensures
        r@ == "{\"cmd\":\"navigate\",\"url\":"@ + json_quoted(url@) + "}"@,
        !r@.contains('\n'),
{
    proof {
        law_quoted_line(url@);
        reveal_strlit("{\"cmd\":\"navigate\",\"url\":");
        reveal_strlit("}");
    }
    let r = put_behind("{\"cmd\":\"navigate\",\"url\":".to_string(), quote_json(url).as_str());
    put_behind(r, "}")
}

/// The command that has the helper type a text into an element.
pub fn type_command(selector: &str, text: &str) -> (r: String)
    ensures
        r@ == "{\"cmd\":\"type\",\"selector\":"@ + json_quoted(selector@) + ",\"text\":"@
            + json_quoted(text@) + "}"@,
        !r@.contains('\n'),
{
    proof {
        law_quoted_line(selector@);
        law_quoted_line(text@);
        reveal_strlit("{\"cmd\":\"type\",\"selector\":");
        reveal_strlit(",\"text\":");
        reveal_strlit("}");
    }
    let r = put_behind("{\"cmd\":\"type\",\"selector\":".to_string(), quote_json(selector).as_str());
    let r = put_behind(r, ",\"text\":");
    let r = put_behind(r, quote_json(text).as_str());
    put_behind(r, "}")
}

/// The command that has the helper click an element.
pub fn click_command(selector: &str) -> (r: String)
    ensures
        r@ == "{\"cmd\":\"click\",\"selector\":"@ + json_quoted(selector@) + "}"@,
        !r@.contains('\n'),
{
    proof {
        law_quoted_line(selector@);
        reveal_strlit("{\"cmd\":\"click\",\"selector\":");
        reveal_strlit("}");
    }
    let r = put_behind("{\"cmd\":\"click\",\"selector\":".to_string(), quote_json(selector).as_str());
    put_behind(r, "}")
}

/// The command that has the helper stop.
pub fn shutdown_command() -> (r: String)
    ensures
        r@ == "{\"cmd\":\"shutdown\"}"@,
{
    "{\"cmd\":\"shutdown\"}".to_string()
}

// --- Replies ---

/// `s` without the line feeds at its end.
pub open spec fn unended(s: Seq<char>) -> Seq<char>
    decreases s.len(),
{
    if s.len() > 0 && s.last() == '\n' {
        unended(s.drop_last())
    } else {
        s
    }
}

fn trim_newlines(s: &str) -> (r: String)
    ensures
        r@ == unended(s@),
{
    let c = chars_of(s);
    let mut n: usize = c.len();
    assert(c@.take(n as int) =~= c@);
    while n > 0 && c[n - 1] == '\n'
        invariant
            n <= c@.len(),
            c@ == s@,
            unended(c@.take(n as int)) == unended(s@),
        decreases n,
    {
        assert(c@.take(n as int).drop_last() =~= c@.take(n - 1));
        n -= 1;
    }
    let r = part_string(&c, 0, n);
    assert(r@ =~= c@.take(n as int));
    r
}

/// What the helper may say in a reply.
pub struct Reply {
    pub ok: Option<bool>,
    pub error: Option<String>,
    pub result: Option<String>,
    pub html: Option<String>,
    pub url: Option<String>,
    pub frames: Option<u64>,
    pub installed: Option<u64>,
    pub timed_out: Option<bool>,
}

pub struct ReplyView {
    pub ok: Option<bool>,
    pub error: Option<Seq<char>>,
    pub result: Option<Seq<char>>,
    pub html: Option<Seq<char>>,
    pub url: Option<Seq<char>>,
    pub frames: Option<u64>,
    pub installed: Option<u64>,
    pub timed_out: Option<bool>,
}

impl View for Reply {
    type V = ReplyView;

    open spec fn view(&self) -> ReplyView {
        ReplyView {
            ok: self.ok,
            error: opt_text(self.error),
            result: opt_text(self.result),
            html: opt_text(self.html),
            url: opt_text(self.url),
            frames: self.frames,
            installed: self.installed,
            timed_out: self.timed_out,
        }
    }
}

pub open spec fn text_leaf(l: Result<Option<LeafView>, Seq<char>>) -> Option<Seq<char>> {
    match l {
        Ok(Some(LeafView::Text(s))) => Some(s),
        _ => None,
    }
}

pub open spec fn bool_leaf(l: Result<Option<LeafView>, Seq<char>>) -> Option<bool> {
    match l {
        Ok(Some(LeafView::Bool(b))) => Some(b),
        _ => None,
    }
}

pub open spec fn count_leaf(l: Result<Option<LeafView>, Seq<char>>) -> Option<u64> {
    match l {
        Ok(Some(LeafView::Number(n))) => n,
        _ => None,
    }
}

fn get_text(line: &str, pointer: &str) -> (r: Option<String>)
    ensures
        opt_text(r) == text_leaf(json_at(line@, pointer@)),
{
    match find_leaf(line, pointer) {
        Ok(Some(JsonLeaf::Text(s))) => Some(s),
        _ => None,
    }
}

fn get_bool(line: &str, pointer: &str) -> (r: Option<bool>)
    ensures
        r == bool_leaf(json_at(line@, pointer@)),
{
    match find_leaf(line, pointer) {
        Ok(Some(JsonLeaf::Bool(b))) => Some(b),
        _ => None,
    }
}

fn get_count(line: &str, pointer: &str) -> (r: Option<u64>)
    ensures
        r == count_leaf(json_at(line@, pointer@)),
{
    match find_leaf(line, pointer) {
        Ok(Some(JsonLeaf::Number(n))) => n,
        _ => None,
    }
}

/// What a JSON document says as a reply.
pub open spec fn reply_in(doc: Seq<char>) -> ReplyView {
    ReplyView {
        ok: bool_leaf(json_at(doc, "/ok"@)),
        error: text_leaf(json_at(doc, "/error"@)),
        result: text_leaf(json_at(doc, "/result"@)),
        html: text_leaf(json_at(doc, "/html"@)),
        url: text_leaf(json_at(doc, "/url"@)),
        frames: count_leaf(json_at(doc, "/frames"@)),
        installed: count_leaf(json_at(doc, "/installed"@)),
        timed_out: bool_leaf(json_at(doc, "/timed_out"@)),
    }
}

/// The reply that a line holds. An empty line is the end of the connection.
pub open spec fn is_reply(r: Result<Reply, String>, line: Seq<char>) -> bool {
    let doc = unended(line);
    if line.len() == 0 {
        r matches Err(e) && e@ == "daemon closed connection"@
    } else {
        match json_at(doc, "/ok"@) {
            Ok(_) => r matches Ok(v) && v@ == reply_in(doc),
            Err(why) => r matches Err(e) && e@ == "bad json from daemon: "@ + why + " (line: "@
                + line + ")"@,
        }
    }
}

pub fn read_response(line: &str) -> (r: Result<Reply, String>)
    ensures
        is_reply(r, line@),
{
    if line.is_empty() {
        return Err("daemon closed connection".to_string());
    }
    let doc = trim_newlines(line);
    let doc = doc.as_str();
    if let Err(why) = find_leaf(doc, "/ok") {
        let mut msg = concat3("bad json from daemon: ", why.as_str(), " (line: ");
        msg.append(line);
        msg.append(")");
        return Err(msg);
    }
    Ok(
        Reply {
            ok: get_bool(doc, "/ok"),
            error: get_text(doc, "/error"),
            result: get_text(doc, "/result"),
            html: get_text(doc, "/html"),
            url: get_text(doc, "/url"),
            frames: get_count(doc, "/frames"),
            installed: get_count(doc, "/installed"),
            timed_out: get_bool(doc, "/timed_out"),
        },
    )
}

/// A page that the helper rendered.
#[derive(Debug)]
pub struct NavResult {
    pub html: String,
    pub url: String,
    pub frames: u64,
    /// Whether the page was still loading when the helper stopped waiting.
    pub timed_out: bool,
}

pub struct NavView {
    pub html: Seq<char>,
    pub url: Seq<char>,
    pub frames: u64,
    pub timed_out: bool,
}

impl View for NavResult {
    type V = NavView;

    open spec fn view(&self) -> NavView {
        NavView {
            html: self.html@,
            url: self.url@,
            frames: self.frames,
            timed_out: self.timed_out,
        }
    }
}

pub open spec fn text_or(s: Option<Seq<char>>, other: Seq<char>) -> Seq<char> {
    match s {
        Some(s) => s,
        None => other,
    }
}

fn clone_or(s: &Option<String>, other: &str) -> (r: String)
    ensures
        r@ == text_or(opt_text(*s), other@),
{
    match s {
        Some(s) => s.clone(),
        None => other.to_string(),
    }
}

/// Whether a reply says that the command was done.
pub open spec fn is_done(v: ReplyView) -> bool {
    v.ok == Some(true)
}

fn check_done(v: &Reply) -> (r: bool)
    ensures
        r == is_done(v@),
{
    match v.ok {
        Some(b) => b,
        None => false,
    }
}

/// The result or the message of an error, as what they stand for.
pub open spec fn nav_view(r: Result<NavResult, String>) -> Result<NavView, Seq<char>> {
    match r {
        Ok(n) => Ok(n@),
        Err(e) => Err(e@),
    }
}

pub open spec fn count_view(r: Result<u64, String>) -> Result<u64, Seq<char>> {
    match r {
        Ok(n) => Ok(n),
        Err(e) => Err(e@),
    }
}

/// What the reply to a cookies command says: how many were taken.
pub open spec fn cookies_reply(v: ReplyView) -> Result<u64, Seq<char>> {
    if is_done(v) {
        Ok(
            match v.installed {
                Some(n) => n,
                None => 0,
            },
        )
    } else {
        Err(text_or(v.error, "unknown"@))
    }
}

/// What the reply to a navigate command for `url` says.
pub open spec fn navigate_reply(v: ReplyView, url: Seq<char>) -> Result<NavView, Seq<char>> {
    if is_done(v) {
        Ok(
            NavView {
                html: text_or(v.html, ""@),
                url: text_or(v.url, url),
                frames: match v.frames {
                    Some(n) => n,
                    None => 0,
                },
                timed_out: v.timed_out == Some(true),
            },
        )
    } else {
        Err(text_or(v.error, "unknown"@))
    }
}

/// The debug form of an optional text.
pub uninterp spec fn debug_text(s: Option<Seq<char>>) -> Seq<char>;

/// `std::format` with `{:?}` writes an optional text by the text alone; none is `None`.
#[verifier::external_body]
fn format_debug(s: Option<&str>) -> (r: String)
    ensures
        r@ == debug_text(opt_str(s)),
        s is None ==> r@ == "None"@,
{
    format!("{:?}", s)
}

/// What the reply to a command on the element `selector` says; the address of the page
/// comes along where `moves`.
pub open spec fn element_reply(
    v: ReplyView,
    selector: Seq<char>,
    moves: bool,
) -> Result<NavView, Seq<char>> {
    let result = v.result;
    if !is_done(v) {
        Err(text_or(v.error, "unknown"@))
    } else if result == Some("ok"@) {
        Ok(
            NavView {
                html: text_or(v.html, ""@),
                url: if moves {
                    text_or(v.url, ""@)
                } else {
                    ""@
                },
                frames: 0,
                timed_out: false,
            },
        )
    } else if result == Some("not_found"@) {
        Err("no element matched selector "@ + selector)
    } else {
        Err("unexpected result: "@ + debug_text(result))
    }
}

fn read_element_reply(reply: &Reply, selector: &str, moves: bool) -> (r: Result<
    NavResult,
    String,
>)
    ensures
        nav_view(r) == element_reply(reply@, selector@, moves),
{
    if !check_done(reply) {
        return Err(clone_or(&reply.error, "unknown"));
    }
    if let Some(s) = &reply.result {
        if same(s.as_str(), "ok") {
            return Ok(
                NavResult {
                    html: clone_or(&reply.html, ""),
                    url: if moves {
                        clone_or(&reply.url, "")
                    } else {
                        "".to_string()
                    },
                    frames: 0,
                    timed_out: false,
                },
            );
        }
        if same(s.as_str(), "not_found") {
            return Err(concat("no element matched selector ", selector));
        }
    }
    let result: Option<&str> = match &reply.result {
        Some(s) => Some(s.as_str()),
        None => None,
    };
    Err(concat("unexpected result: ", format_debug(result).as_str()))
}

impl DaemonClient {
    /// A client of the helper in the home directory, without a connection.
    pub fn new(home: Option<&str>) -> (r: Self)
        ensures
            r.socket_path@ == home_or_tmp(opt_str(home)) + "/.scroll/servo.sock"@,
            !r.connected,
    {
        let socket_path = match home {
            Some(h) => concat(h, "/.scroll/servo.sock"),
            None => concat("/tmp", "/.scroll/servo.sock"),
        };
        DaemonClient { socket_path, connected: false }
    }

    /// How to come to a connection.
    pub fn ensure_connected(&self, socket_exists: bool) -> (r: Connect)
        ensures
            r == (if self.connected {
                Connect::Keep
            } else if socket_exists {
                Connect::TrySocket
            } else {
                Connect::Spawn
            }),
    {
        if self.connected {
            Connect::Keep
        } else if socket_exists {
            Connect::TrySocket
        } else {
            Connect::Spawn
        }
    }

    /// Carries on with a command after a step of it.
    pub fn send_command(&mut self, s: Sending, result: StepResult) -> (r: NextStep)
        ensures
            is_next(r, s, step_error(result)),
            final(self).socket_path == old(self).socket_path,
            final(self).connected == (match r {
                NextStep::Continue(_) => old(self).connected || s.stage is Connecting,
                NextStep::Restart(_) => false,
                _ => old(self).connected,
            }),
    {
        match result {
            StepResult::Done => match s.stage {
                Stage::Connecting => {
                    self.connected = true;
                    NextStep::Continue(Sending { retry: s.retry, stage: Stage::Writing })
                },
                Stage::Writing => NextStep::Continue(
                    Sending { retry: s.retry, stage: Stage::Reading },
                ),
                Stage::Reading => NextStep::Finished,
            },
            StepResult::Failed(e) => if s.retry {
                match s.stage {
                    Stage::Writing => NextStep::GiveUp(concat("write: ", e.as_str())),
                    _ => NextStep::GiveUp(e),
                }
            } else {
                self.connected = false;
                NextStep::Restart(Sending { retry: true, stage: Stage::Connecting })
            },
        }
    }

    /// How to stop the helper. Whatever comes of it, there is no connection afterwards.
    pub fn shutdown(&mut self, socket_exists: bool) -> (r: Shutdown)
        ensures
            r == (if !socket_exists {
                Shutdown::Gone
            } else if old(self).connected {
                Shutdown::Ask
            } else {
                Shutdown::TrySocket
            }),
            !final(self).connected,
            final(self).socket_path == old(self).socket_path,
    {
        let connected = self.connected;
        self.connected = false;
        if !socket_exists {
            Shutdown::Gone
        } else if connected {
            Shutdown::Ask
        } else {
            Shutdown::TrySocket
        }
    }

    /// What the reply to a cookies command says.
    pub fn install_cookies(reply: &Reply) -> (r: Result<u64, String>)
        ensures
            count_view(r) == cookies_reply(reply@),
    {
        if !check_done(reply) {
            return Err(clone_or(&reply.error, "unknown"));
        }
        match reply.installed {
            Some(n) => Ok(n),
            None => Ok(0),
        }
    }

    /// What the reply to a navigate command says.
    pub fn navigate(reply: &Reply, url: &str) -> (r: Result<NavResult, String>)
        ensures
            nav_view(r) == navigate_reply(reply@, url@),
    {
        if !check_done(reply) {
            return Err(clone_or(&reply.error, "unknown"));
        }
        Ok(
            NavResult {
                html: clone_or(&reply.html, ""),
                url: clone_or(&reply.url, url),
                frames: match reply.frames {
                    Some(n) => n,
                    None => 0,
                },
                timed_out: match reply.timed_out {
                    Some(b) => b,
                    None => false,
                },
            },
        )
    }

    /// What the reply to a type command says: the page after the text was typed.
    pub fn type_into(reply: &Reply, selector: &str) -> (r: Result<NavResult, String>)
        ensures
            nav_view(r) == element_reply(reply@, selector@, false),
    {
        read_element_reply(reply, selector, false)
    }

    /// What the reply to a click command says: the page after the click and its address.
    pub fn click(reply: &Reply, selector: &str) -> (r: Result<NavResult, String>)
        ensures
            nav_view(r) == element_reply(reply@, selector@, true),
    {
        read_element_reply(reply, selector, true)
    }
}

} // verus!
