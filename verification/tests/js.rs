use boa_engine::object::{JsObject, ObjectInitializer};
use boa_engine::property::Attribute;
use boa_engine::{Context, JsString, JsValue, NativeFunction, Source};
use scroll::js::{find_method, is_ok_status, join_args, location_of, navigator, run_extracted, run_scripts, JsResult, JsState, Run};
use scroll::rsc::decode_rsc_payload;
use scroll::runs::Turn;
use scroll::scripts::{extract_scripts_in_order, parse_src_attr};
use scroll::strmap::StrMap;
use std::cell::RefCell;

const URL: &str = "https://example.com/";

fn none() -> StrMap<String> {
    StrMap::new()
}

fn pending(run: Run) -> (JsState, Vec<String>) {
    match run {
        Run::Pending(state, scripts) => (state, scripts),
        Run::Done(_) => panic!("the page has scripts"),
    }
}

fn start(html: &str) -> (JsState, Vec<String>) {
    pending(run_scripts(html, URL, none(), none()))
}

fn text(m: &StrMap<String>, k: &str) -> Option<String> {
    m.get(k).map(|s| s.to_string())
}

fn logs(r: &JsResult, part: &str) -> bool {
    r.log.iter().any(|l| l.contains(part))
}

// --- A small host for scripts ---

/// The state of one run. A native function may hold only what can be copied, so the state
/// lives as long as the test.
type Host = &'static RefCell<JsState>;
type Calls = &'static RefCell<Vec<JsValue>>;

fn js(s: &str) -> JsString {
    JsString::from(s)
}

fn arg(args: &[JsValue], i: usize, ctx: &mut Context) -> String {
    args.get(i).and_then(|v| v.to_string(ctx).ok()).map(|s| s.to_std_string_escaped()).unwrap_or_default()
}

fn property(this: &JsValue, name: &str, ctx: &mut Context) -> JsValue {
    this.as_object().and_then(|o| o.get(js(name), ctx).ok()).unwrap_or_default()
}

/// A function that tells the host something.
fn tell(host: Host, f: fn(&mut JsState, Vec<String>)) -> NativeFunction {
    NativeFunction::from_copy_closure(move |_t, args, ctx| {
        let texts: Vec<String> = (0..args.len()).map(|i| arg(args, i, ctx)).collect();
        f(&mut host.borrow_mut(), texts);
        Ok(JsValue::undefined())
    })
}

fn take(v: &Vec<String>, i: usize) -> String {
    v.get(i).cloned().unwrap_or_default()
}

fn element_accessor(
    host: Host,
    ctx: &mut Context,
    obj: &JsObject,
    name: &'static str,
    get: fn(&JsState, &str) -> String,
    set: fn(&mut JsState, &str, String),
) {
    let realm = ctx.realm().clone();
    let getter = NativeFunction::from_copy_closure(move |t, _args, ctx| {
        let id = property(t, "__id", ctx).to_string(ctx)?.to_std_string_escaped();
        Ok(JsValue::from(js(&get(&host.borrow(), &id))))
    });
    let setter = NativeFunction::from_copy_closure(move |t, args, ctx| {
        let id = property(t, "__id", ctx).to_string(ctx)?.to_std_string_escaped();
        let value = arg(args, 0, ctx);
        set(&mut host.borrow_mut(), &id, value);
        Ok(JsValue::undefined())
    });
    let desc = boa_engine::property::PropertyDescriptor::builder()
        .get(getter.to_js_function(&realm))
        .set(setter.to_js_function(&realm))
        .build();
    obj.define_property_or_throw(js(name), desc, ctx).expect("a new property");
}

fn element(host: Host, ctx: &mut Context, id: &str) -> JsObject {
    let obj = ObjectInitializer::new(ctx).property(js("__id"), js(id), Attribute::all()).build();
    element_accessor(host, ctx, &obj, "tagName", |s, id| s.tag_name(id), |_s, _id, _v| {});
    element_accessor(host, ctx, &obj, "value", |s, id| s.element_value(id), |s, id, v| s.set_element_value(id, v));
    element_accessor(host, ctx, &obj, "innerHTML", |s, id| s.inner_html(id), |s, id, v| s.set_inner_html(id, v));
    obj
}

/// An object whose `then` calls back at once with the value.
fn thenable(ctx: &mut Context, value: JsValue) -> JsObject {
    let then = NativeFunction::from_copy_closure(|t, args, ctx| {
        let value = property(t, "__value", ctx);
        let back = args.first().and_then(|f| f.as_callable()).cloned().expect("a callback");
        let value = back.call(&JsValue::undefined(), &[value], ctx)?;
        Ok(JsValue::from(thenable(ctx, value)))
    });
    ObjectInitializer::new(ctx).property(js("__value"), value, Attribute::all()).function(then, js("then"), 1).build()
}

fn install(ctx: &mut Context, host: Host, calls: Calls) {
    let all = Attribute::all();
    let realm = ctx.realm().clone();

    let console = ObjectInitializer::new(ctx)
        .function(tell(host, |s, a| s.record_log("log", &join_args(&a))), js("log"), 0)
        .build();
    ctx.register_global_property(js("console"), console, all).expect("a new global");

    let agent = navigator().user_agent;
    let nav = ObjectInitializer::new(ctx).property(js("userAgent"), js(&agent), all).build();
    ctx.register_global_property(js("navigator"), nav, all).expect("a new global");

    let href = NativeFunction::from_copy_closure(move |_t, _a, _c| Ok(JsValue::from(js(&location_of(&host.borrow().page_url).href))));
    let location = ObjectInitializer::new(ctx)
        .accessor(
            js("href"),
            Some(href.to_js_function(&realm)),
            Some(tell(host, |s, a| s.set_redirect(take(&a, 0))).to_js_function(&realm)),
            all,
        )
        .function(tell(host, |s, a| s.set_redirect(take(&a, 0))), js("assign"), 1)
        .build();
    ctx.register_global_property(js("location"), location, all).expect("a new global");

    let by_id = NativeFunction::from_copy_closure(move |_t, args, ctx| {
        let id = arg(args, 0, ctx);
        let known = host.borrow().has_element(&id);
        Ok(if known { JsValue::from(element(host, ctx, &id)) } else { JsValue::null() })
    });
    let listen = NativeFunction::from_copy_closure(move |_t, args, ctx| {
        let event = arg(args, 0, ctx);
        calls.borrow_mut().push(args[1].clone());
        let number = calls.borrow().len() - 1;
        host.borrow_mut().register_listener("_document", Some(event), Some(number));
        Ok(JsValue::undefined())
    });
    let cookie = NativeFunction::from_copy_closure(move |_t, _a, _c| Ok(JsValue::from(js(&host.borrow().document_cookie()))));
    let document = ObjectInitializer::new(ctx)
        .function(by_id, js("getElementById"), 1)
        .function(listen, js("addEventListener"), 2)
        .accessor(
            js("cookie"),
            Some(cookie.to_js_function(&realm)),
            Some(tell(host, |s, a| s.set_document_cookie(&take(&a, 0))).to_js_function(&realm)),
            all,
        )
        .build();
    ctx.register_global_property(js("document"), document, all).expect("a new global");

    let storage = ObjectInitializer::new(ctx)
        .function(tell(host, |s, a| s.set_item(true, take(&a, 0), take(&a, 1))), js("setItem"), 2)
        .function(tell(host, |s, a| s.remove_item(true, &take(&a, 0))), js("removeItem"), 1)
        .build();
    ctx.register_global_property(js("localStorage"), storage, all).expect("a new global");

    let push = NativeFunction::from_copy_closure(move |_t, args, ctx| {
        for pair in args {
            let chunk = property(pair, "1", ctx).to_string(ctx)?.to_std_string_escaped();
            host.borrow_mut().push_chunk(chunk);
        }
        Ok(JsValue::from(0))
    });
    let next = ObjectInitializer::new(ctx).function(push, js("push"), 1).build();
    ctx.register_global_property(js("__next_f"), next, all).expect("a new global");
    let global = ctx.global_object();
    global.set(js("self"), global.clone(), false, ctx).expect("a new global");

    // No request leaves: each one fails.
    let fetch = NativeFunction::from_copy_closure(move |_t, args, ctx| {
        let url = arg(args, 0, ctx);
        let request = host.borrow_mut().plan_fetch(&url, None, Vec::new(), None);
        host.borrow_mut().fetch_failed(&request.url, "refused");
        host.borrow_mut().receive_fetch(None);
        Ok(JsValue::from(thenable(ctx, JsValue::undefined())))
    });
    ctx.register_global_callable(js("fetch"), 1, fetch).expect("a new global");
}

/// Runs the scripts of a page in the engine.
fn run(run: Run) -> JsResult {
    let (state, scripts) = pending(run);
    let host: Host = Box::leak(Box::new(RefCell::new(state)));
    let calls: Calls = Box::leak(Box::new(RefCell::new(Vec::new())));
    let mut ctx = Context::default();
    install(&mut ctx, host, calls);
    let event = ObjectInitializer::new(&mut ctx)
        .property(js("type"), js("submit"), Attribute::all())
        .function(tell(host, |s, _a| s.prevent_submit()), js("preventDefault"), 0)
        .build();
    let mut turn = host.borrow().first_turn(&scripts);
    loop {
        let failure = match &turn {
            Turn::Script(i) => ctx.eval(Source::from_bytes(scripts[*i].as_bytes())).err(),
            Turn::Listener(numbers, k) => {
                let back = calls.borrow()[numbers[*k]].clone();
                let back = back.as_callable().cloned().expect("a callback");
                back.call(&JsValue::undefined(), &[JsValue::from(event.clone())], &mut ctx).err()
            }
            Turn::Finish => break,
        };
        let failure = failure.map(|e| e.to_string());
        turn = host.borrow_mut().next_turn(turn, &scripts, failure.as_deref());
    }
    calls.borrow_mut().clear();
    let r = host.borrow().finish(scripts);
    r
}

fn run_page(html: &str) -> JsResult {
    run(run_scripts(html, URL, none(), none()))
}

// --- Pages with scripts ---

#[test]
fn console_capture_and_redirect() {
    let html = r#"<script>
            console.log("hi");
            location.href = "https://example.com/dest";
        </script>"#;
    let r = run_page(html);
    assert!(logs(&r, "hi"), "log: {:?}", r.log);
    assert_eq!(r.log, vec!["[log] hi".to_string()]);
    assert_eq!(r.redirect.as_deref(), Some("https://example.com/dest"));
}

#[test]
fn location_assign_redirects() {
    let html = r#"<script>location.assign("/landing")</script>"#;
    let r = run_page(html);
    assert_eq!(r.redirect.as_deref(), Some("/landing"));
    assert_eq!(r.scripts, vec!["location.assign(\"/landing\")".to_string()]);
}

#[test]
fn document_cookie_round_trip() {
    let mut prior = none();
    prior.insert("x".to_string(), "1".to_string());
    let html = r#"<script>
            console.log("before:", document.cookie);
            document.cookie = "y=2";
            document.cookie = "z=3; Path=/";
            console.log("after:", document.cookie);
        </script>"#;
    let r = run(run_scripts(html, URL, prior, none()));
    assert_eq!(r.log, vec!["[log] before: x=1".to_string(), "[log] after: x=1; y=2; z=3".to_string()]);
    assert!(r.cookies_dirty);
    assert_eq!(text(&r.cookies, "y").as_deref(), Some("2"));
    assert_eq!(text(&r.cookies, "z").as_deref(), Some("3"));
    assert_eq!(text(&r.cookies, "x").as_deref(), Some("1"));
}

#[test]
fn localstorage_persists() {
    let html = r#"<script>
            localStorage.setItem("k", "v");
            localStorage.setItem("a", "1");
            localStorage.removeItem("a");
        </script>"#;
    let r = run_page(html);
    assert!(r.localstorage_dirty);
    assert_eq!(text(&r.localstorage, "k").as_deref(), Some("v"));
    assert!(r.localstorage.get("a").is_none());
}

#[test]
fn navigator_useragent_is_chromeish() {
    let html = r#"<script>console.log(navigator.userAgent)</script>"#;
    let r = run_page(html);
    assert!(logs(&r, "Chrome"), "log: {:?}", r.log);
}

#[test]
fn get_element_by_id_returns_value() {
    let html = r#"<html><body>
            <input id="user" value="initial">
            <script>
              var el = document.getElementById("user");
              console.log("tag:", el.tagName, "value:", el.value);
              el.value = "typed-by-js";
              console.log("after:", el.value);
            </script>
        </body></html>"#;
    let r = run_page(html);
    assert!(logs(&r, "tag: INPUT"), "log: {:?}", r.log);
    assert!(logs(&r, "value: initial"), "log: {:?}", r.log);
    assert!(logs(&r, "after: typed-by-js"), "log: {:?}", r.log);
    assert_eq!(text(&r.dom_values, "user").as_deref(), Some("typed-by-js"));
}

#[test]
fn only_values_that_scripts_set_are_reported() {
    let html = r#"<input id="u" value="initial"><script>console.log(1)</script>"#;
    assert!(run_page(html).dom_values.is_empty());
    let html = r#"<input id="u" value="initial"><input id="v" value="other">
        <script>document.getElementById("u").value = "";</script>"#;
    let mut typed = none();
    typed.insert("v".to_string(), "typed".to_string());
    let scripts = extract_scripts_in_order(html, URL, &none());
    let r = run(run_extracted(scripts, html, URL, none(), none(), &typed, None));
    assert_eq!(text(&r.dom_values, "u").as_deref(), Some(""));
    assert_eq!(r.dom_values.len(), 1);
}

#[test]
fn get_element_by_id_missing_returns_null() {
    let html = r#"<html><body><script>
            var el = document.getElementById("nope");
            console.log("isnull:", el === null);
        </script></body></html>"#;
    let r = run_page(html);
    assert!(logs(&r, "isnull: true"), "log: {:?}", r.log);
    let (s, _) = start(html);
    assert!(!s.has_element("nope"));
    assert!(!s.has_element(""));
}

#[test]
fn submit_listener_can_prevent_default() {
    let html = r#"<html><body>
            <form id="login"><input id="user" name="user"></form>
            <script>
              document.addEventListener("submit", function(e) {
                console.log("submit fired, target type:", e.type);
                e.preventDefault();
              });
            </script>
        </body></html>"#;
    let scripts = extract_scripts_in_order(html, "https://example.com/", &none());
    let r = run(run_extracted(
        scripts, html, "https://example.com/",
        none(), none(), &none(),
        Some("login".to_string()),
    ));
    assert!(r.submit_prevented, "log: {:?}", r.log);
    assert!(logs(&r, "submit fired"), "log: {:?}", r.log);
}

#[test]
fn innerhtml_change_is_surfaced() {
    let html = r#"<html><body>
            <div id="app">Loading...</div>
            <script>
              document.getElementById("app").innerHTML = "<h1>Hello</h1><p>World</p>";
            </script>
        </body></html>"#;
    let r = run_page(html);
    let app = text(&r.inner_html_changes, "app").unwrap_or_default();
    assert!(app.contains("<h1>Hello</h1>"), "got: {:?}", app);
    assert_eq!(r.inner_html_changes.len(), 1);
}

#[test]
fn rsc_payload_extracts_text() {
    let html = r#"<html><body>
            <div id="root">Loading...</div>
            <script>
              self.__next_f = self.__next_f || [];
              self.__next_f.push([1, '0:["$","main",null,{"children":[["$","h1",null,{"children":"Welcome"}],["$","p",null,{"children":"Hello world"}]]}]\n']);
            </script>
        </body></html>"#;
    let r = run_page(html);
    let rsc = r.rsc_text.as_deref().unwrap_or("");
    assert!(rsc.contains("Welcome"), "rsc: {:?}", rsc);
    assert!(rsc.contains("Hello world"), "rsc: {:?}", rsc);
    assert_eq!(rsc, "Welcome\nHello world");
}

#[test]
fn submit_dispatch_no_listener_is_noop() {
    let html = r#"<html><body><form id="login"></form>
            <script>console.log("no listener");</script>
        </body></html>"#;
    let scripts = extract_scripts_in_order(html, "https://example.com/", &none());
    let r = run(run_extracted(
        scripts, html, "https://example.com/",
        none(), none(), &none(),
        Some("login".to_string()),
    ));
    assert!(!r.submit_prevented);
}

#[test]
fn a_script_that_throws_does_not_stop_the_next() {
    let scripts = vec!["throw new Error('x')".to_string(), "console.log('b')".to_string()];
    let r = run(run_extracted(scripts.clone(), "", "https://example.com/", none(), none(), &none(), None));
    assert_eq!(r.log.len(), 2);
    assert!(r.log[0].starts_with("[error] script[0]"), "log: {:?}", r.log);
    assert_eq!(r.log[1], "[log] b");
    assert_eq!(r.scripts, scripts);
    assert!(!r.cookies_dirty && !r.localstorage_dirty && !r.submit_prevented);
}

#[test]
fn a_listener_that_throws_does_not_stop_the_next() {
    let html = r#"<script>
            document.addEventListener("submit", function(e) { throw new Error("no"); });
            document.addEventListener("submit", function(e) { console.log("second"); e.preventDefault(); });
        </script>"#;
    let scripts = extract_scripts_in_order(html, URL, &none());
    let r = run(run_extracted(scripts.clone(), html, URL, none(), none(), &none(), Some("f".to_string())));
    assert_eq!(r.log.len(), 2);
    assert!(r.log[0].starts_with("[error] submit listener threw: "), "log: {:?}", r.log);
    assert_eq!(r.log[1], "[log] second");
    assert!(r.submit_prevented);
    let r = run(run_extracted(scripts, html, URL, none(), none(), &none(), None));
    assert!(r.log.is_empty() && !r.submit_prevented);
}

#[test]
fn turns_come_in_order() {
    let (mut s, scripts) = start("<script>1</script><script>2</script>");
    let t = s.first_turn(&scripts);
    assert!(matches!(t, Turn::Script(0)));
    let t = s.next_turn(t, &scripts, Some("bad"));
    assert!(matches!(t, Turn::Script(1)));
    s.register_listener("_document", Some("submit".to_string()), Some(0));
    s.prevent_submit();
    let t = s.next_turn(t, &scripts, None);
    assert!(matches!(t, Turn::Finish));
    s.callback_failed("oops");
    let r = s.finish(scripts);
    assert_eq!(r.log, vec!["[error] script[0] (1): bad".to_string(), "[error] then callback threw: oops".to_string()]);
    assert_eq!(r.scripts, vec!["1".to_string(), "2".to_string()]);
    assert!(!r.submit_prevented);
}

#[test]
fn fetch_then_chain_runs_synchronously() {
    let html = r#"<script>
            var got = null;
            fetch("http://127.0.0.1:1/should-fail")
              .then(r => { got = "first-then"; return "second"; })
              .then(v => { console.log("chain:", got, v); });
        </script>"#;
    let r = run_page(html);
    assert!(logs(&r, "chain: first-then"), "log: {:?}", r.log);
    assert_eq!(r.log[0], "[error] fetch http://127.0.0.1:1/should-fail failed: refused");
}

#[test]
fn a_page_without_scripts_is_done() {
    let mut c = none();
    c.insert("a".to_string(), "b".to_string());
    match run_scripts("<p>plain</p>", URL, c, none()) {
        Run::Done(r) => {
            assert_eq!(text(&r.cookies, "a").as_deref(), Some("b"));
            assert!(!r.cookies_dirty && r.log.is_empty() && r.scripts.is_empty());
        }
        Run::Pending(_, _) => panic!("nothing to run"),
    }
}

#[test]
fn typed_values_are_in_the_elements() {
    let html = "<input id=a value=old><script>1</script>";
    let mut typed = none();
    typed.insert("a".to_string(), "new".to_string());
    typed.insert("b".to_string(), "made".to_string());
    let scripts = extract_scripts_in_order(html, URL, &none());
    let (s, _) = pending(run_extracted(scripts, html, URL, none(), none(), &typed, None));
    assert_eq!(s.element_value("a"), "new");
    assert_eq!(s.element_value("b"), "made");
    assert_eq!(s.tag_name("b"), "");
    assert_eq!(s.get_attribute("a", "value").as_deref(), Some("old"));
}

#[test]
fn scripts_are_taken_in_order() {
    let html = "<script src=x.js></script><SCRIPT>one</SCRIPT><script>  </script><script type=\"a\">two</script><script>open";
    assert_eq!(extract_scripts_in_order(html, "", &none()), vec!["one".to_string(), "two".to_string()]);
    let html = "<script data-src=x.js>inline</script>";
    assert_eq!(extract_scripts_in_order(html, "", &none()), vec!["inline".to_string()]);
}

#[test]
fn too_much_script_is_left_out() {
    let big = "x".repeat(4 * 1_048_576);
    let html = format!("<script>{}</script><script>y</script>", big);
    let got = extract_scripts_in_order(&html, "", &none());
    assert_eq!(got.len(), 1);
    assert_eq!(got[0].len(), 4 * 1_048_576);
    let html = format!("<script>{}x</script><script>y</script>", big);
    assert!(extract_scripts_in_order(&html, "", &none()).is_empty());
}

#[test]
fn sources_of_scripts() {
    assert_eq!(parse_src_attr("<script src=\"a.js\">").as_deref(), Some("a.js"));
    assert_eq!(parse_src_attr("<script SRC= 'b c.js' async>").as_deref(), Some("b c.js"));
    assert_eq!(parse_src_attr("<script src=c.js>").as_deref(), Some("c.js"));
    assert_eq!(parse_src_attr("<script src=\"\">"), None);
    assert_eq!(parse_src_attr("<script>"), None);
    assert_eq!(parse_src_attr("<script data-src=\"a.js\">"), None);
    assert_eq!(parse_src_attr("<script data-src=\"a.js\"src=b.js>").as_deref(), Some("b.js"));
    assert_eq!(parse_src_attr("<script src=\"open").as_deref(), Some("open"));
}

#[test]
fn selectors_find_ids_and_tags() {
    let (mut s, _) = start("<div id=one></div><span id=two></span><script>1</script>");
    assert_eq!(s.query_selector("#two").as_deref(), Some("two"));
    assert_eq!(s.query_selector("#three"), None);
    assert_eq!(s.query_selector("SPAN").as_deref(), Some("two"));
    assert_eq!(s.query_selector("div.x"), None);
    assert_eq!(s.query_selector("p"), None);
    assert_eq!(s.create_element("p"), "__anon_0");
    assert_eq!(s.create_element("p"), "__anon_1");
    assert_eq!(s.query_selector("p").as_deref(), Some("__anon_0"));
}

#[test]
fn elements_read_as_they_were_set() {
    let (mut s, _) = start("<input id=c checked><script>1</script>");
    assert!(s.is_checked("c"));
    s.set_checked("c", false);
    assert!(!s.is_checked("c"));
    s.set_text_content("c", "t".to_string());
    assert_eq!(s.text_content("c"), "t");
    s.set_attribute("c", "k".to_string(), "v".to_string());
    assert_eq!(s.get_attribute("c", "k").as_deref(), Some("v"));
    assert_eq!(s.get_attribute("c", "no"), None);
}

#[test]
fn storages_are_apart() {
    let (mut s, _) = start("<script>1</script>");
    s.set_item(false, "k".to_string(), "session".to_string());
    assert_eq!(s.get_item(true, "k"), None);
    assert_eq!(s.get_item(false, "k").as_deref(), Some("session"));
    assert_eq!(s.storage_length(false), 1);
    assert_eq!(s.storage_key(false, 0).as_deref(), Some("k"));
    assert_eq!(s.storage_key(false, 1), None);
    assert_eq!(s.storage_key(false, -1), None);
    s.clear_storage(true);
    s.remove_item(true, "k");
    let r = s.finish_run();
    assert!(!r.localstorage_dirty);
    s.clear_storage(false);
    assert_eq!(s.storage_length(false), 0);
}

#[test]
fn listeners_hear_their_own_form() {
    let html = "<form id=f></form><script>1</script>";
    let scripts = extract_scripts_in_order(html, URL, &none());
    let (mut s, _) = pending(run_extracted(scripts, html, URL, none(), none(), &none(), Some("f".to_string())));
    s.register_listener("f", Some("submit".to_string()), Some(1));
    s.register_listener("g", Some("submit".to_string()), Some(2));
    s.register_listener("_window", Some("submit".to_string()), Some(3));
    s.register_listener("f", Some("click".to_string()), Some(4));
    s.register_listener("f", None, Some(5));
    s.register_listener("f", Some("submit".to_string()), None);
    assert_eq!(s.submit_listeners(), vec![1, 3]);
}

#[test]
fn requests_of_scripts() {
    let (mut s, _) = start("<script>1</script>");
    s.set_document_cookie("a=1");
    let req = s.plan_fetch("/api", Some("post".to_string()), vec![("X".to_string(), "y".to_string())], Some("b".to_string()));
    assert_eq!(req.url, "https://example.com/api");
    assert_eq!(req.method, "POST");
    assert_eq!(req.cookie.as_deref(), Some("a=1"));
    assert_eq!(req.headers, vec![("X".to_string(), "y".to_string())]);
    assert_eq!(req.body.as_deref(), Some("b"));
    assert_eq!(s.plan_fetch("//cdn/x", Some("patch".to_string()), Vec::new(), None).method, "GET");
    assert_eq!(s.plan_fetch("//cdn/x", None, Vec::new(), None).url, "https://cdn/x");
    assert_eq!(find_method("PUT".to_string()), "PUT");
    assert_eq!(find_method("put".to_string()), "GET");
    s.receive_fetch(Some("sid=9; Path=/"));
    s.receive_fetch(Some("bare=1"));
    assert_eq!(s.document_cookie(), "a=1; sid=9; bare=1");
    assert!(is_ok_status(200) && is_ok_status(299) && !is_ok_status(300) && !is_ok_status(0));
}

#[test]
fn a_script_that_throws_is_logged() {
    let (mut s, _) = start("<script>1</script>");
    let src = format!("line\n{}", "x".repeat(80));
    s.script_failed(2, &src, "oops");
    let r = s.finish_run();
    assert_eq!(r.log[0], format!("[error] script[2] (line {}): oops", "x".repeat(55)));
}

#[test]
fn location_is_read_from_the_address() {
    let l = location_of("https://a.b/c/d?q=1#f");
    assert_eq!(l.href, "https://a.b/c/d?q=1#f");
    assert_eq!((l.host.as_str(), l.pathname.as_str(), l.search.as_str(), l.protocol.as_str()), ("a.b", "/c/d", "?q=1", "https:"));
    let l = location_of("nonsense");
    assert_eq!((l.host.as_str(), l.pathname.as_str(), l.search.as_str(), l.protocol.as_str()), ("", "", "", ""));
}

#[test]
fn payload_text_is_picked() {
    assert_eq!(decode_rsc_payload(""), None);
    assert_eq!(decode_rsc_payload("1:I[\"mod\"]\n2:HL[\"x\"]\nno colon"), None);
    assert_eq!(decode_rsc_payload("1:{\"className\":\"hidden\"}"), None);
    let payload = "b:{\"title\":\" T \",\"children\":[\"C\",\"$L1\",\"a__b\",\"a __b\",3,null,\"C\"]}\na:\"first\"\nb:bad json\n";
    assert_eq!(decode_rsc_payload(payload).as_deref(), Some("first\nC\na __b\nT"));
}
