use scroll::adblock::{host_set, is_blocked, load_adblock, parse_hosts, write_hosts};
use scroll::address::{absolute_url, host_of, img_cache_path, resolve_search, resolve_url, urlencoding};
use scroll::cookies::CookieJar;
use scroll::fetcher::{error_result, file_result, guess_content_type, migrate_legacy_cookies_jar, normalize_url, FetchPlan, Fetcher, Response};
use scroll::firefox::{browse_in_firefox, default_profile, find_profile, resolve_firefox_profile};
use scroll::images::{compute_image_plan, gone_images, is_oembed, oembed_thumbnail, same_plan, start_image_downloads, Viewport};
use scroll::servo_daemon::{begin_sending, click_command, cookies_command, log_path, navigate_command, read_response, shutdown_command, spawn_timeout, type_command, Connect, DaemonClient, NextStep, Reply, Sending, Shutdown, Stage, StepResult};
use scroll::strmap::StrMap;
use scroll::tab::ImageRef;

fn map(pairs: &[(&str, &str)]) -> StrMap<String> {
    let mut m = StrMap::new();
    for (k, v) in pairs {
        m.insert(k.to_string(), v.to_string());
    }
    m
}

fn jar(hosts: &[(&str, &[(&str, &str)])]) -> CookieJar {
    let mut j = StrMap::new();
    for (h, c) in hosts {
        j.insert(h.to_string(), map(c));
    }
    j
}

fn response(url: &str, set_cookies: &[&str]) -> Response {
    Response {
        url: url.to_string(),
        status: 200,
        content_type: None,
        set_cookies: set_cookies.iter().map(|s| s.to_string()).collect(),
        body: "body".to_string(),
    }
}

fn value(f: &Fetcher, host: &str, name: &str) -> Option<String> {
    f.cookies_for_host(host).get(name).map(|s| s.to_string())
}

// --- Addresses ---

#[test]
fn references_are_resolved() {
    let base = "https://a.org/x/y";
    assert_eq!(resolve_url(base, "z"), "https://a.org/x/z");
    assert_eq!(resolve_url(base, "/z"), "https://a.org/z");
    assert_eq!(resolve_url(base, "//b.org/z"), "https://b.org/z");
    assert_eq!(resolve_url(base, "http://c.org"), "http://c.org");
    assert_eq!(resolve_url(base, "file:///t"), "file:///t");
    assert_eq!(resolve_url("not an address", "z"), "z");
    assert_eq!(absolute_url(base, "//b.org/z"), "https://b.org/z");
    assert_eq!(absolute_url(base, "?q"), "https://a.org/x/y?q");
    assert_eq!(host_of("https://user@h.org:8080/p"), "h.org");
    assert_eq!(host_of("nothing"), "");
}

#[test]
fn input_becomes_an_address() {
    assert_eq!(resolve_search(" https://a.b ", "g"), "https://a.b");
    assert_eq!(resolve_search("about:home", "g"), "about:home");
    assert_eq!(resolve_search("a.b/c", "g"), "https://a.b/c");
    assert_eq!(resolve_search("rust lang", "g"), "https://www.google.com/search?q=rust+lang");
    assert_eq!(resolve_search("ddg rust.org x", "g"), "https://duckduckgo.com/?q=rust.org+x");
    assert_eq!(resolve_search("w tea", "g"), "https://en.wikipedia.org/wiki/Special:Search?search=tea");
    assert_eq!(resolve_search("tea", "w"), "https://en.wikipedia.org/wiki/Special:Search?search=tea");
    assert_eq!(resolve_search("x tea", "?"), "https://www.google.com/search?q=x+tea");
}

#[test]
fn queries_are_encoded() {
    assert_eq!(urlencoding("aZ0-_.~"), "aZ0-_.~");
    assert_eq!(urlencoding("a b&c=\u{e9}/+"), "a+b%26c%3D%C3%A9%2F%2B");
    assert_eq!(img_cache_path("https://a/b?c"), "/tmp/scroll_img_https___a_b_c");
}

// --- Pages ---

#[test]
fn content_types_of_files() {
    assert_eq!(guess_content_type("/a/b.HTM"), "text/html");
    assert_eq!(guess_content_type("b.txt"), "text/plain");
    assert_eq!(guess_content_type("b.jpeg"), "image/jpeg");
    assert_eq!(guess_content_type("b.svg"), "image/svg+xml");
    assert_eq!(guess_content_type("b"), "text/html");
    assert_eq!(guess_content_type("a.b/json"), "text/html");
    assert_eq!(normalize_url("a.org"), "https://a.org");
    assert_eq!(normalize_url("http://a.org"), "http://a.org");
}

#[test]
fn a_page_is_answered_from_the_cache() {
    let mut f = Fetcher::new_with_set("Personal", None);
    match f.fetch("https://a.org", "GET", false) {
        FetchPlan::Request { url, post, cookie } => assert_eq!((url.as_str(), post, cookie), ("https://a.org", false, None)),
        _ => panic!("a request was due"),
    }
    let r = f.receive("https://a.org", "GET", false, response("https://a.org/", &[]));
    assert_eq!((r.body.as_str(), r.content_type.as_str(), r.url.as_str(), r.status), ("body", "text/html", "https://a.org/", 200));
    match f.fetch("https://a.org", "GET", false) {
        FetchPlan::Cached(c) => assert_eq!(c.body, "body"),
        _ => panic!("the page is known"),
    }
    match f.fetch("https://a.org", "POST", true) {
        FetchPlan::Request { post, .. } => assert!(post),
        _ => panic!("posts are not cached"),
    }
    f.invalidate_cache("https://a.org");
    match f.fetch("https://a.org", "GET", false) {
        FetchPlan::Request { .. } => {}
        _ => panic!("the page was forgotten"),
    }
}

#[test]
fn the_cache_holds_twenty_pages() {
    let mut f = Fetcher::new_with_set("Personal", None);
    for i in 0..21 {
        let url = format!("https://a.org/{}", i);
        f.receive(&url, "GET", false, response(&url, &[]));
    }
    assert_eq!(f.cache.len(), 20);
    assert_eq!(f.cache_order.len(), 20);
    assert_eq!(f.cache_order[0], "https://a.org/1");
    assert!(f.cache.get("https://a.org/0").is_none());
    assert!(f.cache.get("https://a.org/20").is_some());
    let mut bad = response("https://b.org/", &[]);
    bad.status = 404;
    f.receive("https://b.org/", "GET", false, bad);
    assert!(f.cache.get("https://b.org/").is_none());
}

#[test]
fn the_page_least_recently_used_leaves_the_cache() {
    let mut f = Fetcher::new_with_set("Personal", None);
    for i in 1..21 {
        let url = format!("https://a.org/{}", i);
        f.receive(&url, "GET", false, response(&url, &[]));
    }
    match f.fetch("https://a.org/1", "GET", false) {
        FetchPlan::Cached(c) => assert_eq!(c.url, "https://a.org/1"),
        _ => panic!("the page is known"),
    }
    assert_eq!(f.cache_order[0], "https://a.org/2");
    assert_eq!(f.cache_order[19], "https://a.org/1");
    f.receive("https://a.org/21", "GET", false, response("https://a.org/21", &[]));
    match f.fetch("https://a.org/1", "GET", false) {
        FetchPlan::Cached(_) => {}
        _ => panic!("the page was used just before"),
    }
    match f.fetch("https://a.org/2", "GET", false) {
        FetchPlan::Request { .. } => {}
        _ => panic!("the page has left"),
    }
    assert_eq!(f.cache.len(), 20);
}

#[test]
fn files_and_errors_are_pages_too() {
    let mut f = Fetcher::new_with_set("Personal", None);
    match f.fetch("file:///tmp/a.txt", "GET", false) {
        FetchPlan::ReadFile(p) => assert_eq!(p, "/tmp/a.txt"),
        _ => panic!("a file was asked for"),
    }
    let r = file_result("file:///tmp/a.txt", "/tmp/a.txt", Ok("t".to_string()));
    assert_eq!((r.body.as_str(), r.content_type.as_str(), r.status), ("t", "text/plain", 200));
    let r = file_result("file:///x", "/x", Err("gone".to_string()));
    assert_eq!((r.body.as_str(), r.content_type.as_str(), r.status), ("Error reading file: gone", "text/plain", 404));
    let r = error_result("a.org", "down");
    assert_eq!((r.body.as_str(), r.url.as_str(), r.status), ("Error: down", "https://a.org", 0));
}

// --- Cookies ---

#[test]
fn cookies_of_a_response_are_sent_again() {
    let mut f = Fetcher::new_with_set("Personal", None);
    f.receive("x", "GET", false, response("https://a.org/p", &["sid=1; Path=/", " t = 2 ;x", "none", "sid=3"]));
    assert_eq!(f.build_cookie_header("https://a.org/q"), "sid=3; t=2");
    assert_eq!(f.build_cookie_header("https://b.org/"), "");
    assert_eq!(f.build_cookie_header("nonsense"), "");
    assert_eq!(value(&f, "a.org", "t").as_deref(), Some("2"));
    assert_eq!(value(&f, "b.org", "t"), None);
}

#[test]
fn domains_share_cookies_downwards() {
    let loaded = jar(&[("g.com", &[("s", "wide"), ("w", "1")]), ("acc.g.com", &[("s", "own")]), ("com", &[("c", "2")])]);
    let mut f = Fetcher::new_with_set("Personal", Some(loaded));
    assert_eq!(f.build_cookie_header("https://acc.g.com/"), "s=own; w=1; c=2");
    assert_eq!(f.build_cookie_header("https://g.com/"), "s=wide; w=1; c=2");
    assert_eq!(f.build_cookie_header("https://notg.com/"), "c=2");
    assert_eq!(f.cookie_header(Some("acc.g.com")), "s=own; w=1; c=2");
    assert_eq!(f.cookie_header(None), "");
    match f.fetch("acc.g.com", "GET", false) {
        FetchPlan::Request { cookie, .. } => assert_eq!(cookie.as_deref(), Some("s=own; w=1; c=2")),
        _ => panic!("a request was due"),
    }
}

#[test]
fn sets_have_their_own_cookies() {
    let mut f = Fetcher::new_with_set("One", Some(jar(&[("a.org", &[("k", "1")])])));
    assert!(!f.has_jar("Two"));
    assert_eq!(f.set_active_set("Two", None).as_deref(), Some("One"));
    assert_eq!(value(&f, "a.org", "k"), None);
    assert_eq!(f.set_active_set("Two", None), None);
    f.replace_cookies_for_host("a.org", map(&[("k", "2")]));
    assert_eq!(f.set_active_set("One", Some(jar(&[]))).as_deref(), Some("Two"));
    assert_eq!(value(&f, "a.org", "k").as_deref(), Some("1"));
    f.replace_cookies_for_host("a.org", map(&[]));
    assert_eq!(f.jar("One").map(|j| j.len()), Some(0));
    assert_eq!(f.rename_set("Two", "Three", true, Some("/h")), Some(("/h/.scroll/cookies/Two.json".to_string(), "/h/.scroll/cookies/Three.json".to_string())));
    assert!(f.jar("Two").is_none());
    assert!(f.jar("Three").is_some());
    assert_eq!(f.rename_set("One", "First", false, Some("/h")), None);
    assert_eq!(f.active_set_name(), "First");
    assert_eq!(f.rename_set("First", "First", true, Some("/h")), None);
}

#[test]
fn cookies_move_with_a_tab() {
    let loaded = jar(&[("x.g.com", &[("a", "1")]), ("g.com", &[("b", "2")]), ("com", &[("c", "3")])]);
    let mut f = Fetcher::new_with_set("One", Some(loaded));
    let there = jar(&[("g.com", &[("b", "0"), ("d", "4")])]);
    assert!(f.move_cookies_for_host("x.g.com", "One", "Two", None, Some(there)));
    assert_eq!(f.jar("One").map(|j| j.len()), Some(1));
    let two = f.jar("Two").unwrap();
    assert_eq!(two.get("x.g.com").and_then(|m| m.get("a")).map(|s| s.as_str()), Some("1"));
    assert_eq!(two.get("g.com").and_then(|m| m.get("b")).map(|s| s.as_str()), Some("2"));
    assert_eq!(two.get("g.com").and_then(|m| m.get("d")).map(|s| s.as_str()), Some("4"));
    assert!(!f.move_cookies_for_host("x.g.com", "One", "Two", None, None));
    assert!(!f.move_cookies_for_host("x.g.com", "One", "One", None, None));
}

#[test]
fn cookies_of_a_profile_are_taken_over() {
    let mut f = Fetcher::new_with_set("One", Some(jar(&[("g.com", &[("s", "mine"), ("own", "1")])])));
    let rows = vec![
        (".g.com".to_string(), "s".to_string(), "theirs".to_string()),
        (".g.com".to_string(), "n".to_string(), "new".to_string()),
        ("g.com".to_string(), "n".to_string(), "stale".to_string()),
    ];
    assert_eq!(f.import_firefox_cookies(&rows), 3);
    assert_eq!(value(&f, "g.com", "s").as_deref(), Some("theirs"));
    assert_eq!(value(&f, "g.com", "n").as_deref(), Some("new"));
    assert_eq!(value(&f, "g.com", "own").as_deref(), Some("1"));
}

#[test]
fn jars_are_loaded_as_they_were_saved() {
    let f = Fetcher::new_with_set("One", Some(jar(&[("g.com", &[("s", "1"), ("t", "\"")]), ("a.b", &[("x", "")]), ("none", &[])])));
    let (path, text) = f.save_jar("One", Some("/h")).unwrap();
    assert_eq!(path, "/h/.scroll/cookies/One.json");
    assert_eq!(f.save_active_jar(Some("/h")), Some((path, text.clone())));
    assert_eq!(f.save_jar("Two", None), None);
    let back = Fetcher::load_jar(Some(&text));
    assert_eq!(back.len(), 3);
    assert_eq!(back.get("g.com").and_then(|m| m.get("s")).map(|s| s.as_str()), Some("1"));
    assert_eq!(back.get("g.com").and_then(|m| m.get("t")).map(|s| s.as_str()), Some("\""));
    assert_eq!(back.get("a.b").and_then(|m| m.get("x")).map(|s| s.as_str()), Some(""));
    assert_eq!(back.get("none").map(|m| m.len()), Some(0));
    assert!(Fetcher::load_jar(None).is_empty());
    assert!(Fetcher::load_jar(Some("{\"a\": {\"b\": 1}}")).is_empty());
    assert!(Fetcher::load_jar(Some("{\"a\": \"b\"}")).is_empty());
}

#[test]
fn a_set_that_is_gone_leaves_no_cookies() {
    let mut f = Fetcher::new_with_set("One", Some(jar(&[("g.com", &[("s", "1")])])));
    f.forget_set("One");
    assert!(f.has_jar("One"));
    f.set_active_set("Two", None);
    f.forget_set("One");
    assert!(!f.has_jar("One"));
    f.set_active_set("One", None);
    assert_eq!(f.build_cookie_header("https://g.com/"), "");
}

#[test]
fn an_old_jar_is_taken_over_once() {
    assert_eq!(migrate_legacy_cookies_jar("P", true, false, None), Some(("/tmp/.scroll/cookies.json".to_string(), "/tmp/.scroll/cookies/P.json".to_string())));
    assert_eq!(migrate_legacy_cookies_jar("P", true, true, None), None);
    assert_eq!(migrate_legacy_cookies_jar("P", false, false, None), None);
}

// --- Firefox ---

const INI: &str = "[Install4F96]\nDefault=abc.default\nLocked=1\n\n[Profile1]\nName=work\nIsRelative=0\nPath=/data/work\n\n[Profile0]\n Name=default \nIsRelative=1\nPath=abc.default\n";

#[test]
fn profiles_are_found() {
    assert_eq!(default_profile(INI).as_deref(), Some("abc.default"));
    assert_eq!(default_profile("[Profile0]\nDefault=1\n"), None);
    assert_eq!(find_profile(INI, "work"), Some(("/data/work".to_string(), false)));
    assert_eq!(find_profile(INI, "default"), Some(("abc.default".to_string(), true)));
    assert_eq!(find_profile(INI, "none"), None);
    let root = "/h/.mozilla/firefox";
    assert_eq!(resolve_firefox_profile("", false, Some("/h"), Some(INI)), Some(format!("{}/abc.default", root)));
    assert_eq!(resolve_firefox_profile("default", false, Some("/h"), Some(INI)), Some(format!("{}/abc.default", root)));
    assert_eq!(resolve_firefox_profile("work", false, Some("/h"), Some(INI)).as_deref(), Some("/data/work"));
    assert_eq!(resolve_firefox_profile("/p", true, None, None).as_deref(), Some("/p"));
    assert_eq!(resolve_firefox_profile("/p", false, Some("/h"), Some(INI)), None);
    assert_eq!(resolve_firefox_profile("work", false, None, Some(INI)), None);
    assert_eq!(resolve_firefox_profile("work", false, Some("/h"), None), None);
}

#[test]
fn firefox_is_called_with_the_profile() {
    assert_eq!(browse_in_firefox("about:home", None), None);
    assert_eq!(browse_in_firefox("", None), None);
    assert_eq!(browse_in_firefox("u", Some("p")), Some(vec!["-P".to_string(), "p".to_string(), "--new-tab".to_string(), "u".to_string()]));
    assert_eq!(browse_in_firefox("u", Some("")), Some(vec!["--new-tab".to_string(), "u".to_string()]));
}

// --- Blocked hosts ---

#[test]
fn hosts_are_blocked() {
    let list = "# c\n127.0.0.1 localhost\n0.0.0.0 0.0.0.0\n 0.0.0.0  ads.com # x\n0.0.0.0 b.net\n0.0.0.0\n";
    let hosts = parse_hosts(list);
    assert_eq!(hosts, vec!["ads.com".to_string(), "b.net".to_string()]);
    let text = write_hosts(&hosts);
    assert_eq!(text, "ads.com\nb.net");
    let set = load_adblock(&text);
    assert!(is_blocked(&set, "https://ads.com/x.png"));
    assert!(!is_blocked(&set, "https://www.ads.com/x.png"));
    assert!(!is_blocked(&set, "ads.com"));
    assert!(is_blocked(&host_set(&hosts), "http://b.net"));
    assert!(!is_blocked(&load_adblock("#b.net\n\n"), "http://b.net"));
}

// --- Images ---

fn image(src: &str, line: usize, height: usize) -> ImageRef {
    ImageRef { src: src.to_string(), alt: String::new(), line, height }
}

#[test]
fn images_in_sight_are_placed() {
    let v = Viewport { x: 1, y: 3, w: 120, h: 20 };
    let images = vec![image("a", 0, 10), image("b", 12, 10), image("c", 40, 10), image("d", 22, 10), image("e", 5, 2)];
    let plan = compute_image_plan(&images, &vec![true; 5], 5, v);
    let got: Vec<(&str, u16, u16, u16, u16, u16)> = plan.iter().map(|p| (p.path.as_str(), p.y, p.full_w, p.full_h, p.src_top, p.src_visible)).collect();
    assert_eq!(got, vec![
        ("/tmp/scroll_img_a", 3, 40, 10, 5, 5),
        ("/tmp/scroll_img_b", 10, 40, 10, 0, 10),
        ("/tmp/scroll_img_d", 20, 40, 10, 0, 3),
        ("/tmp/scroll_img_e", 3, 40, 2, 0, 2),
    ]);
    let fewer = compute_image_plan(&images, &vec![true, false, true, false, true], 5, v);
    assert_eq!(fewer.len(), 2);
    assert!(same_plan(&plan, &compute_image_plan(&images, &vec![true; 5], 5, v)));
    assert!(!same_plan(&plan, &fewer));
    assert_eq!(gone_images(&plan, &fewer), vec!["/tmp/scroll_img_b".to_string(), "/tmp/scroll_img_d".to_string()]);
    assert!(compute_image_plan(&images, &vec![true; 5], 10, v).iter().all(|p| p.path != "/tmp/scroll_img_a"));
}

#[test]
fn images_are_loaded_once_and_not_from_blocked_hosts() {
    let set = load_adblock("ads.com");
    let images = vec![image("https://ads.com/a", 0, 1), image("https://b.org/b", 0, 1), image("https://b.org/c", 0, 1)];
    let got = start_image_downloads(&images, &vec![false, false, true], &set);
    assert_eq!(got, vec![("https://b.org/b".to_string(), "/tmp/scroll_img_https___b.org_b".to_string())]);
}

#[test]
fn previews_name_an_image() {
    assert!(is_oembed("application/json", "https://x/oembed?u"));
    assert!(!is_oembed("image/png", "https://x/oembed?u"));
    assert_eq!(oembed_thumbnail("{\"a\":1,\"thumbnail_url\":\"https://t\"}").as_deref(), Some("https://t"));
    assert_eq!(oembed_thumbnail("{\"thumbnail_url\":3}"), None);
    assert_eq!(oembed_thumbnail("[]"), None);
    assert_eq!(oembed_thumbnail("bad"), None);
}

// --- The helper ---

fn reply(line: &str) -> Reply {
    match read_response(line) {
        Ok(r) => r,
        Err(e) => panic!("{}", e),
    }
}

#[test]
fn a_command_is_tried_twice() {
    let mut c = DaemonClient::new(Some("/h"));
    assert_eq!(c.socket_path, "/h/.scroll/servo.sock");
    assert!(c.ensure_connected(true) == Connect::TrySocket);
    assert!(c.ensure_connected(false) == Connect::Spawn);
    let s = begin_sending();
    let s = match c.send_command(s, StepResult::Done) {
        NextStep::Continue(s) => s,
        _ => panic!("writing is next"),
    };
    assert!(s == (Sending { retry: false, stage: Stage::Writing }));
    assert!(c.ensure_connected(true) == Connect::Keep);
    let s = match c.send_command(s, StepResult::Failed("broken".to_string())) {
        NextStep::Restart(s) => s,
        _ => panic!("the first failure is tried again"),
    };
    assert!(!c.connected && s.retry);
    let s = match c.send_command(s, StepResult::Done) {
        NextStep::Continue(s) => s,
        _ => panic!("writing is next"),
    };
    match c.send_command(s, StepResult::Failed("broken".to_string())) {
        NextStep::GiveUp(e) => assert_eq!(e, "write: broken"),
        _ => panic!("the second failure counts"),
    }
    let reading = Sending { retry: true, stage: Stage::Reading };
    match c.send_command(reading, StepResult::Done) {
        NextStep::Finished => {}
        _ => panic!("the reply has come"),
    }
    match c.send_command(reading, StepResult::Failed("read: x".to_string())) {
        NextStep::GiveUp(e) => assert_eq!(e, "read: x"),
        _ => panic!("the second failure counts"),
    }
}

#[test]
fn the_helper_is_stopped() {
    let mut c = DaemonClient::new(None);
    assert_eq!(c.socket_path, "/tmp/.scroll/servo.sock");
    assert!(c.shutdown(false) == Shutdown::Gone);
    assert!(c.shutdown(true) == Shutdown::TrySocket);
    c.connected = true;
    assert!(c.shutdown(true) == Shutdown::Ask);
    assert!(!c.connected);
    assert_eq!(log_path(None), "/tmp/.scroll/servo-daemon.log");
    assert_eq!(spawn_timeout("s", "l"), "scroll-servo daemon didn't bind s within 10s \u{2014} check l");
}

#[test]
fn commands_are_json() {
    assert_eq!(navigate_command("https://a/\"b\""), "{\"cmd\":\"navigate\",\"url\":\"https://a/\\\"b\\\"\"}");
    assert_eq!(cookies_command("/j", "u"), "{\"cmd\":\"cookies\",\"for\":\"u\",\"jar\":\"/j\"}");
    assert_eq!(type_command("#a", "x\ny"), "{\"cmd\":\"type\",\"selector\":\"#a\",\"text\":\"x\\ny\"}");
    assert_eq!(type_command("\u{1}\t\u{1f}", "\\\u{8}\u{c}\r\u{7f}\u{e9}/"), "{\"cmd\":\"type\",\"selector\":\"\\u0001\\t\\u001f\",\"text\":\"\\\\\\b\\f\\r\u{7f}\u{e9}/\"}");
    assert_eq!(click_command("#a"), "{\"cmd\":\"click\",\"selector\":\"#a\"}");
    assert_eq!(shutdown_command(), "{\"cmd\":\"shutdown\"}");
}

#[test]
fn replies_are_read() {
    let r = DaemonClient::navigate(&reply("{\"ok\":true,\"html\":\"<p>\",\"frames\":3,\"timed_out\":true}\n"), "u").unwrap();
    assert_eq!((r.html.as_str(), r.url.as_str(), r.frames, r.timed_out), ("<p>", "u", 3, true));
    assert_eq!(DaemonClient::navigate(&reply("{\"ok\":false,\"error\":\"no\"}"), "u").err().as_deref(), Some("no"));
    assert_eq!(DaemonClient::navigate(&reply("{}"), "u").err().as_deref(), Some("unknown"));
    assert_eq!(DaemonClient::install_cookies(&reply("{\"ok\":true,\"installed\":4}")).ok(), Some(4));
    assert_eq!(DaemonClient::install_cookies(&reply("{\"ok\":true,\"installed\":-4}")).ok(), Some(0));
    let r = DaemonClient::click(&reply("{\"ok\":true,\"result\":\"ok\",\"html\":\"h\",\"url\":\"n\"}"), "#a").unwrap();
    assert_eq!((r.html.as_str(), r.url.as_str()), ("h", "n"));
    let r = DaemonClient::type_into(&reply("{\"ok\":true,\"result\":\"ok\",\"html\":\"h\",\"url\":\"n\"}"), "#a").unwrap();
    assert_eq!((r.html.as_str(), r.url.as_str()), ("h", ""));
    assert_eq!(DaemonClient::click(&reply("{\"ok\":true,\"result\":\"not_found\"}"), "#a").err().as_deref(), Some("no element matched selector #a"));
    assert_eq!(DaemonClient::click(&reply("{\"ok\":true,\"result\":\"odd\\n\"}"), "#a").err().as_deref(), Some("unexpected result: Some(\"odd\\n\")"));
    assert_eq!(DaemonClient::type_into(&reply("{\"ok\":true}"), "#a").err().as_deref(), Some("unexpected result: None"));
    assert_eq!(read_response("").err().as_deref(), Some("daemon closed connection"));
    let e = read_response("{bad\n").err().unwrap_or_default();
    assert!(e.starts_with("bad json from daemon: ") && e.ends_with(" (line: {bad\n)"));
}
