use scroll::assistant::{summary_page, summary_request};
use scroll::bars::{main_colors, render_info, render_link, render_status, render_tabs, set_color};
use scroll::browser::{Browser, Deletion};
use scroll::commands::{find_link, key_action, parse_command, parse_link_spec, Action, Command, LinkSpec};
use scroll::config::{bookmarks_path, config_path, cookie_jar_path, load_localstorage, load_passwords, load_quickmarks, load_sets, localstorage_path, save_localstorage, save_passwords, save_quickmarks, save_sets, Bookmark, Config, StorageWrite};
use scroll::forms::{choose_field, editable_fields, field_question, fill_form, form_params, form_prompts, has_password_form, set_field, submit_form, sync_values, values_by_id, FieldPrompt, Filled};
use scroll::help::help_lines;
use scroll::js::JsResult;
use scroll::listings::{find_bookmark, is_quickmark, show_bookmarks, show_jslog};
use scroll::number::{number, parse_number};
use scroll::pages::{changes_to_keep, count_lines, download_path, find_content, find_destination, find_target, focus_next, focus_prev, focused_href, home_page, page_step, script_redirect, scroll_bottom, scroll_down, has_source, scroll_left, scroll_right, scroll_up, whole_text, show_blank, show_fetched, show_home, show_loaded, take_scripts, extend_log, Content, Destination};
use scroll::fetcher::FetchResult;
use scroll::passwords::{lookup_password, password_command};
use scroll::popup::{place_popup, place_preferences, scroll_popup};
use scroll::prefs::{PrefAction, PrefItem, Preferences};
use scroll::search::Search;
use scroll::strmap::StrMap;
use scroll::tab::{Form, FormField, Link, Tab};

fn map(pairs: &[(&str, &str)]) -> StrMap<String> {
    let mut m = StrMap::new();
    for (k, v) in pairs {
        m.insert(k.to_string(), v.to_string());
    }
    m
}

// --- History ---

#[test]
fn back_and_forward_restore_the_page() {
    let mut t = Tab::new("https://a");
    t.ix = 7;
    t.js_log.push("old".to_string());
    t.navigate("https://b");
    assert!(t.js_log.is_empty());
    assert_eq!((t.url.as_str(), t.ix), ("https://b", 0));
    assert!(t.can_go_back() && !t.can_go_forward());
    t.ix = 2;
    assert_eq!(t.go_back().as_deref(), Some("https://a"));
    assert_eq!((t.url.as_str(), t.ix), ("https://a", 7));
    assert_eq!(t.go_back(), None);
    assert_eq!(t.go_forward().as_deref(), Some("https://b"));
    assert_eq!((t.url.as_str(), t.ix), ("https://b", 2));
    assert_eq!(t.go_forward(), None);
    t.go_back();
    t.navigate("https://c");
    assert!(!t.can_go_forward());
}

#[test]
fn a_blank_page_is_not_remembered() {
    let mut t = Tab::new("about:blank");
    t.navigate("https://a");
    assert!(!t.can_go_back());
}

// --- Tabs and sets ---

fn browser() -> Browser {
    let mut b = Browser::new(vec!["One".to_string(), "Two".to_string(), "Three".to_string()]);
    b.open_tab();
    b.open_tab();
    for (i, t) in b.tabs.iter_mut().enumerate() {
        t.title = format!("t{}", i);
    }
    b
}

fn titles(b: &Browser) -> Vec<String> {
    b.tabs.iter().map(|t| t.title.clone()).collect()
}

#[test]
fn stepping_through_tabs() {
    let mut b = browser();
    assert_eq!(b.current_tab, 2);
    b.next_tab();
    assert_eq!(b.current_tab, 0);
    b.prev_tab();
    assert_eq!(b.current_tab, 2);
    b.move_tab_right();
    assert_eq!((titles(&b), b.current_tab), (vec!["t2".to_string(), "t1".to_string(), "t0".to_string()], 0));
    b.move_tab_left();
    assert_eq!((titles(&b), b.current_tab), (vec!["t0".to_string(), "t1".to_string(), "t2".to_string()], 2));
}

#[test]
fn sets_are_entered() {
    let mut b = browser();
    let c = b.next_set();
    assert_eq!((c.set, c.opened, b.current_set, b.current_tab), (1, true, 1, 3));
    b.next_tab();
    assert_eq!(b.current_tab, 3);
    let c = b.prev_set();
    assert_eq!((c.set, c.opened, b.current_tab), (0, false, 0));
    let c = b.prev_set();
    assert_eq!((c.set, c.opened, b.tabs.len()), (2, true, 5));
    assert_eq!(b.next_set().set, 0);
}

#[test]
fn a_closed_tab_comes_back() {
    let mut b = browser();
    b.current_tab = 1;
    assert_eq!(b.close_tab(), None);
    assert_eq!((titles(&b), b.current_tab), (vec!["t0".to_string(), "t2".to_string()], 0));
    assert_eq!(b.undo_close_tab(), Some(0));
    assert_eq!((titles(&b), b.current_tab), (vec!["t0".to_string(), "t1".to_string(), "t2".to_string()], 1));
    assert_eq!(b.undo_close_tab(), None);
    b.next_set();
    assert_eq!(b.close_tab(), Some(0));
    assert_eq!((b.current_set, b.current_tab), (0, 2));
    let mut one = Browser::new(vec!["One".to_string()]);
    assert_eq!(one.close_tab(), None);
    assert!(!one.running);
}

#[test]
fn sets_are_named() {
    let mut b = browser();
    assert_eq!(b.rename_set("  "), None);
    assert_eq!(b.rename_set("One"), None);
    assert_eq!(b.rename_set(" Uno "), Some(("One".to_string(), "Uno".to_string())));
    assert_eq!(b.new_set(""), None);
    assert_eq!(b.new_set("Four"), Some(3));
    assert_eq!((b.current_set, b.current_tab, b.tab_set[3]), (3, 3, 3));
    assert_eq!(b.move_tab_to_set("t"), Some(1));
    assert_eq!((b.tab_set[3], b.current_set), (1, 1));
    assert_eq!(b.move_tab_to_set("THR"), Some(2));
    assert_eq!(b.move_tab_to_set("x"), None);
    assert_eq!(b.move_tab_to_set(" "), None);
    let (name, profile) = b.activation(2, &map(&[("Three", "p"), ("Two", "")]));
    assert_eq!((name.as_deref(), profile.as_deref()), (Some("Three"), Some("p")));
    assert_eq!(b.activation(1, &map(&[("Two", "")])).1, None);
    assert_eq!(b.activation(9, &map(&[])).0, None);
}

#[test]
fn a_set_is_deleted_with_its_tabs() {
    let mut b = browser();
    b.next_set();
    b.next_set();
    b.prev_set();
    for answer in ["", "y", "YES", " yes", "yes ", "yes\n"] {
        match b.delete_current_set(answer) {
            Deletion::Cancelled => {}
            _ => panic!("only a yes counts"),
        }
    }
    match b.delete_current_set("yes") {
        Deletion::Deleted { name, change } => {
            assert_eq!(name, "Two");
            assert_eq!((change.set, change.opened), (1, false));
        }
        _ => panic!("the set goes"),
    }
    assert_eq!(b.sets, vec!["One".to_string(), "Three".to_string()]);
    assert_eq!(b.tab_set, vec![0, 0, 0, 1]);
    assert_eq!((b.current_set, b.current_tab), (1, 3));
    match b.delete_current_set("yes") {
        Deletion::Deleted { change, .. } => assert_eq!((change.set, change.opened), (0, false)),
        _ => panic!("the set goes"),
    }
    match b.delete_current_set("yes") {
        Deletion::LastSet => {}
        _ => panic!("the last set stays"),
    }
}

// --- Keys, commands and links ---

#[test]
fn keys_ask_for_actions() {
    assert!(key_action("j", false) == Action::LineDown);
    assert!(key_action("S-BACK", false) == Action::Forward);
    assert!(key_action("g", false) == Action::Prefix);
    assert!(key_action("g", true) == Action::Top);
    assert!(key_action("n", true) == Action::RenameSet);
    assert!(key_action("n", false) == Action::SearchNext);
    assert!(key_action("j", true) == Action::LineDown);
    assert!(key_action("F12", false) == Action::Ignore);
}

#[test]
fn commands_are_read() {
    assert!(matches!(parse_command(""), Command::Nothing));
    assert!(matches!(parse_command("open"), Command::Nothing));
    assert!(matches!(parse_command("o  a.b "), Command::Open(u) if u == "a.b"));
    assert!(matches!(parse_command("bm"), Command::Bookmark));
    assert!(matches!(parse_command("bm x y"), Command::FindBookmark(q) if q == "x y"));
    assert!(matches!(parse_command("ff"), Command::Browse));
    assert!(matches!(parse_command("qa"), Command::Quit));
    assert!(matches!(parse_command("frob x"), Command::Unknown(c) if c == "frob"));
}

#[test]
fn links_are_chosen_by_number() {
    assert!(matches!(parse_link_spec(" "), LinkSpec::Nothing));
    assert!(matches!(parse_link_spec("42"), LinkSpec::Number(42, false)));
    assert!(matches!(parse_link_spec(" 42 t"), LinkSpec::Number(42, true)));
    assert!(matches!(parse_link_spec("T 7"), LinkSpec::Number(7, true)));
    assert!(matches!(parse_link_spec(" 4x "), LinkSpec::Invalid(s) if s == "4x"));
    assert!(matches!(parse_link_spec("t"), LinkSpec::Invalid(_)));
    let links = vec![Link { index: 1, href: "a".to_string(), text: String::new(), line: 0 }, Link { index: 2, href: "b".to_string(), text: String::new(), line: 0 }];
    assert_eq!(find_link(&links, 2).as_deref(), Some("b"));
    assert_eq!(find_link(&links, 3), None);
    assert_eq!(focused_href(&links, Some(1)).as_deref(), Some("b"));
    assert_eq!(focused_href(&links, Some(2)), None);
    assert_eq!(focused_href(&links, None), None);
    assert_eq!((focus_next(None, 2), focus_next(Some(0), 2), focus_next(Some(1), 2)), (Some(0), Some(1), Some(0)));
    assert_eq!((focus_prev(None, 2), focus_prev(Some(0), 2), focus_prev(Some(1), 2)), (Some(1), Some(1), Some(0)));
    assert_eq!((focus_next(None, 0), focus_prev(Some(3), 0)), (None, Some(3)));
}

#[test]
fn numbers_are_written_and_read() {
    assert_eq!(number(0), "0");
    assert_eq!(number(1203), "1203");
    let read = |s: &str, max: usize| parse_number(&s.chars().collect::<Vec<char>>(), max);
    assert_eq!(read("+12", 100), Some(12));
    assert_eq!(read("101", 100), None);
    assert_eq!(read("", 100), None);
    assert_eq!(read("1a", 100), None);
    assert_eq!(read("9", 5), None);
    assert_eq!(read(&number(usize::MAX), usize::MAX), Some(usize::MAX));
}

// --- Forms ---

fn field(kind: &str, name: &str, id: &str, value: &str) -> FormField {
    FormField {
        field_type: kind.to_string(),
        name: name.to_string(),
        id: id.to_string(),
        value: value.to_string(),
        placeholder: format!("P{}", name),
        options: vec![("a".to_string(), "A".to_string()), ("b".to_string(), "B".to_string())],
        ..Default::default()
    }
}

fn form(method: &str, fields: Vec<FormField>) -> Form {
    Form { action: "https://x.org/go".to_string(), method: method.to_string(), fields, line: 0 }
}

fn show(p: &FieldPrompt) -> (String, String) {
    match p {
        FieldPrompt::Fixed { value } => ("=".to_string(), value.clone()),
        FieldPrompt::Ask { label, initial } => (label.clone(), initial.clone()),
    }
}

#[test]
fn fields_are_asked_for() {
    let f = form("get", vec![
        field("hidden", "csrf", "c", "static"),
        field("password", "pw", "", ""),
        field("select", "s", "", "a"),
        field("text", "user", "", "u"),
        field("text", "city", "", "Oslo"),
        field("text", "email", "e", ""),
    ]);
    let js = map(&[("c", "token"), ("e", "js@x")]);
    let creds = Some(("me".to_string(), "secret".to_string()));
    let got: Vec<(String, String)> = form_prompts(&f, &js, &creds).iter().map(show).collect();
    let want = [("=", "token"), ("pw: ", "secret"), ("s (A/B): ", ""), ("Puser: ", "me"), ("Pcity: ", "Oslo"), ("Pemail: ", "js@x")];
    assert_eq!(got.len(), want.len());
    for (g, w) in got.iter().zip(want.iter()) {
        assert_eq!((g.0.as_str(), g.1.as_str()), *w);
    }
    let bare: Vec<(String, String)> = form_prompts(&f, &map(&[]), &None).iter().map(show).collect();
    assert_eq!(bare[0].1, "static");
    assert_eq!(bare[1].1, "");
    assert_eq!(bare[3].1, "u");
}

#[test]
fn a_form_is_sent() {
    let f = form("GET", vec![field("text", "q", "i", ""), field("text", "r", "", "")]);
    let mut params = form_params(&f, &vec!["a b".to_string(), "c".to_string()]);
    let s = submit_form(&f, &params);
    assert_eq!((s.url.as_str(), s.post), ("https://x.org/go?q=a+b&r=c", false));
    let by_id = values_by_id(&f, &params);
    assert_eq!((by_id.len(), by_id.get("i").map(|s| s.as_str())), (1, Some("a b")));
    sync_values(&f, &mut params, &map(&[("i", "x&y"), ("r", "no")]));
    assert_eq!(submit_form(&f, &params).url, "https://x.org/go?q=x%26y&r=c");
    let mut g = form("Post", Vec::new());
    g.action = "https://x.org/go?z=1".to_string();
    let s = submit_form(&g, &params);
    assert_eq!((s.url.as_str(), s.post), ("https://x.org/go?z=1", true));
    g.method = "get".to_string();
    assert_eq!(submit_form(&g, &map(&[("k", "v")])).url, "https://x.org/go?z=1&k=v");
}

#[test]
fn scripts_may_refuse_or_change_a_form() {
    let f = form("GET", vec![field("text", "q", "i", "")]);
    let params = || form_params(&f, &vec!["typed".to_string()]);
    match fill_form(&f, params(), None) {
        Filled::Sent { submission, .. } => assert_eq!(submission.url, "https://x.org/go?q=typed"),
        Filled::Refused => panic!("no script refuses it"),
    }
    let mut js = JsResult::default();
    js.dom_values.insert("i".to_string(), "set".to_string());
    match fill_form(&f, params(), Some(&js)) {
        Filled::Sent { submission, params } => {
            assert_eq!(submission.url, "https://x.org/go?q=set");
            assert_eq!(params.get("q").map(|s| s.as_str()), Some("set"));
        }
        Filled::Refused => panic!("no script refuses it"),
    }
    js.submit_prevented = true;
    assert!(matches!(fill_form(&f, params(), Some(&js)), Filled::Refused));
}

#[test]
fn a_field_is_chosen_and_edited() {
    let mut f = form("GET", vec![field("hidden", "h", "", ""), field("text", "a", "", "1"), field("text", "b", "", "2")]);
    let e = editable_fields(&f);
    assert_eq!(e, vec![1, 2]);
    assert_eq!(field_question(&f, &e), "Field (1: a, 2: b) #: ");
    assert_eq!(choose_field(&e, "2"), Some(2));
    assert_eq!(choose_field(&e, "0"), None);
    assert_eq!(choose_field(&e, "3"), None);
    assert_eq!(choose_field(&e, "x"), None);
    set_field(&mut f, 2, " new \n");
    assert_eq!((f.fields[1].value.as_str(), f.fields[2].value.as_str()), ("1", "new"));
    assert!(!has_password_form(&vec![f]));
    assert!(has_password_form(&vec![form("GET", vec![field("password", "p", "", "")])]));
}

// --- Passwords ---

#[test]
fn credentials_are_found() {
    assert_eq!(password_command("pass show", "a'b"), "pass show 'a'\\''b'");
    let mut stored = StrMap::new();
    stored.insert("h".to_string(), ("u".to_string(), "p".to_string()));
    let pair = |u: &str, p: &str| Some((u.to_string(), p.to_string()));
    assert_eq!(lookup_password(Some("me\nsecret\nmore"), &stored, "h"), pair("me", "secret"));
    assert_eq!(lookup_password(Some("me\n\n"), &stored, "h"), pair("u", "p"));
    assert_eq!(lookup_password(None, &stored, "h"), pair("u", "p"));
    assert_eq!(lookup_password(Some(""), &stored, "i"), None);
}

// --- Search ---

#[test]
fn a_page_is_searched() {
    let mut s = Search::search("Alpha\n\x1b[1mbe\x1b[22mta\ngamma\nBETA\n\n\nx", "Beta");
    assert_eq!(s.matches, vec![1, 3]);
    assert_eq!((s.position(), s.message().as_str()), (Some(0), " Match 1/2"));
    s.search_next();
    assert_eq!((s.position(), s.message().as_str()), (Some(0), " Match 2/2"));
    s.search_next();
    assert_eq!(s.index, 0);
    s.search_prev();
    assert_eq!(s.index, 1);
    let mut n = Search::search("a", "z");
    n.search_next();
    n.search_prev();
    assert_eq!((n.position(), n.message().as_str()), (None, " No matches"));
    assert!(Search::new().matches.is_empty());
}

// --- Preferences ---

#[test]
fn preferences_are_stepped_and_applied() {
    let mut conf = Config::default();
    let mut p = Preferences::new(&conf);
    assert_eq!(p.items.len(), 20);
    p.apply(&mut conf);
    assert!(conf.match_site_colors);
    p.key("l");
    p.key("j");
    p.key("h");
    assert!(matches!(p.key("ENTER"), PrefAction::Ask { label, initial } if label == "Image mode: " && initial == "off"));
    p.key("DOWN");
    assert!(matches!(p.key("ENTER"), PrefAction::Stay));
    p.key("DOWN");
    p.answer("https://home");
    p.answer("");
    for _ in 0..3 {
        p.key("j");
    }
    assert_eq!(p.items[p.sel].label(), "Info bar fg");
    p.answer("17");
    p.answer("70000");
    p.key("RIGHT");
    assert!(matches!(p.key("q"), PrefAction::Close));
    p.apply(&mut conf);
    assert!(!conf.match_site_colors && conf.show_images);
    assert_eq!((conf.image_mode.as_str(), conf.homepage.as_str(), conf.c_info_fg, conf.c_info_bg), ("off", "https://home", 18, 236));
    for _ in 0..40 {
        p.key("j");
    }
    assert_eq!(p.sel, 19);
    let lines = p.lines();
    assert_eq!(lines.len(), 24);
    assert_eq!(lines[0], " \x1b[38;5;81m\x1b[1mPreferences\x1b[22m\x1b[39m");
    assert_eq!(lines[2], " Match site colors    \x1b[38;5;196mNO\x1b[39m  ");
    assert_eq!(lines[21], " \x1b[7mHeading h3        \x1b[27m \u{25C0} \x1b[38;5;208m\u{2588}\u{2588}\u{2588}\x1b[39m 208 \u{25B6}");
}

#[test]
fn values_of_preferences() {
    let mut c = PrefItem::Color("c", 255);
    c.next();
    assert_eq!(c.display(), "\x1b[38;5;0m\u{2588}\u{2588}\u{2588}\x1b[39m   0");
    c.prev();
    assert!(matches!(c, PrefItem::Color(_, 255)));
    let mut d = PrefItem::Color("d", 65535);
    d.next();
    assert!(matches!(d, PrefItem::Color(_, 0)));
    let mut o = PrefItem::Choice("o", vec!["a", "b"], "zzz".to_string());
    o.next();
    assert_eq!(o.display(), "\x1b[38;5;81mb\x1b[39m");
    assert_eq!(PrefItem::Text("t", "x".repeat(25)).display(), "x".repeat(25));
    assert_eq!(PrefItem::Text("t", "x".repeat(26)).display(), format!("{}...", "x".repeat(22)));
    assert_eq!(PrefItem::Text("t", "\u{20ac}".repeat(10)).display(), format!("{}...", "\u{20ac}".repeat(7)));
}

// --- Windows ---

#[test]
fn windows_are_placed_and_scrolled() {
    assert_eq!(place_popup(100, 50, 72, 28), (14, 11, 72, 28));
    assert_eq!(place_popup(3, 10, 72, 28), (1, 2, 0, 6));
    assert_eq!(place_preferences(80, 24, 20), (12, 3, 56, 18));
    assert_eq!(scroll_popup(0, 70, 26, "j", true), Some(1));
    assert_eq!(scroll_popup(44, 70, 26, "j", true), Some(44));
    assert_eq!(scroll_popup(30, 70, 26, " ", true), Some(44));
    assert_eq!(scroll_popup(10, 70, 26, "PgUP", true), Some(0));
    assert_eq!(scroll_popup(10, 70, 26, "G", true), Some(44));
    assert_eq!(scroll_popup(10, 70, 26, "g", true), Some(0));
    assert_eq!(scroll_popup(0, 70, 26, "UP", true), Some(0));
    assert_eq!(scroll_popup(5, 70, 26, "?", true), None);
    assert_eq!(scroll_popup(5, 70, 26, "?", false), Some(5));
    assert_eq!(scroll_popup(5, 70, 26, "q", false), None);
    let help = help_lines();
    assert_eq!(help.len(), 71);
    assert_eq!(help[0], " \x1b[38;5;81m\x1b[1mScroll \u{2014} Terminal Web Browser\x1b[22m\x1b[39m");
    assert_eq!(help[3], "   j / k   \u{2193} / \u{2191}      line down / up");
    assert_eq!(help[70], "\x1b[38;5;245m j/k or \u{2193}/\u{2191} scroll \u{b7} ESC / q / ? close\x1b[39m");
}

// --- Lines around the page ---

#[test]
fn the_title_and_the_status() {
    let mut t = Tab::new("https://a");
    assert_eq!(render_info(&t), " https://a");
    t.navigate("https://b");
    t.navigate("https://c");
    t.go_back();
    t.title = "B".to_string();
    assert_eq!(render_info(&t), " \u{25C0} B \u{25B6}");
    assert_eq!(render_status(2, "u", "v1", 40), " 2 links | ? help | : command | u    v1");
    assert_eq!(render_status(0, "u", "v1", 5), " ? help | : command | uv1");
}

#[test]
fn the_tab_line() {
    let mut b = Browser::new(vec!["One".to_string(), "Two".to_string()]);
    let conf = Config::default();
    let chips = "\x1b[1m\x1b[38;5;172m [One: 1] \x1b[39m\x1b[22m\x1b[38;5;171m Two: 0 \x1b[39m";
    assert_eq!(render_tabs(&b, &conf), chips);
    b.open_tab();
    b.tabs[0].title = "abcdefghijklmnopqrstuvwxyz".to_string();
    let line = render_tabs(&b, &conf);
    assert!(line.starts_with("\x1b[1m\x1b[38;5;172m [One: 2] "));
    assert!(line.ends_with("  \x1b[38;5;244m abcdefghijklmnopqrst \x1b[39m\u{2502}\x1b[1m\x1b[38;5;255m about:blank \x1b[39m\x1b[22m"));
    assert_eq!(set_color(&conf, 7), 171);
    let mut plain = Config::default();
    plain.set_colors.clear();
    assert_eq!(set_color(&plain, 7), 220);
}

#[test]
fn links_and_colors_on_show() {
    let conf = Config::default();
    let l = Link { index: 3, href: "h".to_string(), text: "t".to_string(), line: 0 };
    assert_eq!(render_link(&l, &conf), " \x1b[38;5;39m[3]\x1b[39m \x1b[7mt\x1b[27m \x1b[38;5;245mh\x1b[39m");
    assert_eq!(main_colors(&conf, Some(1), None), Some((1, 0)));
    assert_eq!(main_colors(&conf, None, Some(2)), Some((252, 2)));
    let mut off = Config::default();
    off.match_site_colors = false;
    assert_eq!(main_colors(&off, Some(1), Some(2)), None);
}

// --- Lists ---

#[test]
fn bookmarks_are_listed_and_found() {
    let bms = vec![
        Bookmark { url: "u1".to_string(), title: "Rust Lang".to_string() },
        Bookmark { url: "u2".to_string(), title: "rusty".to_string() },
    ];
    assert_eq!(show_bookmarks(&bms), "\x1b[1mBookmarks\x1b[22m\n\n  \x1b[38;5;220m 1\x1b[39m \x1b[4m\x1b[38;5;81mRust Lang\x1b[39m\x1b[24m \x1b[38;5;245mu1\x1b[39m\n  \x1b[38;5;220m 2\x1b[39m \x1b[4m\x1b[38;5;81mrusty\x1b[39m\x1b[24m \x1b[38;5;245mu2\x1b[39m");
    let many: Vec<Bookmark> = (0..10).map(|_| Bookmark::default()).collect();
    assert!(show_bookmarks(&many).contains("\x1b[38;5;220m10\x1b[39m"));
    assert_eq!(find_bookmark(&bms, "LANG").as_deref(), Some("u1"));
    assert_eq!(find_bookmark(&bms, "y").as_deref(), Some("u2"));
    assert_eq!(find_bookmark(&bms, "go"), None);
    assert!(is_quickmark("a") && !is_quickmark("F1") && !is_quickmark("\u{e9}"));
}

#[test]
fn the_script_log_is_colored() {
    let lines = show_jslog(&vec!["[error] e".to_string(), "[log] l".to_string()]);
    assert_eq!(lines.len(), 6);
    assert_eq!(lines[2], " \x1b[38;5;196m[error] e\x1b[39m");
    assert_eq!(lines[3], " [log] l");
}

// --- Pages ---

fn result(content_type: &str, url: &str, body: &str) -> FetchResult {
    FetchResult { body: body.to_string(), content_type: content_type.to_string(), url: url.to_string(), status: 200 }
}

#[test]
fn addresses_lead_somewhere() {
    assert!(find_destination("mailto:a@b") == Destination::Mail);
    assert!(find_destination("about:blank") == Destination::Blank);
    assert!(find_destination("about:home") == Destination::Home);
    assert!(find_destination("about:else") == Destination::Page);
    let (to, url) = find_target(" mailto:a@b.org ", "g");
    assert!(to == Destination::Mail);
    assert_eq!(url, "mailto:a@b.org");
    let (to, url) = find_target("about:home", "g");
    assert!(to == Destination::Home);
    assert_eq!(url, "about:home");
    let (to, url) = find_target("a.org", "g");
    assert!(to == Destination::Page);
    assert_eq!(url, "https://a.org");
    let (to, url) = find_target("w mailto:", "g");
    assert!(to == Destination::Page);
    assert_eq!(url, "https://en.wikipedia.org/wiki/Special:Search?search=mailto%3A");
    assert!(find_content("image/png") == Content::Image);
    assert!(find_content("application/xhtml+xml") == Content::Html);
    assert!(find_content("video/mp4") == Content::Binary);
    assert!(find_content("text/plain") == Content::Text);
    assert_eq!(script_redirect("https://a/b", "c").as_deref(), Some("https://a/c"));
    assert_eq!(script_redirect("https://a/b", "https://a/b"), None);
    assert_eq!(script_redirect("https://a/b", ""), None);
}

#[test]
fn what_of_a_page_is_kept_or_edited() {
    let mut js = JsResult::default();
    assert_eq!(changes_to_keep("h", &js), (false, false));
    js.cookies_dirty = true;
    assert_eq!(changes_to_keep("h", &js), (true, false));
    js.localstorage_dirty = true;
    assert_eq!(changes_to_keep("h", &js), (true, true));
    assert_eq!(changes_to_keep("", &js), (false, false));
    assert!(has_source("https://a") && !has_source("about:home"));
    let mut r = result("text/html", "https://a", "b");
    assert_eq!(whole_text(&r), Some("b"));
    r.status = 404;
    assert_eq!(whole_text(&r), None);
}

#[test]
fn pages_of_its_own() {
    let mut t = Tab::new("https://a");
    show_home(&mut t, "about:home");
    assert_eq!((t.url.as_str(), t.title.as_str()), ("about:home", "Home"));
    assert!(t.can_go_back());
    let lines: Vec<String> = home_page().split('\n').map(|l| crust::strip_ansi(l)).collect();
    assert_eq!(lines, vec!["scroll", "", "Terminal web browser", "", "o Open URL   t New tab   ? Help", "b Bookmark   B Bookmarks  q Quit", ": Command    P Preferences", ""]);
    show_blank(&mut t, "about:blank");
    assert_eq!((t.content.as_str(), t.title.as_str()), ("", "New Tab"));
}

#[test]
fn pages_that_were_loaded() {
    let conf = Config::default();
    let mut t = Tab::new("x");
    show_fetched(&mut t, "q", result("image/png", "https://a/b/c.png", ""), 80, 3, &conf);
    assert_eq!((t.title.as_str(), t.images[0].height, t.images[0].alt.as_str()), ("c.png", 3, "c.png"));
    assert_eq!(crust::strip_ansi(&t.content), "\n\n\n\nc.png\nhttps://a/b/c.png");
    show_fetched(&mut t, "q", result("text/html", "https://a/p", "<title>T</title>x"), 80, 3, &conf);
    assert_eq!((t.title.as_str(), t.url.as_str(), t.content.as_str(), t.images.len()), ("T", "https://a/p", "x", 0));
    show_fetched(&mut t, "https://a/f.pdf", result("application/pdf", "https://a/f.pdf", "%"), 80, 3, &conf);
    assert_eq!(crust::strip_ansi(&t.content), "\nf.pdf\n\nType: application/pdf\n\nPress ':download https://a/f.pdf' to save");
    show_fetched(&mut t, "asked", result("text/plain", "https://a/t", "text"), 80, 3, &conf);
    assert_eq!((t.content.as_str(), t.title.as_str()), ("text", "asked"));
    show_loaded(&mut t, result("text/plain", "https://a/u", "more"), 80, &conf);
    assert_eq!((t.content.as_str(), t.title.as_str(), t.url.as_str()), ("more", "asked", "https://a/u"));
    show_loaded(&mut t, result("text/html", "https://a/v", "<title>V</title>v"), 80, &conf);
    assert_eq!((t.content.as_str(), t.title.as_str()), ("v", "V"));
    assert_eq!(download_path("/d", "https://a/b/c.zip"), "/d/c.zip");
}

#[test]
fn scripts_leave_their_traces() {
    let mut t = Tab::new("x");
    let mut js = JsResult::default();
    js.log.push("[log] a".to_string());
    js.scripts.push("1".to_string());
    js.dom_values.insert("i".to_string(), "v".to_string());
    take_scripts(&mut t, &js, "<html>");
    assert_eq!((t.js_log.len(), t.js_scripts.len(), t.raw_html.as_str()), (1, 1, "<html>"));
    take_scripts(&mut t, &JsResult::default(), "b");
    assert_eq!(t.js_dom_values.get("i").map(|s| s.as_str()), Some("v"));
    extend_log(&mut t, &vec!["x".to_string(), "y".to_string()]);
    assert_eq!(t.js_log, vec!["x".to_string(), "y".to_string()]);
}

#[test]
fn scrolling_stays_on_the_page() {
    assert_eq!(count_lines("a\nb\n"), 2);
    assert_eq!(scroll_down(0, 5, 100, 20), 5);
    assert_eq!(scroll_down(78, 5, 100, 20), 80);
    assert_eq!(scroll_down(90, 5, 100, 20), 90);
    assert_eq!(scroll_up(3, 5), 0);
    assert_eq!((page_step(20), page_step(1)), (18, 0));
    assert_eq!((scroll_bottom(100, 20), scroll_bottom(10, 20)), (80, 0));
    assert_eq!((scroll_left(15), scroll_left(5)), (5, 0));
    assert_eq!((scroll_right(5), scroll_right(usize::MAX - 3)), (15, usize::MAX));
}

// --- Files ---

#[test]
fn what_is_stored_is_loaded_again() {
    let sets = vec!["One".to_string(), "T\"w\u{e9}\n".to_string()];
    assert_eq!(save_sets(&sets), "[\n  \"One\",\n  \"T\\\"w\u{e9}\\n\"\n]");
    assert_eq!(load_sets(Some(&save_sets(&sets))), sets);

    let data = map(&[("token", "a b"), ("", "empty"), ("k\\", "")]);
    let text = match save_localstorage("s", "h", &data, None) {
        StorageWrite::Write(_, text) => text,
        StorageWrite::Remove(_) => panic!("there is something to store"),
    };
    let back = load_localstorage(Some(&text));
    assert_eq!(back.len(), 3);
    for k in ["token", "", "k\\"] {
        assert_eq!(back.get(k), data.get(k));
    }
    assert!(load_localstorage(None).is_empty());
    assert!(load_localstorage(Some("")).is_empty());
    assert!(load_localstorage(Some("[]")).is_empty());
    assert!(load_localstorage(Some("{\"a\": \"b\", \"c\": 1}")).is_empty());
    assert_eq!(load_localstorage(Some("{\"a\": \"x\", \"a\": \"y\"}")).get("a").map(|s| s.as_str()), Some("y"));

    let mut marks: StrMap<(String, String)> = StrMap::new();
    marks.insert("a".to_string(), ("https://a".to_string(), "A".to_string()));
    marks.insert("b".to_string(), ("https://b".to_string(), "".to_string()));
    let back = load_quickmarks(Some(&save_quickmarks(&marks)));
    assert_eq!((back.get("a"), back.get("b"), back.len()), (marks.get("a"), marks.get("b"), 2));
    let back = load_passwords(Some(&save_passwords(&marks)));
    assert_eq!((back.get("a"), back.get("b"), back.len()), (marks.get("a"), marks.get("b"), 2));
    assert!(load_quickmarks(Some("{\"a\": [\"x\"]}")).is_empty());
    assert!(load_quickmarks(Some("{\"a\": [\"x\", \"y\", \"z\"]}")).is_empty());
    assert!(load_passwords(Some("{\"a\": [\"x\", [\"y\"]]}")).is_empty());
    assert!(load_passwords(Some("{\"a\": \"x\"}")).is_empty());
}

#[test]
fn files_are_under_the_home_directory() {
    assert_eq!(config_path(Some("/h")), "/h/.scroll/config.json");
    assert_eq!(bookmarks_path(None), "/tmp/.scroll/bookmarks.json");
    assert_eq!(cookie_jar_path("../Work set", Some("/h/")), "/h/.scroll/cookies/___Work_set.json");
    assert_eq!(cookie_jar_path("", Some("/h")), "/h/.scroll/cookies/_.json");
    assert_eq!(localstorage_path("a/b", "x.y:80", Some("/h")), "/h/.scroll/localstorage/a_b/x.y_80.json");
    assert!(matches!(save_localstorage("s", "h", &map(&[]), Some("/h")), StorageWrite::Remove(p) if p == "/h/.scroll/localstorage/s/h.json"));
    assert!(matches!(save_localstorage("s", "h", &map(&[("a", "b")]), Some("/h")), StorageWrite::Write(p, text) if p == "/h/.scroll/localstorage/s/h.json" && text == "{\n  \"a\": \"b\"\n}"));
    assert_eq!(load_sets(None), vec!["Personal".to_string(), "PassionFruits".to_string(), "Dualog".to_string()]);
    assert_eq!(load_sets(Some("[]")).len(), 3);
    assert_eq!(load_sets(Some("[\"X\", 1]")).len(), 3);
    assert_eq!(load_sets(Some("{\"X\": \"Y\"}")).len(), 3);
    assert_eq!(load_sets(Some("[\"X\"")).len(), 3);
    assert_eq!(load_sets(Some(" [\"X\", \"Y z\"]\n")), vec!["X".to_string(), "Y z".to_string()]);
}

#[test]
fn settings_have_defaults() {
    let c = Config::for_home(Some("/h"));
    assert_eq!((c.homepage.as_str(), c.search_engine.as_str(), c.download_folder.as_str(), c.image_mode.as_str()), ("about:home", "g", "/h/Downloads", "auto"));
    assert_eq!((c.c_link, c.c_link_num, c.c_h1, c.c_h2, c.c_h3), (81, 39, 220, 214, 208));
    assert_eq!(c.set_colors, vec![172, 171, 72, 220, 121, 217]);
    assert_eq!(Config::default().download_folder, "/Downloads");
}

// --- Summaries ---

#[test]
fn a_summary_is_asked_for_and_shown() {
    let req = summary_request("T", "u", "\x1b[1mbo\"ld\x1b[22m");
    assert_eq!(req, "{\"max_tokens\":600,\"messages\":[{\"content\":\"Summarize this web page concisely.\\nTitle: T\\nURL: u\\n\\nbo\\\"ld\",\"role\":\"user\"}],\"model\":\"gpt-4o-mini\"}");
    assert!(summary_request("T", "u", &"\u{20ac}".repeat(2000)).contains(&"\u{20ac}".repeat(1333)));
    assert!(!summary_request("T", "u", &"\u{20ac}".repeat(2000)).contains(&"\u{20ac}".repeat(1334)));
    let reply = "{\"choices\":[{\"message\":{\"role\":\"a\",\"content\":\"Short.\"}},{}]}";
    assert_eq!(summary_page(reply).as_deref(), Some("\x1b[1mAI Summary\x1b[22m\n\nShort."));
    assert_eq!(summary_page("{\"choices\":[]}").as_deref(), Some("\x1b[1mAI Summary\x1b[22m\n\nNo response"));
    assert_eq!(summary_page("oops"), None);
}
