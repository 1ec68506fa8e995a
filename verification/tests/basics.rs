use scroll::address::urlencoding;
use scroll::browser::Browser;
use scroll::config::Config;
use scroll::forms::{form_params, submit_form};
use scroll::pages::download_path;
use scroll::strmap::{Duplicate, StrMap};
use scroll::tab::{Form, FormField};
use scroll::text::{fit, join_strings, lines_chars, split_chars};

#[test]
fn maps_keep_one_value_for_each_key() {
    let mut m: StrMap<String> = StrMap::new();
    assert!(m.is_empty());
    m.insert("a".to_string(), "1".to_string());
    m.insert("b".to_string(), "2".to_string());
    m.insert("a".to_string(), "3".to_string());
    assert_eq!((m.len(), m.key_at(0), m.value_at(0).as_str()), (2, "a", "3"));
    assert_eq!(m.get("b").map(|s| s.as_str()), Some("2"));
    let copy = m.duplicate();
    m.remove("a");
    m.remove("none");
    assert!(m.get("a").is_none() && m.contains_key("b"));
    assert_eq!(copy.get("a").map(|s| s.as_str()), Some("3"));
    m.get_mut(0).push('!');
    assert_eq!(m.get("b").map(|s| s.as_str()), Some("2!"));
    assert_eq!((m.place("b"), m.place("z")), (0, 1));
    m.clear();
    assert_eq!(m.len(), 0);
}

#[test]
fn different_texts_have_different_encodings() {
    let texts = ["", " ", "+", "%20", "a b", "a+b", "a%20b", "\u{e9}", "%C3%A9"];
    for (i, a) in texts.iter().enumerate() {
        for (j, b) in texts.iter().enumerate() {
            assert_eq!(urlencoding(a) == urlencoding(b), i == j);
        }
    }
}

#[test]
fn joined_lines_read_back() {
    let all = vec!["a".to_string(), "".to_string(), "b c".to_string()];
    let text: Vec<char> = join_strings(&all, "\n").chars().collect();
    let back: Vec<String> = lines_chars(&text).iter().map(|l| l.iter().collect()).collect();
    assert_eq!(back, all);
    let crlf: Vec<char> = "x\r\ny\r".chars().collect();
    let back: Vec<String> = lines_chars(&crlf).iter().map(|l| l.iter().collect()).collect();
    assert_eq!(back, vec!["x".to_string(), "y\r".to_string()]);
}

#[test]
fn a_query_splits_into_its_parameters() {
    let field = |name: &str| FormField { name: name.to_string(), ..Default::default() };
    let form = Form { action: "u".to_string(), method: "GET".to_string(), fields: vec![field("a"), field("b")], line: 0 };
    let params = form_params(&form, &vec!["1&b=2".to_string(), "=".to_string()]);
    let url = submit_form(&form, &params).url;
    let query: Vec<char> = url["u?".len()..].chars().collect();
    let parts: Vec<String> = split_chars(&query, '&').iter().map(|p| p.iter().collect()).collect();
    assert_eq!(parts, vec!["a=1%26b%3D2".to_string(), "b=%3D".to_string()]);
}

#[test]
fn texts_are_cut_between_characters() {
    assert_eq!(fit("a\u{e9}\u{20ac}\u{1f600}", 6), "a\u{e9}\u{20ac}");
    assert_eq!(fit("a\u{e9}\u{20ac}\u{1f600}", 9), "a\u{e9}\u{20ac}");
    assert_eq!(fit("a\u{e9}\u{20ac}\u{1f600}", 10), "a\u{e9}\u{20ac}\u{1f600}");
    assert_eq!(fit("\u{e9}", 1), "");
}

#[test]
fn a_download_stays_in_its_folder() {
    assert_eq!(download_path("/d", "https://a/../../etc/passwd"), "/d/passwd");
    assert_eq!(download_path("/d", "name"), "/d/name");
}

#[test]
fn going_through_the_sets_comes_back() {
    let mut b = Browser::new(vec!["A".to_string(), "B".to_string()]);
    assert_eq!((b.next_set().set, b.next_set().set, b.prev_set().set, b.prev_set().set), (1, 0, 1, 0));
    assert_eq!(b.tabs.len(), 2);
    assert!(b.running);
    assert_eq!(Config::default().c_active_tab, 220);
}
