use scroll::colors::{extract_css_color, parse_color};
use scroll::config::Config;
use scroll::highlight::{highlight_link, highlight_token};
use scroll::renderer::{extract_youtube_id, image_height, render_html, RenderResult};
use scroll::tab::Link;
use scroll::table::collapse_whitespace;

fn page(html: &str, width: usize) -> RenderResult {
    render_html(html, width, "https://example.com/dir/page", &Config::default())
}

fn plain(html: &str, width: usize) -> String {
    crust::strip_ansi(&page(html, width).text)
}

#[test]
fn a_page_with_title_heading_and_link() {
    let r = page("<html><head><title> My Page </title></head><body><h1>Hi</h1><p>Hello <a href='/x'>link</a></p></body></html>", 80);
    assert_eq!(r.title, "My Page");
    let lines: Vec<&str> = r.text.split('\n').collect();
    assert_eq!(lines.len(), 5);
    assert_eq!(lines[0], "\x1b[1m\x1b[38;5;220mHi\x1b[39m\x1b[22m");
    assert_eq!(lines[1], "\x1b[38;5;220m\u{2550}\u{2550}\x1b[39m");
    assert_eq!(lines[2], "");
    assert_eq!(lines[3], "Hello \x1b[4m\x1b[38;5;81mlink\x1b[39m\x1b[24m\x1b[38;5;39m[1]\x1b[39m");
    assert_eq!(lines[4], "");
    assert_eq!(r.links.len(), 1);
    assert_eq!(r.links[0].index, 1);
    assert_eq!(r.links[0].href, "https://example.com/x");
    assert_eq!(r.links[0].text, "link");
    assert_eq!(r.links[0].line, 3);
}

#[test]
fn words_wrap_at_the_width() {
    assert_eq!(plain("<body>aaa bbb ccc ddd</body>", 8), "aaa bbb\nccc ddd");
    assert_eq!(plain("<body>aaaaaaaaaaaa b</body>", 8), "aaaaaaaaaaaa\nb");
}

#[test]
fn links_are_numbered_in_order() {
    let r = page("<body><a href='a'>A</a><a href='#'>no</a><a href='javascript:x'>no</a><a>no</a><a href='https://o.org'>B</a><a href='//c.net/'></a></body>", 80);
    let got: Vec<(usize, String, String)> = r.links.iter().map(|l| (l.index, l.href.clone(), l.text.clone())).collect();
    assert_eq!(got, vec![
        (1, "https://example.com/dir/a".to_string(), "A".to_string()),
        (2, "https://o.org".to_string(), "B".to_string()),
        (3, "https://c.net/".to_string(), "//c.net/".to_string()),
    ]);
    let total = r.text.split('\n').count();
    assert!(r.links.iter().all(|l| l.line < total));
}

#[test]
fn lists_are_marked_and_indented() {
    assert_eq!(plain("<body><ul><li>one</li><li>two</li></ul></body>", 80), "\n  \u{2022}  one\n  \u{2022}  two");
    assert_eq!(plain("<body><ol><li>one</li><li>two</li></ol>after</body>", 80), "\n  1.  one\n  2.  two after");
    assert_eq!(plain("<body><li>loose</li></body>", 80), "\n\u{2022}  loose");
}

#[test]
fn quotes_and_preformatted_text() {
    assert_eq!(plain("<body><blockquote>q</blockquote></body>", 80), "  q\n");
    assert_eq!(plain("<body><pre>a  b\n c</pre></body>", 80), "a  b\n c\n");
    assert_eq!(page("<body><pre>x</pre></body>", 80).text, "\x1b[38;5;186mx\x1b[39m\n");
}

#[test]
fn rules_and_styles() {
    assert_eq!(plain("<body><hr></body>", 5), "\u{2500}".repeat(5));
    assert_eq!(plain("<body><hr></body>", 100), "\u{2500}".repeat(60));
    assert_eq!(page("<body><b>x</b><i>y</i><u>z</u><del>w</del><code>c</code></body>", 80).text,
        "\x1b[1mx\x1b[22m\x1b[3my\x1b[23m\x1b[4mz\x1b[24m\x1b[38;5;240mw\x1b[39m\x1b[38;5;186mc\x1b[39m");
    assert_eq!(plain("<body>a<br>b<script>no</script><style>no</style></body>", 80), "a\nb");
}

#[test]
fn images_take_lines() {
    let r = page("<body>t<img src='a.png' alt='pic'><img src='b.png' width=5><img data-src='c.png' height=20><img src='d.png' height=50><img></body>", 80);
    let got: Vec<(String, usize, usize)> = r.images.iter().map(|i| (i.src.clone(), i.line, i.height)).collect();
    assert_eq!(got, vec![
        ("https://example.com/dir/a.png".to_string(), 1, 10),
        ("https://example.com/dir/c.png".to_string(), 11, 1),
        ("https://example.com/dir/d.png".to_string(), 12, 3),
    ]);
    assert_eq!(r.images[0].alt, "pic");
    assert_eq!(image_height(None, None), 10);
    assert_eq!(image_height(Some(5), Some(100)), 0);
    assert_eq!(image_height(Some(6), None), 1);
    assert_eq!(image_height(Some(31), Some(31)), 2);
    assert_eq!(image_height(None, Some(100000)), 10);
}

#[test]
fn an_anchor_around_an_image() {
    let r = page("<body><a href='/p'><img src='a.png'>  </a></body>", 80);
    assert_eq!(r.images.len(), 1);
    assert_eq!(r.links[0].text, "image link");
    assert_eq!(r.links[0].line, 10);
}

#[test]
fn forms_and_their_fields() {
    let html = "<body><form action='/go' method='post'><input type=HIDDEN name=h value=1><input name=q placeholder=Query><input type=password name=pw><select name=s id=sel><option value=a> A </option><option>B</option></select><textarea name=t>txt</textarea><input type=submit value=Go><button name=b>  Send   it </button><button type=button>no</button></form></body>";
    let r = page(html, 80);
    assert_eq!(r.forms.len(), 1);
    let f = &r.forms[0];
    assert_eq!((f.action.as_str(), f.method.as_str()), ("https://example.com/go", "POST"));
    let kinds: Vec<(&str, &str, &str, &str)> = f.fields.iter().map(|x| (x.field_type.as_str(), x.name.as_str(), x.value.as_str(), x.render_token.as_str())).collect();
    assert_eq!(kinds, vec![
        ("hidden", "h", "1", ""),
        ("text", "q", "", "[Query: ________]"),
        ("password", "pw", "", "[pw: \u{25CF}\u{25CF}\u{25CF}\u{25CF}]"),
        ("select", "s", "a", "[s \u{25BC}]"),
        ("textarea", "t", "txt", "[t: ________]"),
        ("submit", "", "Go", "[Go]"),
        ("submit", "b", "Send it", "[Send it]"),
    ]);
    assert_eq!(f.fields[3].options, vec![("a".to_string(), "A".to_string()), ("".to_string(), "B".to_string())]);
    assert_eq!(f.fields[3].id, "sel");
    assert_eq!(plain(html, 80), "[Form]\n[Query: ________]\n[pw: \u{25CF}\u{25CF}\u{25CF}\u{25CF}]\n[s \u{25BC}]\n[t: ________]\n[Go] [Send it] [no] \n");
    assert_eq!(page("<body><input name=lost></body>", 80).forms.len(), 0);
    let m = page("<body><form></form></body>", 80);
    assert_eq!((m.forms[0].action.as_str(), m.forms[0].method.as_str()), ("https://example.com/dir/page", "GET"));
}

#[test]
fn links_and_fields_stand_on_their_lines() {
    let html = "<body><p>one <a href='/a'>first</a></p><ul><li><a href='/b'>second</a></li></ul><form action='/go'><input name=q placeholder=Query><textarea name=t>txt</textarea><input type=submit value=Go></form><p><a href='/c'>third</a></p></body>";
    let r = page(html, 40);
    let lines: Vec<&str> = r.text.split('\n').collect();
    assert_eq!(r.links.len(), 3);
    for (k, l) in r.links.iter().enumerate() {
        assert!(lines[l.line].contains(&format!("[{}]", k + 1)));
    }
    assert_eq!(r.forms[0].fields.len(), 3);
    for f in r.forms[0].fields.iter() {
        assert!(!f.render_token.is_empty());
        assert!(lines[f.line].contains(&f.render_token));
    }
}

#[test]
fn a_table_that_fits_is_a_box() {
    let html = "<body><table><tr><th>Name</th><th>N</th></tr><tr><td> a
  b </td><td>1</td></tr><tr><td></td></tr></table></body>";
    let want = "\u{250C}\u{2500}\u{2500}\u{2500}\u{2500}\u{2500}\u{2500}\u{252C}\u{2500}\u{2500}\u{2500}\u{2510}
\u{2502} Name \u{2502} N \u{2502}
\u{251C}\u{2500}\u{2500}\u{2500}\u{2500}\u{2500}\u{2500}\u{253C}\u{2500}\u{2500}\u{2500}\u{2524}
\u{2502} a b  \u{2502} 1 \u{2502}
\u{2514}\u{2500}\u{2500}\u{2500}\u{2500}\u{2500}\u{2500}\u{2534}\u{2500}\u{2500}\u{2500}\u{2518}
";
    assert_eq!(plain(html, 12), want);
    assert_eq!(plain(html, 11), "0: Name\n1: N\n\n0: a b\n1: 1\n");
}

#[test]
fn layout_tables_are_walked() {
    assert_eq!(plain("<body><table><tr><td>a</td></tr></table></body>", 80), "a");
    assert_eq!(plain("<body><table><tr><th>x<table><tr><td>y</td></tr></table></th></tr></table></body>", 80), "x y");
}

#[test]
fn videos_become_links() {
    let r = page("<body><iframe src='https://www.youtube.com/embed/abc?x=1'></iframe><iframe src='https://o.org/embed/z'></iframe></body>", 80);
    assert_eq!(r.links.len(), 1);
    assert_eq!(r.links[0].href, "https://www.youtube.com/watch?v=abc");
    assert_eq!(crust::strip_ansi(&r.text), "\u{25B6} YouTube Video [1]");
    assert_eq!(extract_youtube_id("x/embed/id/more").as_deref(), Some("id"));
    assert_eq!(extract_youtube_id("x/embed/?y"), None);
    assert_eq!(extract_youtube_id("youtu.be/abc"), None);
}

#[test]
fn hidden_elements_are_left_out() {
    assert_eq!(plain("<body><div style=\"display:none\">preview</div><p>real</p></body>", 80), "real\n");
    assert_eq!(plain("<body><div style=\"display:block\">shown</div></body>", 80), "shown\n");
    let r = render_html("<body><p style=\"opacity:0.8\">shown</p><p style=\"opacity:0\">gone</p></body>", 80, "https://e.com/", &Config::default());
    assert!(r.text.contains("shown") && !r.text.contains("gone"));
    for style in ["opacity:0.8", "opacity: 0.05", "max-height:0.5em", "max-width:01", "fill-opacity:0", "x-display:none", "display:nonesuch", "color:red", "/* opacity:0; */", "opacity:0/*x*/.8", "max-height:0.5dvh"] {
        let html = format!("<body><p style=\"{}\">shown</p></body>", style);
        assert!(page(&html, 80).text.contains("shown"), "{}", style);
        let html = format!("<body><p style=\"color:red;{};top:0\">shown</p></body>", style);
        assert!(page(&html, 80).text.contains("shown"), "{}", style);
    }
    for style in ["opacity:0", "opacity : 0.00", "max-height:0", "max-height:0px", "max-width: 0px ", "visibility:hidden", "DISPLAY:none !important", "color:red; display:none;top:0", "color:red;\n opacity:0;", "display:none/*x*/", "/*x*/display:none", "/**/display:none /* y */ /* z */;top:0", "background:url(http://e.com/a/b);display:none", "display:none/*open", "max-height:0dvh", "max-height:0em", "max-width:0%", "opacity:0%", "opacity:00.0"] {
        let html = format!("<body><p class=\"a\" style=\"{}\" id=x>gone</p>kept</body>", style);
        let text = page(&html, 80).text;
        assert!(!text.contains("gone") && text.contains("kept"), "{}", style);
    }
    assert!(page("<body><p data-style=\"display:none\">shown</p></body>", 80).text.contains("shown"));
}

#[test]
fn colors_of_a_site() {
    let r = page("<body bgcolor='#ff0000' text=white>x</body>", 80);
    assert_eq!((r.site_bg, r.site_fg), (Some(196), Some(255)));
    let r = page("<head><style>body { background: #fff; } a { color: Red }</style></head><body>x</body>", 80);
    assert_eq!((r.site_bg, r.site_fg), (Some(231), Some(196)));
    let r = render_html("<body bgcolor=black>x</body>", 80, "file:///tmp/x.html", &Config::default());
    assert_eq!((r.site_bg, r.site_fg), (None, None));
    assert_eq!(page("<body>x</body>", 80).site_bg, None);
}

#[test]
fn colors_are_read() {
    assert_eq!(parse_color(" #000 "), Some(16));
    assert_eq!(parse_color("#808080"), Some(243));
    assert_eq!(parse_color("#00ff00"), Some(46));
    assert_eq!(parse_color("#12345"), None);
    assert_eq!(parse_color("#\u{20ac}\u{20ac}"), None);
    assert_eq!(parse_color("YELLOW"), Some(226));
    assert_eq!(parse_color("mauve"), None);
    assert_eq!(extract_css_color("a{color: red ;}", "color").as_deref(), Some("red"));
    assert_eq!(extract_css_color("a{color: red", "color"), None);
    assert_eq!(extract_css_color("a{}", "color"), None);
}

#[test]
fn whitespace_collapses() {
    assert_eq!(collapse_whitespace("  a \n\t b  "), "a b ");
    assert_eq!(collapse_whitespace(" \n "), "");
    assert_eq!(collapse_whitespace("a b "), "a b ");
}

fn link(index: usize, text: &str, line: usize) -> Link {
    Link { index, href: "h".to_string(), text: text.to_string(), line }
}

#[test]
fn a_link_is_marked_with_its_number() {
    let links = vec![link(1, "one", 0), link(2, "two", 1)];
    assert_eq!(highlight_link("x one[1] y\nz", &links, 0), "x \x1b[7mone[1]\x1b[27m y\nz");
    assert_eq!(highlight_link("a\n\x1b[4mtwo\x1b[24m[2]b", &links, 1), "a\n\x1b[4m\x1b[7mtwo\x1b[24m[2]\x1b[27mb");
    assert_eq!(highlight_link("a\nb", &links, 1), "a\nb");
    assert_eq!(highlight_link("a\nb", &links, 2), "a\nb");
    assert_eq!(highlight_link("\u{e9}\u{e9} one[1] y", &links, 0), "\u{e9}\u{e9} \x1b[7mone[1]\x1b[27m y");
    assert_eq!(highlight_link("one alone", &links, 0), "\x1b[7mone\x1b[27m alone");
    assert_eq!(highlight_link("one [1] y", &links, 0), "\x1b[7mone [1]\x1b[27m y");
    assert_eq!(highlight_link("one, one[3] and one[1]", &links, 0), "one, one[3] and \x1b[7mone[1]\x1b[27m");
    assert_eq!(highlight_link("one alone", &vec![link(1, "", 0)], 0), "one alone");
    assert_eq!(highlight_link("a\r\nb\r\n\n", &links, 1), "a\r\nb\r\n\n");
    assert_eq!(highlight_link("a\r\ntwo[2]\r\nc\n", &links, 1), "a\r\n\x1b[7mtwo[2]\x1b[27m\r\nc\n");
}

#[test]
fn a_token_is_marked_on_its_line() {
    let content = "[Go]\n\u{25CF} \x1b[1m[Go]\x1b[22m end";
    assert_eq!(highlight_token(content, 1, "[Go]"), "[Go]\n\u{25CF} \x1b[1m\x1b[7m[Go]\x1b[27m\x1b[22m end");
    assert_eq!(highlight_token(content, 1, "[No]"), content);
    assert_eq!(highlight_token(content, 9, "[Go]"), content);
    assert_eq!(highlight_token("a\n", 0, ""), "a\n");
    assert_eq!(highlight_token("abc\n", 0, "zzz"), "abc\n");
    assert_eq!(highlight_token("abc\n", 1, "abc"), "abc\n");
    assert_eq!(highlight_token("abc\r\n\r\n", 0, "zzz"), "abc\r\n\r\n");
    assert_eq!(highlight_token("a\r\n[Go]\r\n\n", 1, "[Go]"), "a\r\n\x1b[7m[Go]\x1b[27m\r\n\n");
}
