//! What holds of the settings, and of what is listed on the screen.

use vstd::prelude::*;
use crate::assistant::{question, request, summary_text};
use crate::bars::{color_of_set, link_line, page_colors, set_chips, tab_line, tab_mark, tab_marks};
use crate::browser::{
    in_current_set, lower_names, named_set, opened, set_with_prefix, BrowserView,
};
use crate::colors::{color_entry, css_value, sheet_colors, site_colors};
use crate::config::{chosen_sets, default_config, ConfigView};
use crate::dom::{attr_of, SelectedView};
use crate::images::{image_width, wanted_to};
use crate::json::json_quoted;
use crate::form_laws::lemma_has_text;
use crate::listings::{
    bookmark_address, bookmark_line, bookmark_lines, log_entry, log_window, lower_titles,
};
use crate::number::decimal;
use crate::page_laws::lemma_joined_part;
use crate::passwords::credentials;
use crate::prefs::{
    after_key, answered, applied, dialogue_lines, is_action, is_dialogue, label_of, next_value,
    offered, prev_value, shown_value, PrefAction, PrefView, PreferencesView,
};
use crate::render_laws::{begins, has_part, lemma_painted, lemma_part_in, lemma_part_of_part};
use crate::search::in_sight;
use crate::strmap::lookup;
use crate::style::{painted, reversed};
use crate::tab::{fresh_tab, ImageView, LinkView};
use crate::table::{byte_len, padded};
use crate::text::{fitting, join, lines, lowercase_of, repeated, starts, trim};

verus! {

broadcast use vstd::string::group_string_axioms;

// --- Settings ---

/// The settings of a user who has changed none.
pub proof fn law_defaults(home: Option<Seq<char>>)
    ensures
        ({
            let c = default_config(home);
            &&& c.homepage == "about:home"@
            &&& c.search_engine == "g"@
            &&& c.image_mode == "auto"@
            &&& c.c_info_fg == 255
            &&& c.c_info_bg == 236
            &&& c.c_tab_fg == 252
            &&& c.c_tab_bg == 234
            &&& c.c_active_tab == 220
            &&& c.c_content_fg == 252
            &&& c.c_content_bg == 0
            &&& c.c_status_fg == 252
            &&& c.c_status_bg == 236
            &&& c.c_link == 81
            &&& c.c_link_num == 39
            &&& c.c_h1 == 220
            &&& c.c_h2 == 214
            &&& c.c_h3 == 208
            &&& c.match_site_colors && c.show_images
            &&& c.ai_key.len() == 0 && c.password_command.len() == 0
            &&& c.set_colors == seq![172u16, 171, 72, 220, 121, 217]
            &&& c.firefox_profiles.len() == 0
            &&& home matches Some(h) ==> c.download_folder == h + "/Downloads"@
        }),
{
}

proof fn lemma_labels()
    ensures
        "Info bar bg"@ != "Info bar fg"@,
        "Tab bar bg"@ != "Tab bar fg"@,
        "Active tab"@ != "Tab bar fg"@,
        "Active tab"@ != "Tab bar bg"@,
        "Content fg"@ != "Tab bar fg"@,
        "Content fg"@ != "Tab bar bg"@,
        "Content fg"@ != "Active tab"@,
        "Content bg"@ != "Tab bar fg"@,
        "Content bg"@ != "Tab bar bg"@,
        "Content bg"@ != "Active tab"@,
        "Content bg"@ != "Content fg"@,
        "Status bg"@ != "Status fg"@,
        "Link color"@ != "Tab bar fg"@,
        "Link color"@ != "Tab bar bg"@,
        "Link color"@ != "Active tab"@,
        "Link color"@ != "Content fg"@,
        "Link color"@ != "Content bg"@,
        "Heading h1"@ != "Tab bar fg"@,
        "Heading h1"@ != "Tab bar bg"@,
        "Heading h1"@ != "Active tab"@,
        "Heading h1"@ != "Content fg"@,
        "Heading h1"@ != "Content bg"@,
        "Heading h1"@ != "Link color"@,
        "Heading h2"@ != "Tab bar fg"@,
        "Heading h2"@ != "Tab bar bg"@,
        "Heading h2"@ != "Active tab"@,
        "Heading h2"@ != "Content fg"@,
        "Heading h2"@ != "Content bg"@,
        "Heading h2"@ != "Link color"@,
        "Heading h2"@ != "Heading h1"@,
        "Heading h3"@ != "Tab bar fg"@,
        "Heading h3"@ != "Tab bar bg"@,
        "Heading h3"@ != "Active tab"@,
        "Heading h3"@ != "Content fg"@,
        "Heading h3"@ != "Content bg"@,
        "Heading h3"@ != "Link color"@,
        "Heading h3"@ != "Heading h1"@,
        "Heading h3"@ != "Heading h2"@,
        "Match site colors"@ != "Show images"@,
        "Image mode"@ != "Search engine"@,
        "Homepage"@ != "Download folder"@,
{
    reveal_strlit("Info bar fg");
    reveal_strlit("Info bar bg");
    reveal_strlit("Tab bar fg");
    reveal_strlit("Tab bar bg");
    reveal_strlit("Active tab");
    reveal_strlit("Content fg");
    reveal_strlit("Content bg");
    reveal_strlit("Status fg");
    reveal_strlit("Status bg");
    reveal_strlit("Link color");
    reveal_strlit("Link numbers");
    reveal_strlit("Heading h1");
    reveal_strlit("Heading h2");
    reveal_strlit("Heading h3");
    reveal_strlit("Match site colors");
    reveal_strlit("Show images");
    reveal_strlit("Image mode");
    reveal_strlit("Search engine");
    reveal_strlit("Homepage");
    reveal_strlit("Download folder");
    assert("Info bar fg"@.len() == 11);
    assert("Info bar fg"@[0] == 'I');
    assert("Info bar fg"@[9] == 'f');
    assert("Info bar bg"@.len() == 11);
    assert("Info bar bg"@[0] == 'I');
    assert("Info bar bg"@[9] == 'b');
    assert("Tab bar fg"@.len() == 10);
    assert("Tab bar fg"@[0] == 'T');
    assert("Tab bar fg"@[8] == 'f');
    assert("Tab bar bg"@.len() == 10);
    assert("Tab bar bg"@[0] == 'T');
    assert("Tab bar bg"@[8] == 'b');
    assert("Active tab"@.len() == 10);
    assert("Active tab"@[0] == 'A');
    assert("Content fg"@.len() == 10);
    assert("Content fg"@[0] == 'C');
    assert("Content fg"@[8] == 'f');
    assert("Content bg"@.len() == 10);
    assert("Content bg"@[0] == 'C');
    assert("Content bg"@[8] == 'b');
    assert("Status fg"@.len() == 9);
    assert("Status fg"@[7] == 'f');
    assert("Status bg"@.len() == 9);
    assert("Status bg"@[7] == 'b');
    assert("Link color"@.len() == 10);
    assert("Link color"@[0] == 'L');
    assert("Link numbers"@.len() == 12);
    assert("Heading h1"@.len() == 10);
    assert("Heading h1"@[0] == 'H');
    assert("Heading h1"@[9] == '1');
    assert("Heading h2"@.len() == 10);
    assert("Heading h2"@[0] == 'H');
    assert("Heading h2"@[9] == '2');
    assert("Heading h3"@.len() == 10);
    assert("Heading h3"@[0] == 'H');
    assert("Heading h3"@[9] == '3');
    assert("Match site colors"@.len() == 17);
    assert("Show images"@.len() == 11);
    assert("Show images"@[0] == 'S');
    assert("Image mode"@.len() == 10);
    assert("Image mode"@[0] == 'I');
    assert("Search engine"@.len() == 13);
    assert("Homepage"@.len() == 8);
    assert("Download folder"@.len() == 15);
}

/// Each colour is offered under its label, and the answer under a label changes the colour
/// of that label and no other setting.
pub proof fn law_color_settings(c: ConfigView, v: u16)
    ensures
        applied(c, PrefView::Color("Info bar fg"@, v)) == (ConfigView { c_info_fg: v, ..c }),
        offered(c).contains(PrefView::Color("Info bar fg"@, c.c_info_fg)),
        applied(c, PrefView::Color("Info bar bg"@, v)) == (ConfigView { c_info_bg: v, ..c }),
        offered(c).contains(PrefView::Color("Info bar bg"@, c.c_info_bg)),
        applied(c, PrefView::Color("Tab bar fg"@, v)) == (ConfigView { c_tab_fg: v, ..c }),
        offered(c).contains(PrefView::Color("Tab bar fg"@, c.c_tab_fg)),
        applied(c, PrefView::Color("Tab bar bg"@, v)) == (ConfigView { c_tab_bg: v, ..c }),
        offered(c).contains(PrefView::Color("Tab bar bg"@, c.c_tab_bg)),
        applied(c, PrefView::Color("Active tab"@, v)) == (ConfigView { c_active_tab: v, ..c }),
        offered(c).contains(PrefView::Color("Active tab"@, c.c_active_tab)),
        applied(c, PrefView::Color("Content fg"@, v)) == (ConfigView { c_content_fg: v, ..c }),
        offered(c).contains(PrefView::Color("Content fg"@, c.c_content_fg)),
        applied(c, PrefView::Color("Content bg"@, v)) == (ConfigView { c_content_bg: v, ..c }),
        offered(c).contains(PrefView::Color("Content bg"@, c.c_content_bg)),
        applied(c, PrefView::Color("Status fg"@, v)) == (ConfigView { c_status_fg: v, ..c }),
        offered(c).contains(PrefView::Color("Status fg"@, c.c_status_fg)),
        applied(c, PrefView::Color("Status bg"@, v)) == (ConfigView { c_status_bg: v, ..c }),
        offered(c).contains(PrefView::Color("Status bg"@, c.c_status_bg)),
        applied(c, PrefView::Color("Link color"@, v)) == (ConfigView { c_link: v, ..c }),
        offered(c).contains(PrefView::Color("Link color"@, c.c_link)),
        applied(c, PrefView::Color("Link numbers"@, v)) == (ConfigView { c_link_num: v, ..c }),
        offered(c).contains(PrefView::Color("Link numbers"@, c.c_link_num)),
        applied(c, PrefView::Color("Heading h1"@, v)) == (ConfigView { c_h1: v, ..c }),
        offered(c).contains(PrefView::Color("Heading h1"@, c.c_h1)),
        applied(c, PrefView::Color("Heading h2"@, v)) == (ConfigView { c_h2: v, ..c }),
        offered(c).contains(PrefView::Color("Heading h2"@, c.c_h2)),
        applied(c, PrefView::Color("Heading h3"@, v)) == (ConfigView { c_h3: v, ..c }),
        offered(c).contains(PrefView::Color("Heading h3"@, c.c_h3)),
{
    lemma_labels();
    reveal_strlit("Info bar fg");
    reveal_strlit("Info bar bg");
    reveal_strlit("Tab bar fg");
    reveal_strlit("Tab bar bg");
    reveal_strlit("Active tab");
    reveal_strlit("Content fg");
    reveal_strlit("Content bg");
    reveal_strlit("Status fg");
    reveal_strlit("Status bg");
    reveal_strlit("Link color");
    reveal_strlit("Link numbers");
    reveal_strlit("Heading h1");
    reveal_strlit("Heading h2");
    reveal_strlit("Heading h3");
    assert("Info bar fg"@.len() == 11);
    assert("Info bar fg"@[9] == 'f');
    assert("Info bar bg"@.len() == 11);
    assert("Info bar bg"@[9] == 'b');
    assert("Tab bar fg"@.len() == 10);
    assert("Tab bar fg"@[0] == 'T');
    assert("Tab bar fg"@[8] == 'f');
    assert("Tab bar bg"@.len() == 10);
    assert("Tab bar bg"@[0] == 'T');
    assert("Tab bar bg"@[8] == 'b');
    assert("Active tab"@.len() == 10);
    assert("Active tab"@[0] == 'A');
    assert("Content fg"@.len() == 10);
    assert("Content fg"@[0] == 'C');
    assert("Content fg"@[8] == 'f');
    assert("Content bg"@.len() == 10);
    assert("Content bg"@[0] == 'C');
    assert("Content bg"@[8] == 'b');
    assert("Status fg"@.len() == 9);
    assert("Status fg"@[7] == 'f');
    assert("Status bg"@.len() == 9);
    assert("Status bg"@[7] == 'b');
    assert("Link color"@.len() == 10);
    assert("Link color"@[0] == 'L');
    assert("Link numbers"@.len() == 12);
    assert("Heading h1"@.len() == 10);
    assert("Heading h1"@[0] == 'H');
    assert("Heading h1"@[9] == '1');
    assert("Heading h2"@.len() == 10);
    assert("Heading h2"@[0] == 'H');
    assert("Heading h2"@[9] == '2');
    assert("Heading h3"@.len() == 10);
    assert("Heading h3"@[0] == 'H');
    assert("Heading h3"@[9] == '3');
    let all = offered(c);
    assert(all[6] == PrefView::Color("Info bar fg"@, c.c_info_fg));
    assert(all[7] == PrefView::Color("Info bar bg"@, c.c_info_bg));
    assert(all[8] == PrefView::Color("Tab bar fg"@, c.c_tab_fg));
    assert(all[9] == PrefView::Color("Tab bar bg"@, c.c_tab_bg));
    assert(all[10] == PrefView::Color("Active tab"@, c.c_active_tab));
    assert(all[11] == PrefView::Color("Content fg"@, c.c_content_fg));
    assert(all[12] == PrefView::Color("Content bg"@, c.c_content_bg));
    assert(all[13] == PrefView::Color("Status fg"@, c.c_status_fg));
    assert(all[14] == PrefView::Color("Status bg"@, c.c_status_bg));
    assert(all[15] == PrefView::Color("Link color"@, c.c_link));
    assert(all[16] == PrefView::Color("Link numbers"@, c.c_link_num));
    assert(all[17] == PrefView::Color("Heading h1"@, c.c_h1));
    assert(all[18] == PrefView::Color("Heading h2"@, c.c_h2));
    assert(all[19] == PrefView::Color("Heading h3"@, c.c_h3));
}

/// Each other setting is offered under its label, with its values to choose from, and the
/// answer under a label changes that setting and no other.
pub proof fn law_other_settings(c: ConfigView, b: bool, s: Seq<char>, o: Seq<Seq<char>>)
    ensures
        applied(c, PrefView::Bool("Match site colors"@, b)) == (ConfigView {
            match_site_colors: b,
            ..c
        }),
        applied(c, PrefView::Bool("Show images"@, b)) == (ConfigView { show_images: b, ..c }),
        applied(c, PrefView::Choice("Image mode"@, o, s)) == (ConfigView { image_mode: s, ..c }),
        applied(c, PrefView::Choice("Search engine"@, o, s)) == (ConfigView {
            search_engine: s,
            ..c
        }),
        applied(c, PrefView::Text("Homepage"@, s)) == (ConfigView { homepage: s, ..c }),
        applied(c, PrefView::Text("Download folder"@, s)) == (ConfigView {
            download_folder: s,
            ..c
        }),
        offered(c).contains(PrefView::Bool("Match site colors"@, c.match_site_colors)),
        offered(c).contains(PrefView::Bool("Show images"@, c.show_images)),
        offered(c).contains(
            PrefView::Choice("Image mode"@, seq!["auto"@, "ascii"@, "off"@], c.image_mode),
        ),
        offered(c).contains(
            PrefView::Choice("Search engine"@, seq!["g"@, "ddg"@, "w"@], c.search_engine),
        ),
        offered(c).contains(PrefView::Text("Homepage"@, c.homepage)),
        offered(c).contains(PrefView::Text("Download folder"@, c.download_folder)),
{
    lemma_labels();
    let all = offered(c);
    assert(all[0] == PrefView::Bool("Match site colors"@, c.match_site_colors));
    assert(all[1] == PrefView::Choice(
        "Image mode"@,
        seq!["auto"@, "ascii"@, "off"@],
        c.image_mode,
    ));
    assert(all[2] == PrefView::Bool("Show images"@, c.show_images));
    assert(all[3] == PrefView::Text("Homepage"@, c.homepage));
    assert(all[4] == PrefView::Choice(
        "Search engine"@,
        seq!["g"@, "ddg"@, "w"@],
        c.search_engine,
    ));
    assert(all[5] == PrefView::Text("Download folder"@, c.download_folder));
}

/// The keys of the settings: the setting below and above, its next value and the one
/// before; other keys change nothing.
pub proof fn law_settings_keys(p: PreferencesView, key: Seq<char>)
    requires
        is_dialogue(p),
    ensures
        p.sel < p.items.len() - 1 ==> after_key(p, "j"@).sel == p.sel + 1 && after_key(
            p,
            "DOWN"@,
        ).sel == p.sel + 1,
        p.sel > 0 ==> after_key(p, "k"@).sel == p.sel - 1 && after_key(p, "UP"@).sel == p.sel - 1,
        after_key(p, "l"@).items == p.items.update(p.sel, next_value(p.items[p.sel])),
        after_key(p, "RIGHT"@).items == p.items.update(p.sel, next_value(p.items[p.sel])),
        after_key(p, "h"@).items == p.items.update(p.sel, prev_value(p.items[p.sel])),
        after_key(p, "LEFT"@).items == p.items.update(p.sel, prev_value(p.items[p.sel])),
        after_key(p, "l"@).dirty && after_key(p, "h"@).dirty,
        key != "j"@ && key != "DOWN"@ && key != "k"@ && key != "UP"@ && key != "l"@ && key
            != "RIGHT"@ && key != "h"@ && key != "LEFT"@ ==> after_key(p, key) == p,
{
    reveal_strlit("j");
    reveal_strlit("DOWN");
    reveal_strlit("k");
    reveal_strlit("UP");
    reveal_strlit("l");
    reveal_strlit("RIGHT");
    reveal_strlit("h");
    reveal_strlit("LEFT");
    assert("j"@.len() == 1);
    assert("j"@[0] == 'j');
    assert("DOWN"@.len() == 4);
    assert("DOWN"@[0] == 'D');
    assert("k"@.len() == 1);
    assert("k"@[0] == 'k');
    assert("UP"@.len() == 2);
    assert("l"@.len() == 1);
    assert("l"@[0] == 'l');
    assert("RIGHT"@.len() == 5);
    assert("h"@.len() == 1);
    assert("h"@[0] == 'h');
    assert("LEFT"@.len() == 4);
    assert("LEFT"@[0] == 'L');
}

/// A step changes a truth value to the other one, a colour by one around its 256 values,
/// and leaves a text.
pub proof fn law_steps(l: Seq<char>, b: bool, s: Seq<char>, c: u16)
    requires
        c < 256,
    ensures
        next_value(PrefView::Bool(l, b)) == PrefView::Bool(l, !b),
        prev_value(PrefView::Bool(l, b)) == PrefView::Bool(l, !b),
        next_value(PrefView::Text(l, s)) == PrefView::Text(l, s),
        c < 255 ==> next_value(PrefView::Color(l, c)) == PrefView::Color(l, (c + 1) as u16),
        next_value(PrefView::Color(l, 255)) == PrefView::Color(l, 0),
        c > 0 ==> prev_value(PrefView::Color(l, c)) == PrefView::Color(l, (c - 1) as u16),
        prev_value(PrefView::Color(l, 0)) == PrefView::Color(l, 255),
{
}

/// An answer that is not empty becomes the value of the setting.
pub proof fn law_answer(p: PreferencesView, answer: Seq<char>, n: nat)
    requires
        is_dialogue(p),
        n <= u16::MAX,
    ensures
        answer.len() == 0 ==> !(p.items[p.sel] is Color) ==> answered(p, answer) == p,
        answer.len() > 0 ==> (p.items[p.sel] matches PrefView::Text(l, _) ==> answered(
            p,
            answer,
        ).items[p.sel] == PrefView::Text(l, answer)),
        answer.len() > 0 ==> (p.items[p.sel] matches PrefView::Choice(l, o, _) ==> answered(
            p,
            answer,
        ).items[p.sel] == PrefView::Choice(l, o, answer)),
        p.items[p.sel] matches PrefView::Color(l, _) ==> answered(p, decimal(n)).items[p.sel]
            == PrefView::Color(l, n as u16),
{
    crate::number::law_decimal_parses(n, u16::MAX as nat);
}

// --- Colours ---

/// The colours that are known by name, in capitals or not.
pub proof fn law_named_colors(text: Seq<char>)
    requires
        trim(text).len() > 0,
        trim(text)[0] != '#',
    ensures
        ({
            let name = lowercase_of(trim(text));
            &&& name == "white"@ ==> color_entry(text) == Some(255u8)
            &&& name == "black"@ ==> color_entry(text) == Some(0u8)
            &&& name == "red"@ ==> color_entry(text) == Some(196u8)
            &&& name == "green"@ ==> color_entry(text) == Some(46u8)
            &&& name == "blue"@ ==> color_entry(text) == Some(21u8)
            &&& name == "yellow"@ ==> color_entry(text) == Some(226u8)
            &&& name != "white"@ && name != "black"@ && name != "red"@ && name != "green"@ && name
                != "blue"@ && name != "yellow"@ ==> color_entry(text) is None
        }),
{
    reveal_strlit("white");
    reveal_strlit("black");
    reveal_strlit("red");
    reveal_strlit("green");
    reveal_strlit("blue");
    reveal_strlit("yellow");
    assert("white"@.len() == 5);
    assert("white"@[0] == 'w');
    assert("black"@.len() == 5);
    assert("black"@[0] == 'b');
    assert("red"@.len() == 3);
    assert("green"@.len() == 5);
    assert("green"@[0] == 'g');
    assert("blue"@.len() == 4);
    assert("yellow"@.len() == 6);
}

/// The colours of a page come from its body where that names a background, with its text
/// colour; else from its style sheets.
pub proof fn law_body_colors(bodies: Seq<SelectedView>, styles: Seq<SelectedView>)
    requires
        bodies.len() > 0,
        bodies[0].items.len() > 0,
        attr_of(bodies[0].items[0].node, "bgcolor"@) is Some,
    ensures
        ({
            let body = bodies[0].items[0].node;
            &&& site_colors(bodies, styles).0 == color_entry(attr_of(body, "bgcolor"@)->0)
            &&& attr_of(body, "text"@) matches Some(t) ==> site_colors(bodies, styles).1
                == color_entry(t)
            &&& attr_of(body, "text"@) is None ==> site_colors(bodies, styles).1 is None
        }),
{
}

/// A style sheet gives its background colour, or else its background, and with it its text
/// colour; one without a background gives nothing.
pub proof fn law_sheet_colors(css: Seq<char>)
    ensures
        css_value(css, "background-color"@) matches Some(v) ==> sheet_colors(css) is Some && (
        sheet_colors(css)->0).0 == color_entry(v),
        css_value(css, "background-color"@) is None ==> (css_value(css, "background"@) matches Some(
            v,
        ) ==> sheet_colors(css) is Some && (sheet_colors(css)->0).0 == color_entry(v)),
        css_value(css, "background-color"@) is None && css_value(css, "background"@) is None
            ==> sheet_colors(css) is None,
        sheet_colors(css) is Some ==> (css_value(css, "color"@) matches Some(v) ==> (sheet_colors(
            css,
        )->0).1 == color_entry(v)),
{
}

/// The page takes the colours of the site where the user wants them and the site has them,
/// and those of the settings else.
pub proof fn law_page_colors(c: ConfigView, fg: Option<u8>, bg: Option<u8>)
    ensures
        !c.match_site_colors ==> page_colors(c, fg, bg) is None,
        c.match_site_colors ==> {
            &&& page_colors(c, fg, bg) is Some
            &&& fg matches Some(x) ==> (page_colors(c, fg, bg)->0).0 == x
            &&& fg is None ==> (page_colors(c, fg, bg)->0).0 == c.c_content_fg
            &&& bg matches Some(x) ==> (page_colors(c, fg, bg)->0).1 == x
            &&& bg is None ==> (page_colors(c, fg, bg)->0).1 == c.c_content_bg
        },
{
}

/// The sets take the colours of the settings in turn.
pub proof fn law_set_colors(c: ConfigView, i: int)
    requires
        0 <= i,
    ensures
        c.set_colors.len() == 0 ==> color_of_set(c, i) == c.c_active_tab as int % 256,
        i < c.set_colors.len() ==> color_of_set(c, i) == c.set_colors[i] as int % 256,
        c.set_colors.len() > 0 ==> color_of_set(c, i) == color_of_set(
            c,
            i + c.set_colors.len() as int,
        ),
{
    let n = c.set_colors.len() as int;
    if n > 0 {
        if i < n {
            assert(i % n == i) by (nonlinear_arith)
                requires
                    0 <= i < n,
            ;
        }
        assert((i + n) % n == i % n) by (nonlinear_arith)
            requires
                0 <= i,
                n > 0,
        ;
    }
}

// --- Lines around the page ---

/// The names of all sets stand in the tab line, and, where the current set has several
/// tabs, each of these with its title, or its address where it has none.
pub proof fn law_tab_line(b: BrowserView, c: ConfigView, i: int, k: int)
    requires
        0 <= i < b.sets.len(),
        0 <= k < in_current_set(b).len(),
    ensures
        has_part(tab_line(b, c), b.sets[i]),
        in_current_set(b).len() > 1 ==> ({
            let t = b.tabs[in_current_set(b)[k]];
            &&& 0 < t.title.len() <= 20 ==> has_part(tab_line(b, c), t.title)
            &&& t.title.len() > 20 ==> has_part(tab_line(b, c), t.title.take(20))
            &&& t.title.len() == 0 && t.url.len() <= 20 ==> has_part(tab_line(b, c), t.url)
        }),
{
    let line = tab_line(b, c);
    let chips = set_chips(b, c);
    let all = join(chips, ""@);
    let n = crate::browser::members(b.tab_set, i).len();
    let label = b.sets[i] + ": "@ + decimal(n);
    let color = color_of_set(c, i);
    lemma_part_in(Seq::empty(), b.sets[i], ": "@ + decimal(n));
    assert(Seq::<char>::empty() + b.sets[i] + (": "@ + decimal(n)) =~= label);
    let a = " ["@ + label + "] "@;
    let z = " "@ + label + " "@;
    lemma_part_in(" ["@, label, "] "@);
    lemma_part_in(" "@, label, " "@);
    lemma_part_of_part(a, label, b.sets[i]);
    lemma_part_of_part(z, label, b.sets[i]);
    lemma_painted(a, color);
    lemma_painted(z, color);
    lemma_part_of_part(painted(a, color), a, b.sets[i]);
    lemma_part_of_part(painted(z, color), z, b.sets[i]);
    let bold = crate::style::emboldened(painted(a, color));
    lemma_part_in("\x1b[1m"@, painted(a, color), "\x1b[22m"@);
    lemma_part_of_part(bold, painted(a, color), b.sets[i]);
    lemma_joined_part(chips, ""@, i);
    lemma_part_of_part(all, chips[i], b.sets[i]);
    let marks = tab_marks(b);
    let tail = join(marks, "\u{2502}"@);
    if in_current_set(b).len() > 1 {
        lemma_part_in(Seq::empty(), all, "  "@ + tail);
        assert(Seq::<char>::empty() + all + ("  "@ + tail) =~= line);
        lemma_part_of_part(line, all, b.sets[i]);
        let j = in_current_set(b)[k];
        let t = b.tabs[j];
        let text = crate::bars::shortened(
            if t.title.len() == 0 {
                t.url
            } else {
                t.title
            },
        );
        let m = " "@ + text + " "@;
        lemma_part_in(" "@, text, " "@);
        lemma_painted(m, 255);
        lemma_painted(m, 244);
        lemma_part_of_part(painted(m, 255), m, text);
        lemma_part_of_part(painted(m, 244), m, text);
        lemma_part_in("\x1b[1m"@, painted(m, 255), "\x1b[22m"@);
        lemma_part_of_part(crate::style::emboldened(painted(m, 255)), painted(m, 255), text);
        assert(marks[k] == tab_mark(b, j));
        lemma_joined_part(marks, "\u{2502}"@, k);
        lemma_part_of_part(tail, marks[k], text);
        lemma_part_in(all + "  "@, tail, Seq::empty());
        assert(all + "  "@ + tail + Seq::<char>::empty() =~= line);
        lemma_part_of_part(line, tail, text);
    }
}

/// The line of a link in focus shows its number, its text and its address.
pub proof fn law_link_line(l: LinkView, c: ConfigView)
    ensures
        has_part(link_line(l, c), "["@ + decimal(l.index as nat) + "]"@),
        has_part(link_line(l, c), l.text),
        has_part(link_line(l, c), l.href),
{
    let line = link_line(l, c);
    let number = "["@ + decimal(l.index as nat) + "]"@;
    let color = crate::renderer::entry(c.c_link_num);
    let a = painted(number, color);
    let b = crate::style::reversed(l.text);
    let d = painted(l.href, 245);
    lemma_painted(number, color);
    lemma_painted(l.href, 245);
    lemma_part_in("\x1b[7m"@, l.text, "\x1b[27m"@);
    lemma_part_in(" "@, a, " "@ + b + " "@ + d);
    assert(" "@ + a + (" "@ + b + " "@ + d) =~= line);
    lemma_part_in(" "@ + a + " "@, b, " "@ + d);
    assert(" "@ + a + " "@ + b + (" "@ + d) =~= line);
    lemma_part_in(" "@ + a + " "@ + b + " "@, d, Seq::empty());
    assert(" "@ + a + " "@ + b + " "@ + d + Seq::<char>::empty() =~= line);
    lemma_part_of_part(line, a, number);
    lemma_part_of_part(line, b, l.text);
    lemma_part_of_part(line, d, l.href);
}

// --- Lists ---

/// Each bookmark is listed on its own line, with its number, its title and its address.
pub proof fn law_bookmark_listed(bms: Seq<(Seq<char>, Seq<char>)>, i: int)
    requires
        0 <= i < bms.len(),
    ensures
        bookmark_lines(bms).len() == bms.len() + 2,
        has_part(bookmark_lines(bms)[i + 2], decimal((i + 1) as nat)),
        has_part(bookmark_lines(bms)[i + 2], bms[i].1),
        has_part(bookmark_lines(bms)[i + 2], bms[i].0),
{
    let line = bookmark_line(bms[i], i);
    assert(bookmark_lines(bms)[i + 2] == line);
    let d = decimal((i + 1) as nat);
    let r = crate::listings::right_of_two(d);
    if d.len() < 2 {
        lemma_part_in(" "@, d, Seq::empty());
        assert(" "@ + d + Seq::<char>::empty() =~= r);
    } else {
        lemma_part_in(Seq::empty(), d, Seq::empty());
        assert(Seq::<char>::empty() + d + Seq::<char>::empty() =~= r);
    }
    let a = painted(r, 220);
    let t = painted(bms[i].1, 81);
    let b = crate::style::underlined(t);
    let u = painted(bms[i].0, 245);
    lemma_painted(r, 220);
    lemma_part_of_part(a, r, d);
    lemma_painted(bms[i].1, 81);
    lemma_part_in("\x1b[4m"@, t, "\x1b[24m"@);
    lemma_part_of_part(b, t, bms[i].1);
    lemma_painted(bms[i].0, 245);
    lemma_part_in("  "@, a, " "@ + b + " "@ + u);
    assert("  "@ + a + (" "@ + b + " "@ + u) =~= line);
    lemma_part_in("  "@ + a + " "@, b, " "@ + u);
    assert("  "@ + a + " "@ + b + (" "@ + u) =~= line);
    lemma_part_in("  "@ + a + " "@ + b + " "@, u, Seq::empty());
    assert("  "@ + a + " "@ + b + " "@ + u + Seq::<char>::empty() =~= line);
    lemma_part_of_part(line, a, d);
    lemma_part_of_part(line, b, bms[i].1);
    lemma_part_of_part(line, u, bms[i].0);
}

/// Errors are shown in red, warnings in yellow, notes in blue, and all else as it is; the
/// log shows every line.
pub proof fn law_log_colors(log: Seq<Seq<char>>, k: int)
    requires
        0 <= k < log.len(),
    ensures
        ({
            let s = log[k];
            let line = log_window(log)[k + 2];
            &&& starts(s, "[error]"@) ==> line == " "@ + painted(s, 196)
            &&& starts(s, "[warn]"@) ==> line == " "@ + painted(s, 220)
            &&& starts(s, "[info]"@) ==> line == " "@ + painted(s, 81)
            &&& !starts(s, "[error]"@) && !starts(s, "[warn]"@) && !starts(s, "[info]"@) ==> line
                == " "@ + s
            &&& has_part(line, s)
        }),
{
    let s = log[k];
    reveal_strlit("[error]");
    reveal_strlit("[warn]");
    reveal_strlit("[info]");
    assert("[error]"@[1] == 'e' && "[warn]"@[1] == 'w' && "[info]"@[1] == 'i');
    if starts(s, "[error]"@) {
        assert(s.take(7)[1] == s[1]);
    }
    if starts(s, "[warn]"@) {
        assert(s.take(6)[1] == s[1]);
    }
    if starts(s, "[info]"@) {
        assert(s.take(6)[1] == s[1]);
    }
    assert(log_window(log)[k + 2] == " "@ + log_entry(s));
    let e = log_entry(s);
    lemma_painted(s, 196);
    lemma_painted(s, 220);
    lemma_painted(s, 81);
    lemma_part_in(Seq::empty(), s, Seq::empty());
    assert(Seq::<char>::empty() + s + Seq::<char>::empty() =~= s);
    lemma_part_in(" "@, e, Seq::empty());
    assert(" "@ + e + Seq::<char>::empty() =~= " "@ + e);
    lemma_part_of_part(" "@ + e, e, s);
}

/// A match is brought into sight three lines below the top, or at the top of the page.
pub proof fn law_in_sight(line: int)
    requires
        0 <= line,
    ensures
        0 <= in_sight(line) <= line,
        line >= 3 ==> in_sight(line) == line - 3,
        line < 3 ==> in_sight(line) == 0,
{
}

// --- Passwords ---

/// What the user's command prints on its first two lines is used; where it prints less, or
/// there is none, what is stored for the host.
pub proof fn law_credentials(
    out: Seq<char>,
    stored: Seq<(Seq<char>, (Seq<char>, Seq<char>))>,
    host: Seq<char>,
)
    ensures
        lines(out).len() >= 2 && lines(out)[0].len() > 0 && lines(out)[1].len() > 0 ==> credentials(
            Some(out),
            stored,
            host,
        ) == Some((lines(out)[0], lines(out)[1])),
        lines(out).len() < 2 || lines(out)[0].len() == 0 || lines(out)[1].len() == 0
            ==> credentials(Some(out), stored, host) == lookup(stored, host),
        credentials(None, stored, host) == lookup(stored, host),
{
}

// --- The assistant ---

/// The assistant is asked for the page by its title, its address and its text.
pub proof fn law_question(title: Seq<char>, url: Seq<char>, text: Seq<char>)
    ensures
        has_part(question(title, url, text), title),
        has_part(question(title, url, text), url),
        has_part(question(title, url, text), fitting(text, 4000)),
        has_part(request(question(title, url, text)), json_quoted(question(title, url, text))),
{
    let q = question(title, url, text);
    let a = "Summarize this web page concisely.\nTitle: "@;
    let f = fitting(text, 4000);
    lemma_part_in(a, title, "\nURL: "@ + url + "\n\n"@ + f);
    assert(a + title + ("\nURL: "@ + url + "\n\n"@ + f) =~= q);
    lemma_part_in(a + title + "\nURL: "@, url, "\n\n"@ + f);
    assert(a + title + "\nURL: "@ + url + ("\n\n"@ + f) =~= q);
    lemma_part_in(a + title + "\nURL: "@ + url + "\n\n"@, f, Seq::empty());
    assert(a + title + "\nURL: "@ + url + "\n\n"@ + f + Seq::<char>::empty() =~= q);
    let head = "{\"max_tokens\":600,\"messages\":[{\"content\":"@;
    let tail = ",\"role\":\"user\"}],\"model\":\"gpt-4o-mini\"}"@;
    lemma_part_in(head, json_quoted(q), tail);
}

/// The assistant's answer is shown, whole.
pub proof fn law_summary(answer: Seq<char>)
    ensures
        has_part(summary_text(Some(answer)), answer),
{
    let head = crate::style::emboldened("AI Summary"@) + "\n\n"@;
    lemma_part_in(head, answer, Seq::empty());
    assert(head + answer + Seq::<char>::empty() =~= summary_text(Some(answer)));
}

// --- Images and tabs ---

/// An image is a third of the page wide, and between 30 and 80 cells.
pub proof fn law_image_width(w: u16)
    ensures
        30 <= image_width(w) <= 80,
        90 <= w <= 240 ==> image_width(w) == w / 3,
        w < 90 ==> image_width(w) == 30,
        w > 242 ==> image_width(w) == 80,
{
}

/// Every image that is neither blocked nor here already is fetched, and no other.
pub proof fn law_wanted(
    images: Seq<ImageView>,
    loaded: Seq<bool>,
    blocked: Seq<bool>,
    n: int,
    k: int,
)
    requires
        0 <= k < n <= images.len(),
        n <= loaded.len(),
        n <= blocked.len(),
    ensures
        !loaded[k] && !blocked[k] ==> exists|m: int|
            0 <= m < wanted_to(images, loaded, blocked, n).len() && (#[trigger] wanted_to(
                images,
                loaded,
                blocked,
                n,
            )[m]).0 == images[k].src,
        (forall|j: int| 0 <= j < n ==> loaded[j] || #[trigger] blocked[j]) ==> wanted_to(
            images,
            loaded,
            blocked,
            n,
        ).len() == 0,
    decreases n,
{
    let all = wanted_to(images, loaded, blocked, n);
    let before = wanted_to(images, loaded, blocked, n - 1);
    if k == n - 1 {
        if !loaded[k] && !blocked[k] {
            assert(all[all.len() - 1].0 == images[k].src);
        }
        if n > 1 {
            law_wanted(images, loaded, blocked, n - 1, 0);
        }
        assert(loaded[n - 1] || blocked[n - 1] || all.len() > 0);
    } else {
        law_wanted(images, loaded, blocked, n - 1, k);
        if !loaded[k] && !blocked[k] {
            let m = choose|m: int|
                0 <= m < before.len() && (#[trigger] before[m]).0 == images[k].src;
            assert(all[m] == before[m]);
        }
        assert(loaded[n - 1] || blocked[n - 1] || all.len() > 0);
    }
}

/// A new tab is blank, comes last, is the current one, and is in the current set.
pub proof fn law_opened(b: BrowserView)
    requires
        0 <= b.current_set <= usize::MAX,
    ensures
        ({
            let o = opened(b);
            &&& o.tabs == b.tabs.push(fresh_tab("about:blank"@))
            &&& o.current_tab == b.tabs.len()
            &&& o.tab_set.last() == b.current_set
            &&& o.tab_set.len() == b.tab_set.len() + 1
            &&& o.current_set == b.current_set
            &&& o.sets == b.sets
        }),
{
}

proof fn lemma_bookmark_found(
    lower: Seq<Seq<char>>,
    bms: Seq<(Seq<char>, Seq<char>)>,
    query: Seq<char>,
    i: int,
    k: int,
)
    requires
        0 <= i <= k < bms.len(),
        has_part(lower[k], query),
        forall|j: int| i <= j < k ==> !has_part(#[trigger] lower[j], query),
    ensures
        bookmark_address(lower, bms, query, i) == Some(bms[k].0),
    decreases k - i,
{
    lemma_has_text(lower[i], query);
    if i < k {
        assert(!has_part(lower[i], query));
        lemma_bookmark_found(lower, bms, query, i + 1, k);
    }
}

/// A bookmark is found by a part of its title, in capitals or not; of several the first.
pub proof fn law_bookmark_found(bms: Seq<(Seq<char>, Seq<char>)>, query: Seq<char>, k: int)
    requires
        0 <= k < bms.len(),
        has_part(lowercase_of(bms[k].1), query),
        forall|j: int| 0 <= j < k ==> !has_part(lowercase_of((#[trigger] bms[j]).1), query),
    ensures
        bookmark_address(lower_titles(bms), bms, query, 0) == Some(bms[k].0),
{
    let lower = lower_titles(bms);
    assert(lower[k] == lowercase_of(bms[k].1));
    assert forall|j: int| 0 <= j < k implies !has_part(#[trigger] lower[j], query) by {
        assert(lower[j] == lowercase_of(bms[j].1));
    }
    lemma_bookmark_found(lower, bms, query, 0, k);
}

proof fn lemma_prefix_found(lower: Seq<Seq<char>>, q: Seq<char>, i: int, k: int)
    requires
        0 <= i <= k < lower.len(),
        starts(lower[k], q),
        forall|j: int| i <= j < k ==> !starts(#[trigger] lower[j], q),
    ensures
        set_with_prefix(lower, q, i) == Some(k),
    decreases k - i,
{
    if i < k {
        assert(!starts(lower[i], q));
        lemma_prefix_found(lower, q, i + 1, k);
    }
}

/// A set is named by the beginning of its name, in capitals or not; of several the first.
pub proof fn law_set_named(sets: Seq<Seq<char>>, answer: Seq<char>, k: int)
    requires
        0 <= k < sets.len(),
        lowercase_of(trim(answer)).len() > 0,
        starts(lowercase_of(sets[k]), lowercase_of(trim(answer))),
        forall|j: int|
            0 <= j < k ==> !starts(
                lowercase_of(#[trigger] sets[j]),
                lowercase_of(trim(answer)),
            ),
    ensures
        named_set(sets, answer) == Some(k),
{
    let lower = lower_names(sets);
    let q = lowercase_of(trim(answer));
    assert(lower[k] == lowercase_of(sets[k]));
    assert forall|j: int| 0 <= j < k implies !starts(#[trigger] lower[j], q) by {
        assert(lower[j] == lowercase_of(sets[j]));
    }
    lemma_prefix_found(lower, q, 0, k);
}

/// The sets are those that are stored, and three of its own where none are.
pub proof fn law_sets(read: Seq<Seq<char>>)
    ensures
        read.len() > 0 ==> chosen_sets(Some(read)) == read,
        chosen_sets(None) == seq!["Personal"@, "PassionFruits"@, "Dualog"@],
        chosen_sets(Some(Seq::empty())) == seq!["Personal"@, "PassionFruits"@, "Dualog"@],
{
}

// --- The dialogue on screen ---

/// The dialogue closes on `ESC` and `q`, and asks for a value on `ENTER`: with the label and
/// the value of the item, or for a colour by its number. A switch needs no value.
pub proof fn law_dialogue_asks(a: PrefAction, p: PreferencesView)
    ensures
        is_action(a, p, "ESC"@) ==> a is Close,
        is_action(a, p, "q"@) ==> a is Close,
        is_action(a, p, "ENTER"@) ==> (p.items[p.sel] matches PrefView::Text(l, v)
            ==> (a matches PrefAction::Ask { label, initial } && label@ == l + ": "@ && initial@
            == v)),
        is_action(a, p, "ENTER"@) ==> (p.items[p.sel] matches PrefView::Choice(l, _, v)
            ==> (a matches PrefAction::Ask { label, initial } && label@ == l + ": "@ && initial@
            == v)),
        is_action(a, p, "ENTER"@) ==> (p.items[p.sel] matches PrefView::Color(_, c)
            ==> (a matches PrefAction::Ask { label, initial } && label@ == "Color (0-255): "@
            && initial@ == decimal(c as nat))),
        is_action(a, p, "ENTER"@) && p.items[p.sel] is Bool ==> a is Stay,
        is_action(a, p, "j"@) ==> a is Stay,
        is_action(a, p, "l"@) ==> a is Stay,
{
    reveal_strlit("ESC");
    reveal_strlit("q");
    reveal_strlit("ENTER");
    reveal_strlit("j");
    reveal_strlit("l");
    assert("ESC"@.len() == 3);
    assert("q"@.len() == 1);
    assert("ENTER"@.len() == 5);
    assert("j"@.len() == 1 && "j"@[0] == 'j');
    assert("l"@.len() == 1 && "l"@[0] == 'l');
    assert("q"@[0] == 'q');
}

/// A switch shows whether it is on, a choice its value, a short text itself, and a colour a
/// sample of it with its number.
pub proof fn law_value_shown(l: Seq<char>, o: Seq<Seq<char>>, v: Seq<char>, c: u16)
    ensures
        shown_value(PrefView::Bool(l, true)) == painted("YES"@, 82),
        shown_value(PrefView::Bool(l, false)) == painted("NO"@, 196),
        shown_value(PrefView::Choice(l, o, v)) == painted(v, 81),
        byte_len(v) <= 25 ==> shown_value(PrefView::Text(l, v)) == v,
        begins(
            painted("\u{2588}\u{2588}\u{2588}"@, (c as int % 256) as u8),
            shown_value(PrefView::Color(l, c)),
        ),
        decimal(c as nat).len() >= 3 ==> shown_value(PrefView::Color(l, c)) == painted(
            "\u{2588}\u{2588}\u{2588}"@,
            (c as int % 256) as u8,
        ) + " "@ + decimal(c as nat),
        decimal(c as nat).len() == 2 ==> shown_value(PrefView::Color(l, c)) == painted(
            "\u{2588}\u{2588}\u{2588}"@,
            (c as int % 256) as u8,
        ) + " "@ + (seq![' '] + decimal(c as nat)),
{
    assert(repeated(' ', 1) =~= seq![' ']);
}

/// Every setting has a line with its value, and the one under the cursor alone is shown in
/// reverse, between arrows.
pub proof fn law_setting_listed(p: PreferencesView, i: int)
    requires
        0 <= i < p.items.len(),
    ensures
        ({
            let line = dialogue_lines(p)[i + 2];
            let label = padded(label_of(p.items[i]), 18);
            let value = shown_value(p.items[i]);
            &&& dialogue_lines(p).len() == p.items.len() + 4
            &&& i == p.sel ==> line == " "@ + reversed(label) + " \u{25C0} "@ + value
                + " \u{25B6}"@
            &&& i != p.sel ==> line == " "@ + label + "   "@ + value + "  "@
            &&& dialogue_lines(p).last() == painted(" j/k h/l Enter ESC"@, 245)
        }),
{
}

} // verus!
