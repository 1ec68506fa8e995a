//! Settings, the files that the browser keeps, and the records in them.
//!
//! The home directory comes in as an argument: `None` where none is set.

use vstd::prelude::*;
use crate::stored::{
    json_pretty, list_in, list_view, pairs_in, same_members, stored_list, stored_pairs,
    stored_texts, texts_in, write_list, write_pairs, write_texts, RecordView,
};
use crate::strmap::{distinct, Duplicate, StrMap};
use crate::tab::views;
use crate::text::{alnum, chars_of, concat, concat3, is_alnum};

verus! {

// --- Paths ---

/// The path of `name` in the directory `base`; an absolute `name` stands for itself.
pub open spec fn joined_path(base: Seq<char>, name: Seq<char>) -> Seq<char> {
    if name.len() > 0 && name[0] == '/' {
        name
    } else if base.len() == 0 || base.last() == '/' {
        base + name
    } else {
        base + "/"@ + name
    }
}

pub fn join_path(base: &str, name: &str) -> (r: String)
    ensures
        r@ == joined_path(base@, name@),
{
    let b = chars_of(base);
    let n = chars_of(name);
    if n.len() > 0 && n[0] == '/' {
        name.to_string()
    } else if b.len() == 0 || b[b.len() - 1] == '/' {
        concat(base, name)
    } else {
        concat3(base, "/", name)
    }
}

pub open spec fn opt_str(s: Option<&str>) -> Option<Seq<char>> {
    match s {
        Some(s) => Some(s@),
        None => None,
    }
}

/// The directory of the browser's files.
pub open spec fn scroll_path(home: Option<Seq<char>>) -> Seq<char> {
    joined_path(
        match home {
            Some(h) => h,
            None => "/tmp"@,
        },
        ".scroll"@,
    )
}

pub fn scroll_dir(home: Option<&str>) -> (r: String)
    ensures
        r@ == scroll_path(opt_str(home)),
{
    match home {
        Some(h) => join_path(h, ".scroll"),
        None => join_path("/tmp", ".scroll"),
    }
}

pub fn config_path(home: Option<&str>) -> (r: String)
    ensures
        r@ == joined_path(scroll_path(opt_str(home)), "config.json"@),
{
    join_path(scroll_dir(home).as_str(), "config.json")
}

pub fn bookmarks_path(home: Option<&str>) -> (r: String)
    ensures
        r@ == joined_path(scroll_path(opt_str(home)), "bookmarks.json"@),
{
    join_path(scroll_dir(home).as_str(), "bookmarks.json")
}

pub fn quickmarks_path(home: Option<&str>) -> (r: String)
    ensures
        r@ == joined_path(scroll_path(opt_str(home)), "quickmarks.json"@),
{
    join_path(scroll_dir(home).as_str(), "quickmarks.json")
}

pub fn passwords_path(home: Option<&str>) -> (r: String)
    ensures
        r@ == joined_path(scroll_path(opt_str(home)), "passwords.json"@),
{
    join_path(scroll_dir(home).as_str(), "passwords.json")
}

pub fn cookies_path(home: Option<&str>) -> (r: String)
    ensures
        r@ == joined_path(scroll_path(opt_str(home)), "cookies.json"@),
{
    join_path(scroll_dir(home).as_str(), "cookies.json")
}

pub open spec fn jar_dir(home: Option<Seq<char>>) -> Seq<char> {
    joined_path(scroll_path(home), "cookies"@)
}

pub fn cookies_dir(home: Option<&str>) -> (r: String)
    ensures
        r@ == jar_dir(opt_str(home)),
{
    join_path(scroll_dir(home).as_str(), "cookies")
}

pub fn adblock_path(home: Option<&str>) -> (r: String)
    ensures
        r@ == joined_path(scroll_path(opt_str(home)), "adblock.txt"@),
{
    join_path(scroll_dir(home).as_str(), "adblock.txt")
}

pub fn session_path(home: Option<&str>) -> (r: String)
    ensures
        r@ == joined_path(scroll_path(opt_str(home)), "session.json"@),
{
    join_path(scroll_dir(home).as_str(), "session.json")
}

pub fn sets_path(home: Option<&str>) -> (r: String)
    ensures
        r@ == joined_path(scroll_path(opt_str(home)), "sets.json"@),
{
    join_path(scroll_dir(home).as_str(), "sets.json")
}

// --- Names that are safe in a path ---

/// `name` with `_` for every character but letters, digits and those in `also`.
pub open spec fn safe_name(name: Seq<char>, also: Seq<char>) -> Seq<char> {
    name.map_values(
        |c: char|
            if is_alnum(c) || also.contains(c) {
                c
            } else {
                '_'
            },
    )
}

fn sanitize(name: &str, a: char, b: char) -> (r: String)
    ensures
        r@ == safe_name(name@, seq![a, b]),
{
    let v = chars_of(name);
    let mut out = String::new();
    for i in 0..v.len()
        invariant
            v@ == name@,
            out@ == safe_name(name@.take(i as int), seq![a, b]),
    {
        let c = v[i];
        let ghost also = seq![a, b];
        assert(also.contains(c) == (c == a || c == b)) by {
            assert(also[0] == a && also[1] == b);
        }
        if alnum(c) || c == a || c == b {
            out.push(c);
        } else {
            out.push('_');
        }
        assert(out@ =~= safe_name(name@.take(i + 1), seq![a, b]));
    }
    assert(name@.take(name@.len() as int) =~= name@);
    out
}

/// The file name of a set's cookie jar, without its suffix.
pub open spec fn jar_name(set_name: Seq<char>) -> Seq<char> {
    let safe = safe_name(set_name, seq!['-', '_']);
    if safe.len() == 0 {
        "_"@
    } else {
        safe
    }
}

pub open spec fn jar_file(home: Option<Seq<char>>, set_name: Seq<char>) -> Seq<char> {
    joined_path(jar_dir(home), jar_name(set_name) + ".json"@)
}

/// The file of a set's cookie jar.
pub fn cookie_jar_path(set_name: &str, home: Option<&str>) -> (r: String)
    ensures
        r@ == jar_file(opt_str(home), set_name@),
{
    let safe = sanitize(set_name, '-', '_');
    let safe = if safe.as_str().is_empty() {
        "_".to_string()
    } else {
        safe
    };
    let file = concat(safe.as_str(), ".json");
    join_path(cookies_dir(home).as_str(), file.as_str())
}

/// A safe name holds no `/`, and no `.` unless dots were allowed.
pub proof fn law_safe_name(name: Seq<char>, also: Seq<char>)
    requires
        !also.contains('/'),
    ensures
        !safe_name(name, also).contains('/'),
        !also.contains('.') ==> !safe_name(name, also).contains('.'),
        safe_name(name, also).len() == name.len(),
{
}

/// No set name leads out of the directory of the cookie jars: a jar is a file directly
/// in it, whose name holds no `/` and does not begin with a dot.
pub proof fn law_jar_stays_inside(home: Option<Seq<char>>, set_name: Seq<char>)
    ensures
        !(jar_name(set_name) + ".json"@).contains('/'),
        (jar_name(set_name) + ".json"@)[0] != '.',
        jar_file(home, set_name) == jar_dir(home) + "/"@ + jar_name(set_name) + ".json"@,
{
    let safe = safe_name(set_name, seq!['-', '_']);
    let also = seq!['-', '_'];
    assert(!also.contains('/') && !also.contains('.'));
    law_safe_name(set_name, also);
    reveal_strlit("_");
    reveal_strlit(".json");
    reveal_strlit("cookies");
    reveal_strlit("/tmp");
    reveal_strlit(".scroll");
    let name = jar_name(set_name);
    let file = name + ".json"@;
    assert(!name.contains('/') && !name.contains('.')) by {
        if safe.len() == 0 {
            assert(name =~= seq!['_']);
        }
    }
    assert forall|i: int| 0 <= i < file.len() implies file[i] != '/' by {
        if i < name.len() {
            assert(file[i] == name[i]);
            assert(name.contains(name[i]));
        } else {
            assert(file[i] == ".json"@[i - name.len()]);
        }
    }
    assert(file[0] == name[0]);
    assert(name.contains(name[0]));
    let d = jar_dir(home);
    assert(d.last() == 's');
    assert(d + "/"@ + file =~= d + "/"@ + name + ".json"@);
}

/// The file of what a host's pages stored in one set.
pub open spec fn storage_file(home: Option<Seq<char>>, set_name: Seq<char>, host: Seq<char>) -> Seq<
    char,
> {
    joined_path(
        joined_path(
            joined_path(scroll_path(home), "localstorage"@),
            safe_name(set_name, seq!['-', '_']),
        ),
        safe_name(host, seq!['.', '-']) + ".json"@,
    )
}

pub fn localstorage_path(set_name: &str, host: &str, home: Option<&str>) -> (r: String)
    ensures
        r@ == storage_file(opt_str(home), set_name@, host@),
{
    let safe_set = sanitize(set_name, '-', '_');
    let safe_host = sanitize(host, '.', '-');
    let dir = join_path(scroll_dir(home).as_str(), "localstorage");
    let set_dir = join_path(dir.as_str(), safe_set.as_str());
    join_path(set_dir.as_str(), concat(safe_host.as_str(), ".json").as_str())
}

/// No set name and no host leads out of the directory of stored data: the file is
/// directly in the set's directory, or in the common one where the set has no name, and
/// neither part holds a `/`.
pub proof fn law_storage_stays_inside(
    home: Option<Seq<char>>,
    set_name: Seq<char>,
    host: Seq<char>,
)
    ensures
        ({
            let set = safe_name(set_name, seq!['-', '_']);
            let file = safe_name(host, seq!['.', '-']) + ".json"@;
            &&& !set.contains('/') && !set.contains('.')
            &&& !file.contains('/')
            &&& storage_file(home, set_name, host) == joined_path(
                scroll_path(home),
                "localstorage"@,
            ) + "/"@ + (if set.len() == 0 {
                set
            } else {
                set + "/"@
            }) + file
        }),
{
    let a = seq!['-', '_'];
    let b = seq!['.', '-'];
    assert(!a.contains('/') && !a.contains('.') && !b.contains('/'));
    law_safe_name(set_name, a);
    law_safe_name(host, b);
    let set = safe_name(set_name, a);
    let name = safe_name(host, b);
    let file = name + ".json"@;
    reveal_strlit(".json");
    reveal_strlit("localstorage");
    reveal_strlit("/");
    assert forall|i: int| 0 <= i < file.len() implies file[i] != '/' by {
        if i < name.len() {
            assert(file[i] == name[i]);
            assert(name.contains(name[i]));
        } else {
            assert(file[i] == ".json"@[i - name.len()]);
        }
    }
    let d = joined_path(scroll_path(home), "localstorage"@);
    assert(d.last() == 'e');
    let s = joined_path(d, set);
    if set.len() > 0 {
        assert(set.contains(set[0]) && set.contains(set.last()));
        assert(s == d + "/"@ + set);
        assert(s.last() == set.last());
        assert(s + "/"@ + file =~= d + "/"@ + (set + "/"@) + file);
    } else {
        assert(s =~= d + "/"@);
        assert(s + file =~= d + "/"@ + set + file);
    }
    assert(file.contains(file[0]));
}

// --- Settings ---

#[derive(Clone)]
pub struct Config {
    pub homepage: String,
    pub search_engine: String,
    pub download_folder: String,
    pub match_site_colors: bool,
    pub image_mode: String,
    pub show_images: bool,
    pub c_info_fg: u16,
    pub c_info_bg: u16,
    pub c_tab_fg: u16,
    pub c_tab_bg: u16,
    pub c_active_tab: u16,
    pub c_content_fg: u16,
    pub c_content_bg: u16,
    pub c_status_fg: u16,
    pub c_status_bg: u16,
    pub c_link: u16,
    pub c_link_num: u16,
    pub c_h1: u16,
    pub c_h2: u16,
    pub c_h3: u16,
    pub ai_key: String,
    /// A command that is called with a host and prints a user name and a password on
    /// two lines; empty for none.
    pub password_command: String,
    /// The colours of the sets, in turn; where there are none a set takes `c_active_tab`.
    pub set_colors: Vec<u16>,
    /// For each set the Firefox profile, by name or directory, whose cookies it takes.
    pub firefox_profiles: StrMap<String>,
}

pub struct ConfigView {
    pub homepage: Seq<char>,
    pub search_engine: Seq<char>,
    pub download_folder: Seq<char>,
    pub match_site_colors: bool,
    pub image_mode: Seq<char>,
    pub show_images: bool,
    pub c_info_fg: u16,
    pub c_info_bg: u16,
    pub c_tab_fg: u16,
    pub c_tab_bg: u16,
    pub c_active_tab: u16,
    pub c_content_fg: u16,
    pub c_content_bg: u16,
    pub c_status_fg: u16,
    pub c_status_bg: u16,
    pub c_link: u16,
    pub c_link_num: u16,
    pub c_h1: u16,
    pub c_h2: u16,
    pub c_h3: u16,
    pub ai_key: Seq<char>,
    pub password_command: Seq<char>,
    pub set_colors: Seq<u16>,
    pub firefox_profiles: Seq<(Seq<char>, Seq<char>)>,
}

impl View for Config {
    type V = ConfigView;

    open spec fn view(&self) -> ConfigView {
        ConfigView {
            homepage: self.homepage@,
            search_engine: self.search_engine@,
            download_folder: self.download_folder@,
            match_site_colors: self.match_site_colors,
            image_mode: self.image_mode@,
            show_images: self.show_images,
            c_info_fg: self.c_info_fg,
            c_info_bg: self.c_info_bg,
            c_tab_fg: self.c_tab_fg,
            c_tab_bg: self.c_tab_bg,
            c_active_tab: self.c_active_tab,
            c_content_fg: self.c_content_fg,
            c_content_bg: self.c_content_bg,
            c_status_fg: self.c_status_fg,
            c_status_bg: self.c_status_bg,
            c_link: self.c_link,
            c_link_num: self.c_link_num,
            c_h1: self.c_h1,
            c_h2: self.c_h2,
            c_h3: self.c_h3,
            ai_key: self.ai_key@,
            password_command: self.password_command@,
            set_colors: self.set_colors@,
            firefox_profiles: self.firefox_profiles@,
        }
    }
}

pub open spec fn default_config(home: Option<Seq<char>>) -> ConfigView {
    ConfigView {
        homepage: "about:home"@,
        search_engine: "g"@,
        download_folder: (match home {
            Some(h) => h,
            None => Seq::empty(),
        }) + "/Downloads"@,
        match_site_colors: true,
        image_mode: "auto"@,
        show_images: true,
        c_info_fg: 255,
        c_info_bg: 236,
        c_tab_fg: 252,
        c_tab_bg: 234,
        c_active_tab: 220,
        c_content_fg: 252,
        c_content_bg: 0,
        c_status_fg: 252,
        c_status_bg: 236,
        c_link: 81,
        c_link_num: 39,
        c_h1: 220,
        c_h2: 214,
        c_h3: 208,
        ai_key: Seq::empty(),
        password_command: Seq::empty(),
        set_colors: seq![172, 171, 72, 220, 121, 217],
        firefox_profiles: Seq::empty(),
    }
}

pub fn default_homepage() -> (r: String)
    ensures
        r@ == "about:home"@,
{
    "about:home".to_string()
}

pub fn default_search_engine() -> (r: String)
    ensures
        r@ == "g"@,
{
    "g".to_string()
}

pub fn default_download_folder(home: Option<&str>) -> (r: String)
    ensures
        r@ == default_config(opt_str(home)).download_folder,
{
    match home {
        Some(h) => concat(h, "/Downloads"),
        None => {
            let r = "/Downloads".to_string();
            assert(r@ =~= Seq::<char>::empty() + "/Downloads"@);
            r
        },
    }
}

pub fn default_true() -> (r: bool)
    ensures
        r,
{
    true
}

pub fn default_image_mode() -> (r: String)
    ensures
        r@ == "auto"@,
{
    "auto".to_string()
}

pub fn default_info_fg() -> (r: u16)
    ensures
        r == 255,
{
    255
}

pub fn default_info_bg() -> (r: u16)
    ensures
        r == 236,
{
    236
}

pub fn default_tab_fg() -> (r: u16)
    ensures
        r == 252,
{
    252
}

pub fn default_tab_bg() -> (r: u16)
    ensures
        r == 234,
{
    234
}

pub fn default_active_tab() -> (r: u16)
    ensures
        r == 220,
{
    220
}

pub fn default_content_fg() -> (r: u16)
    ensures
        r == 252,
{
    252
}

pub fn default_content_bg() -> (r: u16)
    ensures
        r == 0,
{
    0
}

pub fn default_status_fg() -> (r: u16)
    ensures
        r == 252,
{
    252
}

pub fn default_status_bg() -> (r: u16)
    ensures
        r == 236,
{
    236
}

pub fn default_link_color() -> (r: u16)
    ensures
        r == 81,
{
    81
}

pub fn default_link_num() -> (r: u16)
    ensures
        r == 39,
{
    39
}

pub fn default_h1() -> (r: u16)
    ensures
        r == 220,
{
    220
}

pub fn default_h2() -> (r: u16)
    ensures
        r == 214,
{
    214
}

pub fn default_h3() -> (r: u16)
    ensures
        r == 208,
{
    208
}

pub fn default_set_colors() -> (r: Vec<u16>)
    ensures
        r@ == seq![172u16, 171, 72, 220, 121, 217],
{
    let r: Vec<u16> = vec![172, 171, 72, 220, 121, 217];
    assert(r@ =~= seq![172u16, 171, 72, 220, 121, 217]);
    r
}

impl Config {
    /// The settings of a user who has chosen none.
    pub fn for_home(home: Option<&str>) -> (r: Self)
        ensures
            r@ == default_config(opt_str(home)),
    {
        let r = Config {
            homepage: default_homepage(),
            search_engine: default_search_engine(),
            download_folder: default_download_folder(home),
            match_site_colors: default_true(),
            image_mode: default_image_mode(),
            show_images: default_true(),
            c_info_fg: default_info_fg(),
            c_info_bg: default_info_bg(),
            c_tab_fg: default_tab_fg(),
            c_tab_bg: default_tab_bg(),
            c_active_tab: default_active_tab(),
            c_content_fg: default_content_fg(),
            c_content_bg: default_content_bg(),
            c_status_fg: default_status_fg(),
            c_status_bg: default_status_bg(),
            c_link: default_link_color(),
            c_link_num: default_link_num(),
            c_h1: default_h1(),
            c_h2: default_h2(),
            c_h3: default_h3(),
            ai_key: String::new(),
            password_command: String::new(),
            set_colors: default_set_colors(),
            firefox_profiles: StrMap::new(),
        };
        assert(r@.ai_key =~= Seq::empty());
        assert(r@.password_command =~= Seq::empty());
        r
    }
}

impl Default for Config {
    fn default() -> (r: Self)
        ensures
            r@ == default_config(None),
    {
        Config::for_home(None)
    }
}

// --- Records ---

/// One tab of a saved session.
#[derive(Clone)]
pub struct TabSnapshot {
    pub url: String,
    pub set: usize,
}

pub struct SnapshotView {
    pub url: Seq<char>,
    pub set: int,
}

impl View for TabSnapshot {
    type V = SnapshotView;

    open spec fn view(&self) -> SnapshotView {
        SnapshotView { url: self.url@, set: self.set as int }
    }
}

/// The tabs that were open when the browser was left.
#[derive(Clone)]
pub struct Session {
    pub current_tab: usize,
    pub current_set: usize,
    pub tabs: Vec<TabSnapshot>,
}

pub struct SessionView {
    pub current_tab: int,
    pub current_set: int,
    pub tabs: Seq<SnapshotView>,
}

impl View for Session {
    type V = SessionView;

    open spec fn view(&self) -> SessionView {
        SessionView {
            current_tab: self.current_tab as int,
            current_set: self.current_set as int,
            tabs: views(self.tabs@),
        }
    }
}

impl Default for Session {
    fn default() -> (r: Self)
        ensures
            r@ == (SessionView { current_tab: 0, current_set: 0, tabs: Seq::empty() }),
    {
        let r = Session { current_tab: 0, current_set: 0, tabs: Vec::new() };
        assert(r@.tabs =~= Seq::empty());
        r
    }
}

#[derive(Clone)]
pub struct Bookmark {
    pub url: String,
    pub title: String,
}

impl View for Bookmark {
    type V = (Seq<char>, Seq<char>);

    open spec fn view(&self) -> (Seq<char>, Seq<char>) {
        (self.url@, self.title@)
    }
}

impl Default for Bookmark {
    fn default() -> (r: Self)
        ensures
            r@ == (Seq::<char>::empty(), Seq::<char>::empty()),
    {
        let r = Bookmark { url: String::new(), title: String::new() };
        assert(r@.0 =~= Seq::empty());
        r
    }
}

impl Duplicate for (String, String) {
    fn duplicate(&self) -> (r: Self) {
        (self.0.clone(), self.1.clone())
    }
}

/// The sets of a user who has named none.
pub open spec fn default_sets() -> Seq<Seq<char>> {
    seq!["Personal"@, "PassionFruits"@, "Dualog"@]
}

/// The names of the sets that are stored, where there are any.
pub open spec fn sets_in(stored: Option<Seq<char>>) -> Seq<Seq<char>> {
    chosen_sets(list_in(stored))
}

pub open spec fn chosen_sets(read: Option<Seq<Seq<char>>>) -> Seq<Seq<char>> {
    match read {
        Some(l) => if l.len() > 0 {
            l
        } else {
            default_sets()
        },
        None => default_sets(),
    }
}

pub fn choose_sets(read: Option<Vec<String>>) -> (r: Vec<String>)
    ensures
        views(r@) == chosen_sets(list_view(read)),
        r@.len() > 0,
{
    if let Some(v) = read {
        if v.len() > 0 {
            return v;
        }
    }
    let r: Vec<String> = vec![
        "Personal".to_string(),
        "PassionFruits".to_string(),
        "Dualog".to_string(),
    ];
    assert(views(r@) =~= default_sets());
    r
}

/// The names of the sets, where `stored` is the text of their file, if it could be read.
pub fn load_sets(stored: Option<&str>) -> (r: Vec<String>)
    ensures
        views(r@) == sets_in(opt_str(stored)),
        r@.len() > 0,
{
    choose_sets(stored_list(stored))
}

/// The text of the file of the sets. What it holds is loaded again.
pub fn save_sets(sets: &Vec<String>) -> (r: String)
    ensures
        r@ == json_pretty(RecordView::List(views(sets@))),
        sets@.len() > 0 ==> sets_in(Some(r@)) == views(sets@),
{
    write_list(sets)
}

/// The quickmarks, each with address and title, by key.
pub fn load_quickmarks(stored: Option<&str>) -> (r: StrMap<(String, String)>)
    ensures
        r@ == pairs_in(opt_str(stored)),
{
    stored_pairs(stored)
}

/// The text of the file of the quickmarks. What it holds is loaded again.
pub fn save_quickmarks(qm: &StrMap<(String, String)>) -> (r: String)
    ensures
        r@ == json_pretty(RecordView::Pairs(qm@)),
        distinct(qm@) ==> same_members(pairs_in(Some(r@)), qm@),
{
    write_pairs(qm)
}

/// The passwords, each with the user's name, by host.
pub fn load_passwords(stored: Option<&str>) -> (r: StrMap<(String, String)>)
    ensures
        r@ == pairs_in(opt_str(stored)),
{
    stored_pairs(stored)
}

/// The text of the file of the passwords. What it holds is loaded again.
pub fn save_passwords(pw: &StrMap<(String, String)>) -> (r: String)
    ensures
        r@ == json_pretty(RecordView::Pairs(pw@)),
        distinct(pw@) ==> same_members(pairs_in(Some(r@)), pw@),
{
    write_pairs(pw)
}

/// The data that scripts of a host stored, where `stored` is the text of its file, if it
/// could be read.
pub fn load_localstorage(stored: Option<&str>) -> (r: StrMap<String>)
    ensures
        r@ == texts_in(opt_str(stored)),
{
    stored_texts(stored)
}

/// What becomes of a host's stored data on disk: its file goes, or has the text that
/// follows its path.
pub enum StorageWrite {
    Remove(String),
    Write(String, String),
}

/// The text of the file afterwards, where there is one.
pub open spec fn left_text(w: StorageWrite) -> Option<Seq<char>> {
    match w {
        StorageWrite::Remove(_) => None,
        StorageWrite::Write(_, text) => Some(text@),
    }
}

/// A host that stored nothing keeps no file; any other keeps one at its path. Either way
/// what was stored is loaded again.
pub fn save_localstorage(
    set_name: &str,
    host: &str,
    data: &StrMap<String>,
    home: Option<&str>,
) -> (r: StorageWrite)
    ensures
        match r {
            StorageWrite::Remove(p) => data@.len() == 0 && p@ == storage_file(
                opt_str(home),
                set_name@,
                host@,
            ),
            StorageWrite::Write(p, text) => data@.len() > 0 && p@ == storage_file(
                opt_str(home),
                set_name@,
                host@,
            ) && text@ == json_pretty(RecordView::Texts(data@)),
        },
        distinct(data@) ==> same_members(texts_in(left_text(r)), data@),
{
    let path = localstorage_path(set_name, host, home);
    if data.is_empty() {
        assert(data@ =~= Seq::empty());
        StorageWrite::Remove(path)
    } else {
        StorageWrite::Write(path, write_texts(data))
    }
}

} // verus!
