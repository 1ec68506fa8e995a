//! Which Firefox profile to take cookies from.

use vstd::prelude::*;
use crate::address::opt_text;
use crate::config::{join_path, joined_path, opt_str};
use crate::tab::views;
use crate::text::{
    chars2, chars_of, lines, lines_chars, part_string, same, starts, starts_with, string_of, trim,
    trim_chars,
};

verus! {

broadcast use vstd::string::group_string_axioms;

/// What follows `prefix` where `s` begins with it.
pub open spec fn after_prefix(s: Seq<char>, prefix: Seq<char>) -> Option<Seq<char>> {
    if starts(s, prefix) {
        Some(s.skip(prefix.len() as int))
    } else {
        None
    }
}

pub fn strip_prefix(s: &str, prefix: &str) -> (r: Option<String>)
    ensures
        opt_text(r) == after_prefix(s@, prefix@),
{
    let c = chars_of(s);
    let p = chars_of(prefix);
    if starts_with(s, prefix) {
        let r = part_string(&c, p.len(), c.len());
        assert(r@ =~= s@.skip(prefix@.len() as int));
        Some(r)
    } else {
        None
    }
}

/// The default profile that an installation section names, from line `k` on; `inside`
/// says whether that line is in such a section.
pub open spec fn default_from(ls: Seq<Seq<char>>, k: int, inside: bool) -> Option<Seq<char>>
    decreases ls.len() - k,
{
    if k < 0 || k >= ls.len() {
        None
    } else {
        let line = trim(ls[k]);
        if starts(line, "[Install"@) {
            default_from(ls, k + 1, true)
        } else if starts(line, "["@) {
            default_from(ls, k + 1, false)
        } else if inside && after_prefix(line, "Default="@) is Some {
            after_prefix(line, "Default="@)
        } else {
            default_from(ls, k + 1, inside)
        }
    }
}

/// The path of the default profile that `profiles.ini` names.
pub fn default_profile(ini: &str) -> (r: Option<String>)
    ensures
        opt_text(r) == default_from(lines(ini@), 0, false),
{
    let ls = lines_chars(&chars_of(ini));
    let ghost all = lines(ini@);
    let mut inside = false;
    let mut k: usize = 0;
    while k < ls.len()
        invariant
            k <= ls@.len(),
            all == chars2(ls@),
            all == lines(ini@),
            default_from(all, k as int, inside) == default_from(all, 0, false),
        decreases ls@.len() - k,
    {
        assert(all[k as int] == ls@[k as int]@);
        let line = string_of(&trim_chars(&ls[k]));
        if starts_with(line.as_str(), "[Install") {
            inside = true;
        } else if starts_with(line.as_str(), "[") {
            inside = false;
        } else if inside {
            if let Some(path) = strip_prefix(line.as_str(), "Default=") {
                return Some(path);
            }
        }
        k += 1;
    }
    None
}

/// What a section has said so far.
pub struct Section {
    pub name: Option<String>,
    pub path: Option<String>,
    pub relative: bool,
}

pub struct SectionView {
    pub name: Option<Seq<char>>,
    pub path: Option<Seq<char>>,
    pub relative: bool,
}

impl View for Section {
    type V = SectionView;

    open spec fn view(&self) -> SectionView {
        SectionView { name: opt_text(self.name), path: opt_text(self.path), relative: self.relative }
    }
}

pub open spec fn empty_section() -> SectionView {
    SectionView { name: None, path: None, relative: true }
}

/// The path of a section that is complete and has the name `profile`, and whether it is
/// relative.
pub open spec fn section_match(s: SectionView, profile: Seq<char>) -> Option<(Seq<char>, bool)> {
    match (s.name, s.path) {
        (Some(n), Some(p)) => if n == profile {
            Some((p, s.relative))
        } else {
            None
        },
        _ => None,
    }
}

/// The section after one more of its lines.
pub open spec fn section_line(s: SectionView, line: Seq<char>) -> SectionView {
    if let Some(v) = after_prefix(line, "Name="@) {
        SectionView { name: Some(v), ..s }
    } else if let Some(v) = after_prefix(line, "Path="@) {
        SectionView { path: Some(v), ..s }
    } else if line == "IsRelative=0"@ {
        SectionView { relative: false, ..s }
    } else {
        s
    }
}

/// The path of the profile named `profile`, from line `k` on, inside section `s`.
pub open spec fn profile_from(
    ls: Seq<Seq<char>>,
    k: int,
    s: SectionView,
    profile: Seq<char>,
) -> Option<(Seq<char>, bool)>
    decreases ls.len() - k,
{
    if k < 0 || k >= ls.len() {
        section_match(s, profile)
    } else {
        let line = trim(ls[k]);
        if starts(line, "["@) {
            match section_match(s, profile) {
                Some(p) => Some(p),
                None => profile_from(ls, k + 1, empty_section(), profile),
            }
        } else {
            profile_from(ls, k + 1, section_line(s, line), profile)
        }
    }
}

pub open spec fn path_view(p: Option<(String, bool)>) -> Option<(Seq<char>, bool)> {
    match p {
        Some((p, b)) => Some((p@, b)),
        None => None,
    }
}

fn match_section(s: &Section, profile: &str) -> (r: Option<(String, bool)>)
    ensures
        path_view(r) == section_match(s@, profile@),
{
    match (&s.name, &s.path) {
        (Some(n), Some(p)) => if same(n.as_str(), profile) {
            Some((p.clone(), s.relative))
        } else {
            None
        },
        _ => None,
    }
}

fn read_line(s: &mut Section, line: &str)
    ensures
        final(s)@ == section_line(old(s)@, line@),
{
    if let Some(v) = strip_prefix(line, "Name=") {
        s.name = Some(v);
    } else if let Some(v) = strip_prefix(line, "Path=") {
        s.path = Some(v);
    } else if same(line, "IsRelative=0") {
        s.relative = false;
    }
}

/// The path of the profile that `profiles.ini` lists under a name, and whether it is
/// relative to the directory of the profiles.
pub fn find_profile(ini: &str, profile: &str) -> (r: Option<(String, bool)>)
    ensures
        path_view(r) == profile_from(lines(ini@), 0, empty_section(), profile@),
{
    let ls = lines_chars(&chars_of(ini));
    let ghost all = lines(ini@);
    let mut section = Section { name: None, path: None, relative: true };
    let mut k: usize = 0;
    while k < ls.len()
        invariant
            k <= ls@.len(),
            all == chars2(ls@),
            all == lines(ini@),
            profile_from(all, k as int, section@, profile@) == profile_from(
                all,
                0,
                empty_section(),
                profile@,
            ),
        decreases ls@.len() - k,
    {
        assert(all[k as int] == ls@[k as int]@);
        let line = string_of(&trim_chars(&ls[k]));
        if starts_with(line.as_str(), "[") {
            if let Some(p) = match_section(&section, profile) {
                return Some(p);
            }
            section = Section { name: None, path: None, relative: true };
        } else {
            read_line(&mut section, line.as_str());
        }
        k += 1;
    }
    match_section(&section, profile)
}

/// The directory of the Firefox profiles.
pub open spec fn firefox_root(home: Seq<char>) -> Seq<char> {
    joined_path(home, ".mozilla/firefox"@)
}

/// The directory of `profile`: of the default where it is empty, the directory itself
/// where it is absolute and there, else the one that `profiles.ini` lists under its name.
pub open spec fn profile_dir(
    profile: Seq<char>,
    is_dir: bool,
    home: Option<Seq<char>>,
    ini: Option<Seq<char>>,
) -> Option<Seq<char>> {
    if profile.len() > 0 && starts(profile, "/"@) && is_dir {
        Some(profile)
    } else {
        match (home, ini) {
            (Some(h), Some(text)) => if profile.len() == 0 {
                match default_from(lines(text), 0, false) {
                    Some(p) => Some(joined_path(firefox_root(h), p)),
                    None => None,
                }
            } else {
                match profile_from(lines(text), 0, empty_section(), profile) {
                    Some((p, relative)) => Some(
                        if relative {
                            joined_path(firefox_root(h), p)
                        } else {
                            p
                        },
                    ),
                    None => None,
                }
            },
            _ => None,
        }
    }
}

/// The directory to look for a profile in. `is_dir` says whether `profile` itself is a
/// directory, and `ini` is the text of `profiles.ini`, if it could be read.
pub fn resolve_firefox_profile(
    profile: &str,
    is_dir: bool,
    home: Option<&str>,
    ini: Option<&str>,
) -> (r: Option<String>)
    ensures
        opt_text(r) == profile_dir(profile@, is_dir, opt_str(home), opt_str(ini)),
{
    if !profile.is_empty() && starts_with(profile, "/") && is_dir {
        return Some(profile.to_string());
    }
    match (home, ini) {
        (Some(h), Some(text)) => {
            let root = join_path(h, ".mozilla/firefox");
            if profile.is_empty() {
                match default_profile(text) {
                    Some(p) => Some(join_path(root.as_str(), p.as_str())),
                    None => None,
                }
            } else {
                match find_profile(text, profile) {
                    Some((p, relative)) => if relative {
                        Some(join_path(root.as_str(), p.as_str()))
                    } else {
                        Some(p)
                    },
                    None => None,
                }
            }
        },
        _ => None,
    }
}

// --- Opening a page in Firefox ---

/// Whether there is a page that another browser could open.
pub open spec fn is_browsable(url: Seq<char>) -> bool {
    url.len() > 0 && url != "about:home"@ && url != "about:blank"@
}

/// The arguments with which Firefox opens `url`, in the profile of the set where it has
/// one.
pub open spec fn firefox_arguments(url: Seq<char>, profile: Option<Seq<char>>) -> Seq<Seq<char>> {
    match profile {
        Some(p) => if p.len() > 0 {
            seq!["-P"@, p, "--new-tab"@, url]
        } else {
            seq!["--new-tab"@, url]
        },
        None => seq!["--new-tab"@, url],
    }
}

pub fn browse_in_firefox(url: &str, profile: Option<&str>) -> (r: Option<Vec<String>>)
    ensures
        match r {
            Some(args) => is_browsable(url@) && views(args@) == firefox_arguments(
                url@,
                opt_str(profile),
            ),
            None => !is_browsable(url@),
        },
{
    if url.is_empty() || same(url, "about:home") || same(url, "about:blank") {
        return None;
    }
    let mut args: Vec<String> = Vec::new();
    if let Some(p) = profile {
        if !p.is_empty() {
            args.push("-P".to_string());
            args.push(p.to_string());
        }
    }
    args.push("--new-tab".to_string());
    args.push(url.to_string());
    assert(views(args@) =~= firefox_arguments(url@, opt_str(profile)));
    Some(args)
}

} // verus!
