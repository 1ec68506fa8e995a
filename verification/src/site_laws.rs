//! What holds of blocked hosts, scripts, browser profiles and the bars of the screen.

use vstd::prelude::*;
use crate::adblock::{blocked_host, blocked_to, blocks};
use crate::bars::{color_of_set, set_chips, status_line, tab_line, tab_marks, title_line};
use crate::browser::{in_current_set, members, BrowserView};
use crate::config::{joined_path, ConfigView};
use crate::firefox::{
    after_prefix, default_from, empty_section, firefox_arguments, firefox_root, is_browsable,
    profile_dir, profile_from, section_line, section_match, SectionView,
};
use crate::images::{gone_to, has_path, placed, plan_to, PlanView, Viewport};
use crate::number::decimal;
use crate::page_laws::lemma_joined_part;
use crate::render_laws::{has_part, lemma_part_in, lemma_part_of_part};
use crate::scripts::{next_script, src_attr};
use crate::search::{is_search, match_message, SearchView};
use crate::style::{emboldened, painted, width_of};
use crate::tab::{ImageView, TabView};
use crate::table::byte_len;
use crate::text::{
    ends, find_text, is_white, is_word, join, lemma_find_text, lemma_first_where, lemma_next_char,
    lines, lower, lowered, next_char, next_nonwhite, next_white, repeated, stands_at, starts, trim,
    trim_left, trimmed_end, words, words_from,
};

verus! {

broadcast use vstd::string::group_string_axioms;

// --- Blocked hosts ---

/// A line that maps a host to the null address blocks it.
pub proof fn law_line_blocks(host: Seq<char>)
    requires
        is_word(host),
        host != "0.0.0.0"@,
    ensures
        blocked_host("0.0.0.0 "@ + host) == Some(host),
{
    reveal_strlit("0.0.0.0");
    reveal_strlit("0.0.0.0 ");
    let s = "0.0.0.0 "@ + host;
    assert(s[0] == '0');
    assert(s[7] == ' ');
    assert(s.last() == host.last());
    assert(forall|i: int| 0 <= i < 7 ==> !is_white(#[trigger] s[i]));
    assert forall|i: int| 8 <= i < s.len() implies !is_white(#[trigger] s[i]) by {
        assert(s[i] == host[i - 8]);
    }
    let white = |x: char| is_white(x);
    let black = |x: char| !is_white(x);
    lemma_first_where(s, black, 0);
    lemma_first_where(s, white, 0);
    lemma_first_where(s, black, 7);
    lemma_first_where(s, white, 8);
    assert(next_nonwhite(s, 0) == 0) by {
        if next_nonwhite(s, 0) > 0 {
            assert(!black(s[0]));
        }
    }
    assert(next_white(s, 0) == 7) by {
        let e = next_white(s, 0);
        if e > 7 {
            assert(!white(s[7]));
        }
        if e < 7 {
            assert(white(s[e]));
        }
    }
    assert(next_nonwhite(s, 7) == 8) by {
        let e = next_nonwhite(s, 7);
        if e > 8 {
            assert(!black(s[8]));
        }
        if e == 7 {
            assert(black(s[7]));
        }
    }
    assert(next_white(s, 8) == s.len()) by {
        let e = next_white(s, 8);
        if e < s.len() {
            assert(white(s[e]));
        }
    }
    assert(trim_left(s) =~= s);
    assert(trimmed_end(s, s.len() as int) == s.len());
    assert(trim(s) =~= s);
    assert(s.subrange(0, 7) =~= "0.0.0.0"@);
    assert(s.subrange(8, s.len() as int) =~= host);
    lemma_first_where(s, black, s.len() as int);
    assert(words_from(s, s.len() as int) =~= Seq::empty());
    assert(words_from(s, 7) =~= seq![host]);
    assert(words(s) =~= seq!["0.0.0.0"@, host]);
}

/// A comment blocks nothing, and the null address itself is not blocked.
pub proof fn law_comment_blocks_nothing(line: Seq<char>)
    ensures
        starts(trim(line), "#"@) ==> blocked_host(line) is None,
        blocked_host(line) != Some("0.0.0.0"@),
{
    reveal_strlit("#");
    let t = trim(line);
    if starts(t, "#"@) {
        assert(t.subrange(0, 1)[0] == t[0]);
    }
}

/// The list holds the hosts of its lines, and no others.
pub proof fn law_blocked_listed(ls: Seq<Seq<char>>, n: int, h: Seq<char>)
    requires
        0 <= n <= ls.len(),
    ensures
        blocked_to(ls, n).contains(h) <==> exists|k: int|
            0 <= k < n && #[trigger] blocked_host(ls[k]) == Some(h),
    decreases n,
{
    if n > 0 {
        law_blocked_listed(ls, n - 1, h);
        let before = blocked_to(ls, n - 1);
        if let Some(x) = blocked_host(ls[n - 1]) {
            let after = before.push(x);
            if before.contains(h) {
                let i = choose|i: int| 0 <= i < before.len() && before[i] == h;
                assert(after[i] == h);
            }
            if x == h {
                assert(after.last() == h);
            }
            if after.contains(h) && x != h {
                let i = choose|i: int| 0 <= i < after.len() && after[i] == h;
                assert(before[i] == h);
            }
        }
    }
}

/// A host is blocked where it is on the list; where there is no host, nothing is.
pub proof fn law_blocks(domains: Set<Seq<char>>, host: Seq<char>)
    ensures
        blocks(domains, Some(host)) <==> domains.contains(host),
        !blocks(domains, None),
{
}

// --- Scripts ---

proof fn lemma_lowered(s: Seq<char>)
    ensures
        lowered(s).len() == s.len(),
        forall|i: int| 0 <= i < s.len() ==> #[trigger] lowered(s)[i] == lower(s[i]),
{
}

/// The source of a script is read from between its quotes.
pub proof fn law_source_read(before: Seq<char>, value: Seq<char>, rest: Seq<char>)
    requires
        before.len() > 0,
        before.last() == ' ',
        !before.contains('='),
        value.len() > 0,
        !value.contains('"'),
    ensures
        src_attr(before + "src=\""@ + value + "\""@ + rest) == Some(value),
{
    reveal_strlit("src=\"");
    reveal_strlit("src=");
    reveal_strlit("\"");
    let n = before.len() as int;
    let tag = before + "src=\""@ + value + "\""@ + rest;
    let low = lowered(tag);
    lemma_lowered(tag);
    assert forall|i: int| 0 <= i < n implies low[i] != '=' by {
        assert(tag[i] == before[i]);
        assert(before.contains(before[i]));
    }
    assert(tag[n] == 's' && tag[n + 1] == 'r' && tag[n + 2] == 'c' && tag[n + 3] == '=');
    assert(tag[n + 4] == '"');
    assert(low[n] == 's' && low[n + 1] == 'r' && low[n + 2] == 'c' && low[n + 3] == '=');
    assert(low.subrange(n, n + 4) =~= "src="@);
    assert(stands_at(low, "src="@, n));
    lemma_find_text(low, "src="@, 0);
    assert(find_text(low, "src="@, 0) == Some(n)) by {
        let i = find_text(low, "src="@, 0)->0;
        if i < n {
            assert(low.subrange(i, i + 4)[3] == low[i + 3]);
        }
    }
    assert(tag[n - 1] == ' ');
    assert(low[n - 1] == ' ');
    let value_on = tag.skip(n + 4);
    assert(value_on =~= "\""@ + value + "\""@ + rest);
    assert(value_on[0] == '"');
    let p = |x: char| !is_white(x);
    lemma_first_where(value_on, p, 0);
    assert(next_nonwhite(value_on, 0) == 0) by {
        if next_nonwhite(value_on, 0) > 0 {
            assert(!p(value_on[0]));
        }
    }
    assert(trim_left(value_on) =~= value_on);
    let tail = value_on.skip(1);
    assert(tail =~= value + "\""@ + rest);
    lemma_next_char(tail, '"', 0);
    let e = next_char(tail, '"', 0);
    assert(tail[value.len() as int] == '"');
    if e < value.len() {
        assert(value[e] == '"');
    }
    assert(e == value.len());
    assert(tail.take(e) =~= value);
}

/// A tag without an `=` names no source.
pub proof fn law_no_source(tag: Seq<char>)
    requires
        !tag.contains('='),
    ensures
        src_attr(tag) is None,
{
    reveal_strlit("src=");
    let low = lowered(tag);
    lemma_lowered(tag);
    lemma_find_text(low, "src="@, 0);
    if let Some(i) = find_text(low, "src="@, 0) {
        assert(low.subrange(i, i + 4)[3] == low[i + 3]);
        assert(tag[i + 3] == '=');
        assert(tag.contains(tag[i + 3]));
    }
}

/// A script is all that stands between its opening and its closing tag.
pub proof fn law_script_found(before: Seq<char>, body: Seq<char>, rest: Seq<char>)
    requires
        !before.contains('<'),
        !body.contains('<'),
    ensures
        next_script(before + "<script>"@ + body + "</script>"@ + rest, 0) == Some(
            (
                before.len() as int,
                before.len() as int + 8,
                before.len() as int + 8 + body.len(),
            ),
        ),
{
    reveal_strlit("<script>");
    reveal_strlit("<script");
    reveal_strlit("</script>");
    let html = before + "<script>"@ + body + "</script>"@ + rest;
    let low = lowered(html);
    lemma_lowered(html);
    let n = before.len() as int;
    let m = n + 8 + body.len();
    assert forall|i: int| 0 <= i < n implies low[i] != '<' by {
        assert(html[i] == before[i]);
        assert(before.contains(before[i]));
    }
    assert forall|i: int| n + 8 <= i < m implies low[i] != '<' by {
        assert(html[i] == body[i - n - 8]);
        assert(body.contains(body[i - n - 8]));
    }
    assert forall|i: int| 0 <= i < 8 implies low[n + i] == #[trigger] "<script>"@[i] by {
        assert(html[n + i] == "<script>"@[i]);
    }
    assert forall|i: int| 0 <= i < 9 implies low[m + i] == #[trigger] "</script>"@[i] by {
        assert(html[m + i] == "</script>"@[i]);
    }
    assert(low.subrange(n, n + 7) =~= "<script"@) by {
        assert forall|i: int| 0 <= i < 7 implies low.subrange(n, n + 7)[i] == "<script"@[i] by {
            assert("<script>"@[i] == "<script"@[i]);
        }
    }
    assert(low.subrange(m, m + 9) =~= "</script>"@);
    lemma_find_text(low, "<script"@, 0);
    assert(stands_at(low, "<script"@, n));
    assert(find_text(low, "<script"@, 0) == Some(n)) by {
        let i = find_text(low, "<script"@, 0)->0;
        if i < n {
            assert(low.subrange(i, i + 7)[0] == low[i]);
        }
    }
    lemma_next_char(low, '>', n);
    assert(low[n + 7] == "<script>"@[7]);
    assert(next_char(low, '>', n) == n + 7) by {
        let e = next_char(low, '>', n);
        if e < n + 7 {
            assert(low[n + (e - n)] == "<script>"@[e - n]);
        }
    }
    lemma_find_text(low, "</script>"@, n + 8);
    assert(stands_at(low, "</script>"@, m));
    assert(find_text(low, "</script>"@, n + 8) == Some(m)) by {
        let i = find_text(low, "</script>"@, n + 8)->0;
        if i < m {
            assert(low.subrange(i, i + 9)[0] == low[i]);
        }
    }
}

// --- Profiles ---

proof fn lemma_prefixed(prefix: Seq<char>, value: Seq<char>)
    ensures
        starts(prefix + value, prefix),
        after_prefix(prefix + value, prefix) == Some(value),
{
    assert((prefix + value).subrange(0, prefix.len() as int) =~= prefix);
    assert((prefix + value).skip(prefix.len() as int) =~= value);
}

/// Two texts that begin with different characters begin with nothing in common.
proof fn lemma_other_start(s: Seq<char>, p: Seq<char>, i: int)
    requires
        0 <= i < p.len(),
        i < s.len(),
        s[i] != p[i],
    ensures
        !starts(s, p),
{
    if starts(s, p) {
        assert(s.subrange(0, p.len() as int)[i] == s[i]);
    }
}

/// The default profile is the one that the first section of an installation names.
pub proof fn law_default_profile(ls: Seq<Seq<char>>, j: int, k: int, i: int, p: Seq<char>)
    requires
        0 <= i <= k < ls.len(),
        0 <= j < k,
        starts(trim(ls[j]), "[Install"@),
        forall|m: int| 0 <= m < j ==> !starts(trim(#[trigger] ls[m]), "[Install"@),
        forall|m: int|
            j < m < k ==> !starts(trim(#[trigger] ls[m]), "["@) && !starts(
                trim(ls[m]),
                "Default="@,
            ),
        trim(ls[k]) == "Default="@ + p,
    ensures
        default_from(ls, i, j < i) == Some(p),
    decreases k - i,
{
    reveal_strlit("[Install");
    reveal_strlit("[");
    reveal_strlit("Default=");
    let line = trim(ls[i]);
    if i == k {
        lemma_prefixed("Default="@, p);
        assert(line[0] == 'D');
        lemma_other_start(line, "["@, 0);
        lemma_other_start(line, "[Install"@, 0);
    } else {
        law_default_profile(ls, j, k, i + 1, p);
        if i > j {
            if starts(line, "[Install"@) {
                assert(line.subrange(0, 8)[0] == line[0]);
                assert(line.subrange(0, 1) =~= "["@);
            }
        }
    }
}

/// A profile is found in the section that gives its name and its path.
pub proof fn law_profile_listed(
    ls: Seq<Seq<char>>,
    k: int,
    s: SectionView,
    profile: Seq<char>,
    path: Seq<char>,
)
    requires
        0 <= k,
        k + 2 < ls.len(),
        section_match(s, profile) is None,
        starts(trim(ls[k]), "["@),
        trim(ls[k + 1]) == "Name="@ + profile,
        trim(ls[k + 2]) == "Path="@ + path,
        k + 3 < ls.len() ==> starts(trim(ls[k + 3]), "["@),
    ensures
        profile_from(ls, k, s, profile) == Some((path, true)),
{
    reveal_strlit("[");
    reveal_strlit("Name=");
    reveal_strlit("Path=");
    reveal_with_fuel(profile_from, 4);
    lemma_prefixed("Name="@, profile);
    lemma_prefixed("Path="@, path);
    lemma_other_start(trim(ls[k + 1]), "["@, 0);
    lemma_other_start(trim(ls[k + 2]), "["@, 0);
    lemma_other_start(trim(ls[k + 2]), "Name="@, 0);
    let one = section_line(empty_section(), trim(ls[k + 1]));
    assert(one == SectionView { name: Some(profile), path: None, relative: true });
    let two = section_line(one, trim(ls[k + 2]));
    assert(two == SectionView { name: Some(profile), path: Some(path), relative: true });
    assert(profile_from(ls, k + 3, two, profile) == Some((path, true)));
}

/// A path is marked as absolute by `IsRelative=0`, and by nothing else.
pub proof fn law_absolute_path(s: SectionView, line: Seq<char>)
    requires
        !starts(line, "Name="@),
        !starts(line, "Path="@),
    ensures
        line == "IsRelative=0"@ ==> section_line(s, line).relative == false,
        line != "IsRelative=0"@ ==> section_line(s, line) == s,
        section_line(s, line).name == s.name,
        section_line(s, line).path == s.path,
{
}

/// A section that is not named like the profile, or has no path, does not give it.
pub proof fn law_other_section(s: SectionView, profile: Seq<char>)
    ensures
        s.name != Some(profile) ==> section_match(s, profile) is None,
        s.path is None ==> section_match(s, profile) is None,
{
}

/// The directory of a profile: an absolute one that is there is taken as it is, and a
/// relative path begins at the directory of Firefox.
pub proof fn law_profile_directory(
    profile: Seq<char>,
    is_dir: bool,
    home: Seq<char>,
    ini: Seq<char>,
    path: Seq<char>,
)
    ensures
        starts(profile, "/"@) && is_dir ==> profile_dir(profile, is_dir, Some(home), Some(ini))
            == Some(profile),
        default_from(lines(ini), 0, false) == Some(path) ==> profile_dir(
            ""@,
            is_dir,
            Some(home),
            Some(ini),
        ) == Some(joined_path(firefox_root(home), path)),
        profile.len() > 0 && !starts(profile, "/"@) && profile_from(
            lines(ini),
            0,
            empty_section(),
            profile,
        ) == Some((path, true)) ==> profile_dir(profile, is_dir, Some(home), Some(ini)) == Some(
            joined_path(firefox_root(home), path),
        ),
        profile.len() > 0 && !starts(profile, "/"@) && profile_from(
            lines(ini),
            0,
            empty_section(),
            profile,
        ) == Some((path, false)) ==> profile_dir(profile, is_dir, Some(home), Some(ini)) == Some(
            path,
        ),
        home.len() > 0 && home.last() != '/' ==> firefox_root(home) == home
            + "/.mozilla/firefox"@,
{
    reveal_strlit("");
    reveal_strlit("/");
    reveal_strlit(".mozilla/firefox");
    reveal_strlit("/.mozilla/firefox");
    assert("/"@ + ".mozilla/firefox"@ =~= "/.mozilla/firefox"@);
    assert(home + "/"@ + ".mozilla/firefox"@ =~= home + "/.mozilla/firefox"@);
}

/// A relative path goes behind its base, an absolute one stands alone.
pub proof fn law_path_joined(base: Seq<char>, name: Seq<char>)
    ensures
        starts(name, "/"@) ==> joined_path(base, name) == name,
        !starts(name, "/"@) && base.len() > 0 && base.last() != '/' ==> joined_path(base, name)
            == base + "/"@ + name,
        !starts(name, "/"@) && base.len() > 0 && base.last() == '/' ==> joined_path(base, name)
            == base + name,
{
    reveal_strlit("/");
    if name.len() > 0 {
        assert(name.subrange(0, 1)[0] == name[0]);
        if name[0] == '/' {
            assert(name.subrange(0, 1) =~= "/"@);
        }
    }
}

/// Firefox opens the page in a new tab, in the profile if there is one.
pub proof fn law_firefox_called(url: Seq<char>, p: Seq<char>)
    ensures
        p.len() > 0 ==> firefox_arguments(url, Some(p)) == seq!["-P"@, p, "--new-tab"@, url],
        firefox_arguments(url, None) == seq!["--new-tab"@, url],
        firefox_arguments(url, Some(Seq::empty())) == seq!["--new-tab"@, url],
        !is_browsable("about:home"@),
        !is_browsable("about:blank"@),
        !is_browsable(Seq::empty()),
        starts(url, "http"@) ==> is_browsable(url),
{
    reveal_strlit("http");
    reveal_strlit("about:home");
    reveal_strlit("about:blank");
    if starts(url, "http"@) {
        assert(url.subrange(0, 4)[0] == url[0]);
    }
}

// --- Bars ---

/// The bar of the title shows the title of the page, or its address where it has none.
pub proof fn law_title_shown(t: TabView)
    ensures
        t.title.len() > 0 ==> has_part(title_line(t), t.title),
        t.title.len() == 0 ==> has_part(title_line(t), t.url),
        t.back_history.len() > 0 ==> starts(title_line(t), " \u{25C0} "@),
        t.forward_history.len() > 0 ==> ends(title_line(t), " \u{25B6}"@),
        t.back_history.len() == 0 && t.forward_history.len() == 0 ==> title_line(t) == " "@ + (
        if t.title.len() > 0 {
            t.title
        } else {
            t.url
        }),
{
    reveal_strlit("");
    reveal_strlit(" ");
    reveal_strlit("\u{25C0} ");
    reveal_strlit(" \u{25B6}");
    reveal_strlit(" \u{25C0} ");
    let label = if t.title.len() == 0 {
        t.url
    } else {
        t.title
    };
    let before = " "@ + (if t.back_history.len() > 0 {
        "\u{25C0} "@
    } else {
        ""@
    });
    let after = if t.forward_history.len() > 0 {
        " \u{25B6}"@
    } else {
        ""@
    };
    let line = title_line(t);
    lemma_part_in(before, label, after);
    if t.back_history.len() > 0 {
        assert(line.subrange(0, 3) =~= " \u{25C0} "@);
    }
    if t.forward_history.len() > 0 {
        assert(line.subrange(line.len() - 2, line.len() as int) =~= " \u{25B6}"@);
    }
    assert(t.back_history.len() == 0 && t.forward_history.len() == 0 ==> line =~= " "@ + label);
}

/// The bar of the state counts the links, shows the address and ends with the version.
pub proof fn law_status_shown(n: int, url: Seq<char>, version: Seq<char>, cols: int)
    ensures
        n > 0 ==> starts(
            status_line(n, url, version, cols),
            " "@ + decimal(n as nat) + " links | ? help | : command | "@ + url,
        ),
        n <= 0 ==> starts(
            status_line(n, url, version, cols),
            " ? help | : command | "@ + url,
        ),
        ends(status_line(n, url, version, cols), version),
{
    reveal_strlit(" | ");
    reveal_strlit(" ");
    reveal_strlit(" ? help | : command");
    reveal_strlit(" ? help | : command | ");
    reveal_strlit(" links | ? help | : command");
    reveal_strlit(" links | ? help | : command | ");
    let line = status_line(n, url, version, cols);
    let v = version.len() as int;
    assert(" links | ? help | : command"@ + " | "@ =~= " links | ? help | : command | "@);
    assert(" ? help | : command"@ + " | "@ =~= " ? help | : command | "@);
    if n > 0 {
        let head = " "@ + decimal(n as nat) + " links | ? help | : command | "@ + url;
        let whole = " "@ + decimal(n as nat) + " links | ? help | : command"@ + (" | "@ + url);
        assert(head =~= whole);
        assert(line.subrange(0, head.len() as int) =~= head);
    } else {
        let head = " ? help | : command | "@ + url;
        let whole = " ? help | : command"@ + (" | "@ + url);
        assert(head =~= whole);
        assert(line.subrange(0, head.len() as int) =~= head);
    }
    assert(line.subrange(line.len() - v, line.len() as int) =~= version);
}

/// Between the address and the version the bar is filled with spaces, but for its last cell.
pub proof fn law_status_filled(n: int, url: Seq<char>, version: Seq<char>, cols: int)
    requires
        n > 0,
        ({
            let head = " "@ + decimal(n as nat) + " links | ? help | : command"@;
            width_of(head) + width_of(" | "@ + url) + byte_len(version) < cols <= usize::MAX
        }),
        byte_len(version) >= 0,
    ensures
        ({
            let head = " "@ + decimal(n as nat) + " links | ? help | : command"@;
            let free = cols - 1 - width_of(head) - width_of(" | "@ + url) - byte_len(version);
            status_line(n, url, version, cols) == head + " | "@ + url + repeated(' ', free as nat)
                + version
        }),
{
    let head = " "@ + decimal(n as nat) + " links | ? help | : command"@;
    let free = cols - 1 - width_of(head) - width_of(" | "@ + url) - byte_len(version);
    assert(head + (" | "@ + url) =~= head + " | "@ + url);
    assert(status_line(n, url, version, cols) =~= head + " | "@ + url + repeated(' ', free as nat)
        + version);
}

/// Each set stands in the bar with its name and the number of its tabs, the current one
/// alone in brackets and bold.
pub proof fn law_set_marked(b: BrowserView, c: ConfigView, i: int)
    requires
        0 <= i < b.sets.len(),
    ensures
        ({
            let label = b.sets[i] + ": "@ + decimal(members(b.tab_set, i).len());
            let color = color_of_set(c, i);
            &&& i == b.current_set ==> has_part(
                tab_line(b, c),
                emboldened(painted(" ["@ + label + "] "@, color)),
            )
            &&& i != b.current_set ==> set_chips(b, c)[i] == painted(" "@ + label + " "@, color)
            &&& has_part(tab_line(b, c), set_chips(b, c)[i])
        }),
{
    let chips = set_chips(b, c);
    let all = join(chips, ""@);
    lemma_joined_part(chips, ""@, i);
    if in_current_set(b).len() > 1 {
        let tail = "  "@ + join(tab_marks(b), "\u{2502}"@);
        lemma_part_in(Seq::empty(), all, tail);
        assert(Seq::<char>::empty() + all + tail =~= tab_line(b, c));
        lemma_part_of_part(tab_line(b, c), all, chips[i]);
    }
}

/// Where the current set has more than one tab each of them has a mark: the current one
/// bright and bold, the others dim.
pub proof fn law_tab_marked(b: BrowserView, c: ConfigView, k: int)
    requires
        in_current_set(b).len() > 1,
        0 <= k < in_current_set(b).len(),
    ensures
        ({
            let i = in_current_set(b)[k];
            let t = b.tabs[i];
            let name = if t.title.len() > 0 {
                t.title
            } else {
                t.url
            };
            let short = if name.len() > 20 {
                name.take(20)
            } else {
                name
            };
            &&& i == b.current_tab ==> has_part(
                tab_line(b, c),
                emboldened(painted(" "@ + short + " "@, 255)),
            )
            &&& i != b.current_tab ==> tab_marks(b)[k] == painted(" "@ + short + " "@, 244)
            &&& has_part(tab_line(b, c), tab_marks(b)[k])
        }),
{
    let marks = tab_marks(b);
    let tail = join(marks, "\u{2502}"@);
    let head = join(set_chips(b, c), ""@) + "  "@;
    lemma_joined_part(marks, "\u{2502}"@, k);
    lemma_part_in(head, tail, Seq::empty());
    assert(head + tail + Seq::<char>::empty() =~= tab_line(b, c));
    lemma_part_of_part(tab_line(b, c), tail, marks[k]);
}

/// The message of a search tells which of how many matches is on show.
pub proof fn law_match_told(s: SearchView)
    requires
        is_search(s),
    ensures
        s.matches.len() == 0 ==> match_message(s) == " No matches"@,
        s.matches.len() > 0 ==> match_message(s) == " Match "@ + decimal((s.index + 1) as nat)
            + "/"@ + decimal(s.matches.len()),
{
}

// --- Images ---

/// An image is drawn where it is loaded and has a place on the screen, and only there.
pub proof fn law_image_drawn(
    images: Seq<ImageView>,
    loaded: Seq<bool>,
    top: int,
    v: Viewport,
    n: int,
    p: PlanView,
)
    requires
        0 <= n <= images.len(),
        loaded.len() == images.len(),
    ensures
        plan_to(images, loaded, top, v, n).contains(p) <==> exists|k: int|
            0 <= k < n && loaded[k] && #[trigger] placed(images[k], top, v) == Some(p),
    decreases n,
{
    if n > 0 {
        law_image_drawn(images, loaded, top, v, n - 1, p);
        let before = plan_to(images, loaded, top, v, n - 1);
        if let Some(x) = placed(images[n - 1], top, v) {
            let after = before.push(x);
            if before.contains(p) {
                let i = choose|i: int| 0 <= i < before.len() && before[i] == p;
                assert(after[i] == p);
            }
            if x == p {
                assert(after.last() == p);
            }
            if after.contains(p) && x != p {
                let i = choose|i: int| 0 <= i < after.len() && after[i] == p;
                assert(before[i] == p);
            }
        }
    }
}

/// An image is cleared where it was drawn and is not drawn any more, and only there.
pub proof fn law_image_cleared(
    old_plan: Seq<PlanView>,
    new_plan: Seq<PlanView>,
    n: int,
    path: Seq<char>,
)
    requires
        0 <= n <= old_plan.len(),
    ensures
        gone_to(old_plan, new_plan, n).contains(path) <==> (exists|k: int|
            0 <= k < n && (#[trigger] old_plan[k]).path == path) && !(exists|k: int|
            0 <= k < new_plan.len() && (#[trigger] new_plan[k]).path == path),
    decreases n,
{
    if n > 0 {
        law_image_cleared(old_plan, new_plan, n - 1, path);
        let before = gone_to(old_plan, new_plan, n - 1);
        let x = old_plan[n - 1].path;
        if !has_path(new_plan, x) {
            let after = before.push(x);
            if before.contains(path) {
                let i = choose|i: int| 0 <= i < before.len() && before[i] == path;
                assert(after[i] == path);
            }
            if x == path {
                assert(after.last() == path);
            }
            if after.contains(path) && x != path {
                let i = choose|i: int| 0 <= i < after.len() && after[i] == path;
                assert(before[i] == path);
            }
        }
    }
}

} // verus!
