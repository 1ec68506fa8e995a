//! User names and passwords for sites.

use vstd::prelude::*;
use crate::forms::creds_view;
use crate::strmap::{lookup, Duplicate, StrMap};
use crate::text::{
    chars2, chars_of, concat3, lines, lines_chars, replace_char, replaced, string_of,
};

verus! {

broadcast use vstd::string::group_string_axioms;

/// The shell command that asks for the credentials of `host`. The host stands in single
/// quotes, and a quote in it is written so that it does not end them.
pub open spec fn command_line(command: Seq<char>, host: Seq<char>) -> Seq<char> {
    command + " '"@ + replaced(host, '\'', "'\\''"@) + "'"@
}

pub fn password_command(command: &str, host: &str) -> (r: String)
    ensures
        r@ == command_line(command@, host@),
{
    let escaped = replace_char(host, '\'', "'\\''");
    let mut r = concat3(command, " '", escaped.as_str());
    r.append("'");
    r
}

/// How a shell reads on: bare, within single quotes, or behind a backslash.
pub enum ShellMode {
    Bare,
    Quoted,
    Escaped,
}

/// The text that a shell has read from the characters of a word, and how it reads on.
pub open spec fn shell_read(s: Seq<char>) -> (Seq<char>, ShellMode)
    decreases s.len(),
{
    if s.len() == 0 {
        (Seq::empty(), ShellMode::Bare)
    } else {
        let (t, m) = shell_read(s.drop_last());
        let c = s.last();
        match m {
            ShellMode::Quoted => if c == '\'' {
                (t, ShellMode::Bare)
            } else {
                (t.push(c), ShellMode::Quoted)
            },
            ShellMode::Escaped => (t.push(c), ShellMode::Bare),
            ShellMode::Bare => if c == '\'' {
                (t, ShellMode::Quoted)
            } else if c == '\\' {
                (t, ShellMode::Escaped)
            } else {
                (t.push(c), ShellMode::Bare)
            },
        }
    }
}

proof fn lemma_shell_step(s: Seq<char>, c: char)
    ensures
        s.push(c).drop_last() == s,
        s.push(c).last() == c,
{
    assert(s.push(c).drop_last() =~= s);
}

proof fn lemma_quoted(host: Seq<char>)
    ensures
        shell_read(seq!['\''] + replaced(host, '\'', "'\\''"@)) == (host, ShellMode::Quoted),
    decreases host.len(),
{
    reveal_strlit("'\\''");
    let esc = "'\\''"@;
    assert(esc =~= seq!['\'', '\\', '\'', '\'']);
    if host.len() == 0 {
        let q = Seq::<char>::empty().push('\'');
        lemma_shell_step(Seq::empty(), '\'');
        assert(shell_read(q.drop_last()) == (Seq::<char>::empty(), ShellMode::Bare));
        assert(seq!['\''] + replaced(host, '\'', esc) =~= q);
        assert(host =~= Seq::empty());
    } else {
        let d = host.drop_last();
        lemma_quoted(d);
        let s = seq!['\''] + replaced(d, '\'', esc);
        let c = host.last();
        let all = seq!['\''] + replaced(host, '\'', esc);
        if c == '\'' {
            let s1 = s.push('\'');
            let s2 = s1.push('\\');
            let s3 = s2.push('\'');
            let s4 = s3.push('\'');
            lemma_shell_step(s, '\'');
            lemma_shell_step(s1, '\\');
            lemma_shell_step(s2, '\'');
            lemma_shell_step(s3, '\'');
            assert(shell_read(s1) == (d, ShellMode::Bare));
            assert(shell_read(s2) == (d, ShellMode::Escaped));
            assert(shell_read(s3) == (d.push('\''), ShellMode::Bare));
            assert(shell_read(s4) == (d.push('\''), ShellMode::Quoted));
            assert(all =~= s4);
        } else {
            lemma_shell_step(s, c);
            assert(all =~= s.push(c));
        }
        assert(d.push(c) =~= host);
    }
}

/// Whatever the host, a shell reads the word that stands for it as the host, to the end.
pub proof fn law_host_quoted(host: Seq<char>)
    ensures
        shell_read("'"@ + replaced(host, '\'', "'\\''"@) + "'"@) == (host, ShellMode::Bare),
{
    reveal_strlit("'");
    lemma_quoted(host);
    let s = seq!['\''] + replaced(host, '\'', "'\\''"@);
    lemma_shell_step(s, '\'');
    assert("'"@ + replaced(host, '\'', "'\\''"@) + "'"@ =~= s.push('\''));
}

/// The command is run as it is configured, and a shell hands it one more word: the host.
pub proof fn law_command_asks(command: Seq<char>, host: Seq<char>)
    ensures
        command_line(command, host).take(command.len() as int + 1) == command.push(' '),
        shell_read(command_line(command, host).skip(command.len() as int + 1)) == (
            host,
            ShellMode::Bare,
        ),
{
    reveal_strlit("'");
    reveal_strlit(" '");
    let line = command_line(command, host);
    law_host_quoted(host);
    assert(line.take(command.len() as int + 1) =~= command.push(' '));
    assert(line.skip(command.len() as int + 1) =~= "'"@ + replaced(host, '\'', "'\\''"@) + "'"@);
}

/// The credentials that the command printed: a user name and a password on two lines.
pub open spec fn printed(out: Seq<char>) -> Option<(Seq<char>, Seq<char>)> {
    let ls = lines(out);
    if ls.len() >= 2 && ls[0].len() > 0 && ls[1].len() > 0 {
        Some((ls[0], ls[1]))
    } else {
        None
    }
}

pub fn parse_credentials(out: &str) -> (r: Option<(String, String)>)
    ensures
        creds_view(r) == printed(out@),
{
    let ls = lines_chars(&chars_of(out));
    let ghost all = lines(out@);
    assert(all == chars2(ls@));
    if ls.len() >= 2 {
        assert(all[0] == ls@[0]@ && all[1] == ls@[1]@);
        if ls[0].len() > 0 && ls[1].len() > 0 {
            return Some((string_of(&ls[0]), string_of(&ls[1])));
        }
    }
    None
}

/// The credentials for a host: those that the command printed, else those that are stored.
pub open spec fn credentials(
    output: Option<Seq<char>>,
    stored: Seq<(Seq<char>, (Seq<char>, Seq<char>))>,
    host: Seq<char>,
) -> Option<(Seq<char>, Seq<char>)> {
    match output {
        Some(out) => match printed(out) {
            Some(c) => Some(c),
            None => lookup(stored, host),
        },
        None => lookup(stored, host),
    }
}

/// The credentials for `host`. `output` is what the command printed, where there is one
/// and it succeeded.
pub fn lookup_password(
    output: Option<&str>,
    stored: &StrMap<(String, String)>,
    host: &str,
) -> (r: Option<(String, String)>)
    ensures
        creds_view(r) == credentials(crate::config::opt_str(output), stored@, host@),
{
    if let Some(out) = output {
        if let Some(c) = parse_credentials(out) {
            return Some(c);
        }
    }
    match stored.get(host) {
        Some(c) => Some(c.duplicate()),
        None => None,
    }
}

} // verus!
