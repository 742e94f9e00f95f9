//! POSIX shell quoting for relaunching in a new terminal window.

use crate::text::{append_chars, chars_of, push_char};
use vstd::prelude::*;

verus! {

broadcast use vstd::string::group_string_axioms;

/// A character that needs no quoting.
pub open spec fn is_safe_char(c: char) -> bool {
    ('0' <= c <= '9') || ('a' <= c <= 'z') || ('A' <= c <= 'Z') || c == '@' || c == '%' || c == '+'
        || c == '=' || c == ':' || c == ',' || c == '.' || c == '/' || c == '-' || c == '_'
}

/// Each `'` written as `'\''`, the rest kept.
pub open spec fn escape_quotes(s: Seq<char>) -> Seq<char>
    decreases s.len(),
{
    if s.len() == 0 {
        Seq::empty()
    } else {
        escape_quotes(s.drop_last()) + if s.last() == '\'' {
            seq!['\'', '\\', '\'', '\'']
        } else {
            seq![s.last()]
        }
    }
}

/// `s` as one shell word: unchanged when it is non-empty and all safe
/// characters, else in single quotes with its quotes escaped.
pub open spec fn shell_word(s: Seq<char>) -> Seq<char> {
    if s.len() > 0 && forall|i: int| 0 <= i < s.len() ==> is_safe_char(#[trigger] s[i]) {
        s
    } else {
        seq!['\''] + escape_quotes(s) + seq!['\'']
    }
}

/// The command line of `exe` and `args`, each quoted, separated by spaces.
pub open spec fn command_line(exe: Seq<char>, args: Seq<Seq<char>>) -> Seq<char>
    decreases args.len(),
{
    if args.len() == 0 {
        shell_word(exe)
    } else {
        command_line(exe, args.drop_last()) + seq![' '] + shell_word(args.last())
    }
}

/// Quotes `s` as one POSIX shell word.
pub fn shell_quote(s: &str) -> (r: String)
    ensures
        r@ == shell_word(s@),
{
    let v = chars_of(s);
    let mut safe = v.len() > 0;
    let mut i: usize = 0;
    while i < v.len()
        invariant
            i <= v@.len(),
            v@ == s@,
            safe == (v@.len() > 0 && forall|k: int| 0 <= k < i ==> is_safe_char(#[trigger] v@[k])),
        decreases v@.len() - i,
    {
        let c = v[i];
        let ok = ('0' <= c && c <= '9') || ('a' <= c && c <= 'z') || ('A' <= c && c <= 'Z') || c
            == '@' || c == '%' || c == '+' || c == '=' || c == ':' || c == ',' || c == '.' || c
            == '/' || c == '-' || c == '_';
        if !ok {
            safe = false;
        }
        i += 1;
    }
    if safe {
        return String::from_str(s);
    }
    let mut r = String::new();
    push_char(&mut r, '\'');
    let mut k: usize = 0;
    while k < v.len()
        invariant
            k <= v@.len(),
            v@ == s@,
            r@ == seq!['\''] + escape_quotes(v@.take(k as int)),
        decreases v@.len() - k,
    {
        assert(v@.take(k + 1).drop_last() =~= v@.take(k as int));
        if v[k] == '\'' {
            push_char(&mut r, '\'');
            push_char(&mut r, '\\');
            push_char(&mut r, '\'');
            push_char(&mut r, '\'');
        } else {
            push_char(&mut r, v[k]);
        }
        k += 1;
        assert(r@ =~= seq!['\''] + escape_quotes(v@.take(k as int)));
    }
    push_char(&mut r, '\'');
    assert(v@.take(k as int) =~= v@);
    r
}

/// The quoted command line for `exe` with `args`.
pub fn quote_posix(exe: &str, args: &Vec<String>) -> (r: String)
    ensures
        r@ == command_line(exe@, crate::git::strings_view(args@)),
{
    let mut out = shell_quote(exe);
    let mut i: usize = 0;
    while i < args.len()
        invariant
            i <= args@.len(),
            out@ == command_line(exe@, crate::git::strings_view(args@).take(i as int)),
        decreases args@.len() - i,
    {
        proof {
            let sv = crate::git::strings_view(args@);
            assert(sv.take(i + 1).drop_last() =~= sv.take(i as int));
            assert(sv.take(i + 1).last() == args@[i as int]@);
        }
        push_char(&mut out, ' ');
        let q = shell_quote(args[i].as_str());
        append_chars(&mut out, q.as_str());
        i += 1;
    }
    assert(crate::git::strings_view(args@).take(i as int) =~= crate::git::strings_view(args@));
    out
}


/// Backslashes and double quotes escaped for an AppleScript string.
pub open spec fn applescript_escaped(s: Seq<char>) -> Seq<char>
    decreases s.len(),
{
    if s.len() == 0 {
        Seq::empty()
    } else {
        applescript_escaped(s.drop_last()) + if s.last() == '\\' {
            seq!['\\', '\\']
        } else if s.last() == '"' {
            seq!['\\', '"']
        } else {
            seq![s.last()]
        }
    }
}

/// Escapes `s` for use inside an AppleScript string literal.
pub fn applescript_escape(s: &str) -> (r: String)
    ensures
        r@ == applescript_escaped(s@),
{
    let v = chars_of(s);
    let mut r = String::new();
    let mut k: usize = 0;
    while k < v.len()
        invariant
            k <= v@.len(),
            v@ == s@,
            r@ == applescript_escaped(v@.take(k as int)),
        decreases v@.len() - k,
    {
        assert(v@.take(k + 1).drop_last() =~= v@.take(k as int));
        let c = v[k];
        if c == '\\' {
            push_char(&mut r, '\\');
            push_char(&mut r, '\\');
        } else if c == '"' {
            push_char(&mut r, '\\');
            push_char(&mut r, '"');
        } else {
            push_char(&mut r, c);
        }
        k += 1;
        assert(r@ =~= applescript_escaped(v@.take(k as int)));
    }
    assert(v@.take(k as int) =~= v@);
    r
}

} // verus!
