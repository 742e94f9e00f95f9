//! `git blame --porcelain` output turned into per-line author data.

use crate::parse::{first_match_from, or_default, ws_tokens, ws_tokens_chars};
use crate::text::{
    chars_of, copy_chars, lines_chars, lines_of, parse_signed, parse_signed_chars, parse_u32,
    parse_u32_chars, push_char, push_padded, fmt_padded, is_hex_digit, string_of, string_of_all,
    trim, trim_bounds, views_of,
};
use std::collections::HashMap;
use vstd::prelude::*;
use vstd::utf8::{encode_utf8, is_char_boundary};

verus! {

broadcast use {vstd::string::group_string_axioms, vstd::std_specs::hash::group_hash_axioms};

#[derive(Debug, Clone)]
pub struct BlameLine {
    pub short_hash: String,
    pub author: String,
    pub date: String,
}

pub ghost struct BlameLineV {
    pub short_hash: Seq<char>,
    pub author: Seq<char>,
    pub date: Seq<char>,
}

impl View for BlameLine {
    type V = BlameLineV;

    open spec fn view(&self) -> BlameLineV {
        BlameLineV { short_hash: self.short_hash@, author: self.author@, date: self.date@ }
    }
}

impl BlameLine {
    pub fn duplicate(&self) -> (r: BlameLine)
        ensures
            r@ == self@,
    {
        BlameLine {
            short_hash: self.short_hash.clone(),
            author: self.author.clone(),
            date: self.date.clone(),
        }
    }
}

/// Blame data of one file, keyed by final line number.
#[derive(Debug, Clone, Default)]
pub struct Blame {
    pub by_line: HashMap<u32, BlameLine>,
}

/// `m` holds exactly the lines of `s`.
pub open spec fn blame_matches(m: Map<u32, BlameLine>, s: Map<u32, BlameLineV>) -> bool {
    &&& m.dom() == s.dom()
    &&& forall|k: u32| #[trigger] m.contains_key(k) ==> m[k]@ == s[k]
}

// ---------------------------------------------------------------------------
// Dates
// ---------------------------------------------------------------------------

/// The civil date `(year, month, day)` of a count of seconds since the Unix
/// epoch (Howard Hinnant's `civil_from_days`).
pub open spec fn civil(secs: int) -> (int, int, int) {
    let days = secs / 86400;
    let z = days + 719468;
    let era = z / 146097;
    let doe = z - era * 146097;
    let yoe = (doe - doe / 1460 + doe / 36524 - doe / 146096) / 365;
    let y = yoe + era * 400;
    let doy = doe - (365 * yoe + yoe / 4 - yoe / 100);
    let mp = (5 * doy + 2) / 153;
    let d = doy - (153 * mp + 2) / 5 + 1;
    let m = if mp < 10 {
        mp + 3
    } else {
        mp - 9
    };
    let y = if m <= 2 {
        y + 1
    } else {
        y
    };
    (y, m, d)
}

/// `YYYY-MM-DD` of a time in seconds; empty for time 0.
pub open spec fn date_text(secs: int) -> Seq<char> {
    if secs == 0 {
        Seq::empty()
    } else {
        let (y, m, d) = civil(secs);
        fmt_padded(y, 4) + seq!['-'] + fmt_padded(m, 2) + seq!['-'] + fmt_padded(d, 2)
    }
}

/// `a / d` rounded toward negative infinity.
fn floor_div(a: i64, d: i64) -> (r: i64)
    requires
        d > 0,
    ensures
        r == a / d,
{
    if a >= 0 {
        ((a as u64) / (d as u64)) as i64
    } else {
        let m = (-(a + 1)) as u64;
        let q = (m / (d as u64)) as i64;
        proof {
            let rm = (m as int) % (d as int);
            vstd::arithmetic::div_mod::lemma_fundamental_div_mod(m as int, d as int);
            assert(0 <= rm < d);
            assert(a == (-(q as int) - 1) * d + (d - 1 - rm)) by (nonlinear_arith)
                requires
                    m as int == (d as int) * (q as int) + rm,
                    m as int == -(a as int) - 1,
            ;
            vstd::arithmetic::div_mod::lemma_fundamental_div_mod_converse(
                a as int,
                d as int,
                -(q as int) - 1,
                d - 1 - rm,
            );
            assert(q as int <= m as int) by (nonlinear_arith)
                requires
                    m as int == (d as int) * (q as int) + rm,
                    d >= 1,
                    rm >= 0,
                    q >= 0,
            ;
        }
        -q - 1
    }
}

proof fn lemma_div_range(a: int, d: int, lo: int, hi: int)
    requires
        d > 0,
        lo <= a <= hi,
    ensures
        lo / d <= a / d <= hi / d,
{
    vstd::arithmetic::div_mod::lemma_div_is_ordered(lo, a, d);
    vstd::arithmetic::div_mod::lemma_div_is_ordered(a, hi, d);
}

/// `(year, month, day)` of a time in seconds.
fn civil_from_secs(secs: i64) -> (r: (i64, i64, i64))
    ensures
        (r.0 as int, r.1 as int, r.2 as int) == civil(secs as int),
{
    let days = floor_div(secs, 86400);
    proof {
        lemma_div_range(secs as int, 86400, i64::MIN as int, i64::MAX as int);
    }
    let z = days + 719468;
    let era = floor_div(z, 146097);
    proof {
        lemma_div_range(z as int, 146097, i64::MIN as int / 86400, i64::MAX as int / 86400 + 719468);
        vstd::arithmetic::div_mod::lemma_fundamental_div_mod(z as int, 146097);
        vstd::arithmetic::div_mod::lemma_mod_bound(z as int, 146097);
    }
    let doe = z - era * 146097;
    assert(0 <= doe < 146097);
    proof {
        lemma_div_range(doe as int, 1460, 0, 146096);
        lemma_div_range(doe as int, 36524, 0, 146096);
        lemma_div_range(doe as int, 146096, 0, 146096);
    }
    let n = doe - floor_div(doe, 1460) + floor_div(doe, 36524) - floor_div(doe, 146096);
    proof {
        lemma_div_range(n as int, 365, 0, 146100int);
    }
    let yoe = floor_div(n, 365);
    let y0 = yoe + era * 400;
    proof {
        lemma_div_range(yoe as int, 4, 0, 401);
        lemma_div_range(yoe as int, 100, 0, 401);
    }
    let doy = doe - (365 * yoe + floor_div(yoe, 4) - floor_div(yoe, 100));
    proof {
        lemma_div_range(5 * doy + 2, 153, -732000int, 730487int);
    }
    let mp = floor_div(5 * doy + 2, 153);
    proof {
        lemma_div_range(153 * mp + 2, 5, -734400int, 734402int);
    }
    let d = doy - floor_div(153 * mp + 2, 5) + 1;
    let m = if mp < 10 {
        mp + 3
    } else {
        mp - 9
    };
    let y = if m <= 2 {
        y0 + 1
    } else {
        y0
    };
    (y, m, d)
}

/// `YYYY-MM-DD` (`{:04}-{:02}-{:02}`) of seconds since the epoch, as the
/// local date of a blame line; empty for 0.
pub fn format_date_ymd(epoch_seconds: i64) -> (r: String)
    ensures
        r@ == date_text(epoch_seconds as int),
{
    if epoch_seconds == 0 {
        return String::new();
    }
    let (y, m, d) = civil_from_secs(epoch_seconds);
    let mut r = String::new();
    push_padded(&mut r, y, 4);
    push_char(&mut r, '-');
    push_padded(&mut r, m, 2);
    push_char(&mut r, '-');
    push_padded(&mut r, d, 2);
    assert(r@ =~= date_text(epoch_seconds as int));
    r
}

// ---------------------------------------------------------------------------
// Time zones
// ---------------------------------------------------------------------------

/// The value of the two characters `x`, `y` as `str::parse::<i32>` reads
/// them, where both are ASCII; 0 where the parse fails or they are not.
pub open spec fn two_byte_value(x: u8, y: u8) -> int {
    if x < 128 && y < 128 {
        match parse_signed(seq![x as char, y as char], i32::MIN as int, i32::MAX as int) {
            Some(v) => v,
            None => 0,
        }
    } else {
        0
    }
}

/// Seconds east of UTC of an `author-tz` value such as `+0530`: the trimmed
/// text must be exactly five bytes, a sign then hours and minutes; anything
/// else gives 0.
pub open spec fn tz_value(s: Seq<char>) -> int {
    let b = encode_utf8(trim(s));
    if b.len() != 5 {
        0
    } else {
        let h = two_byte_value(b[1], b[2]);
        let m = two_byte_value(b[3], b[4]);
        if b[0] == 43 {
            h * 3600 + m * 60
        } else if b[0] == 45 {
            -(h * 3600 + m * 60)
        } else {
            0
        }
    }
}

/// The inputs on which reading the offset slices text at a character
/// boundary (elsewhere `&s[1..3]` would panic).
pub open spec fn tz_safe(s: Seq<char>) -> bool {
    let b = encode_utf8(trim(s));
    b.len() != 5 || (b[0] != 43 && b[0] != 45) || is_char_boundary(b, 3)
}

fn two_byte(x: u8, y: u8) -> (r: i32)
    ensures
        r as int == two_byte_value(x, y),
        -99 <= r <= 99,
{
    if x < 128 && y < 128 {
        let v: Vec<char> = vec![x as char, y as char];
        assert(v@ =~= seq![x as char, y as char]);
        match parse_signed_chars(&v, 0, 2, 0x8000_0000, 0x7fff_ffff) {
            Some(n) => {
                assert(v@.subrange(0, 2) =~= v@);
                proof {
                    lemma_two_digit_bound(v@);
                }
                n as i32
            },
            None => {
                assert(v@.subrange(0, 2) =~= v@);
                0
            },
        }
    } else {
        0
    }
}

proof fn lemma_two_digit_bound(s: Seq<char>)
    requires
        s.len() == 2,
    ensures
        match parse_signed(s, i32::MIN as int, i32::MAX as int) {
            Some(v) => -99 <= v <= 99,
            None => true,
        },
{
    reveal_with_fuel(crate::text::digits_value, 3);
    let t = s.drop_first();
    assert(t.drop_last() =~= Seq::<char>::empty());
    assert(s.drop_last().drop_last() =~= Seq::<char>::empty());
    assert(s.drop_last().last() == s[0]);
    assert(s.last() == s[1]);
    assert(t.last() == s[1]);
    assert(t[0] == s[1]);
    if crate::text::all_digits(t) {
        assert(crate::text::is_digit(t[0]));
        assert(crate::text::digits_value(t) <= 9);
    }
    if crate::text::all_digits(s) {
        assert(crate::text::is_digit(s[0]));
        assert(crate::text::is_digit(s[1]));
        assert(crate::text::digits_value(s.drop_last()) <= 9);
        assert(crate::text::digits_value(s) <= 99);
    }
}

/// Seconds east of UTC of a `+HHMM`/`-HHMM` offset; 0 when malformed.
pub fn parse_tz_offset(s: &str) -> (r: i32)
    requires
        tz_safe(s@),
    ensures
        r as int == tz_value(s@),
{
    let v = chars_of(s);
    let (a, b) = trim_bounds(&v, 0, v.len());
    assert(v@.subrange(0, v@.len() as int) =~= s@);
    let t = s.substring_char(a, b);
    let bytes = t.as_bytes();
    assert(bytes@ == encode_utf8(trim(s@)));
    if bytes.len() != 5 {
        return 0;
    }
    let h = two_byte(bytes[1], bytes[2]);
    let m = two_byte(bytes[3], bytes[4]);
    if bytes[0] == 43 {
        h * 3600 + m * 60
    } else if bytes[0] == 45 {
        -(h * 3600 + m * 60)
    } else {
        0
    }
}

// ---------------------------------------------------------------------------
// Porcelain
// ---------------------------------------------------------------------------

/// A commit object id: 40 (SHA-1) or 64 (SHA-256) hex digits.
pub open spec fn is_hash(s: Seq<char>) -> bool {
    (s.len() == 40 || s.len() == 64) && forall|i: int| 0 <= i < s.len() ==> is_hex_digit(
        #[trigger] s[i],
    )
}

pub fn is_commit_hash(s: &str) -> (r: bool)
    ensures
        r == is_hash(s@),
{
    let v = chars_of(s);
    assert(v@.subrange(0, v@.len() as int) =~= s@);
    is_hash_chars(&v, 0, v.len())
}

fn is_hash_chars(v: &Vec<char>, lo: usize, hi: usize) -> (r: bool)
    requires
        lo <= hi <= v.len(),
    ensures
        r == is_hash(v@.subrange(lo as int, hi as int)),
{
    let ghost s = v@.subrange(lo as int, hi as int);
    let len = hi - lo;
    if len != 40 && len != 64 {
        return false;
    }
    let mut i = lo;
    while i < hi
        invariant
            lo <= i <= hi <= v.len(),
            s == v@.subrange(lo as int, hi as int),
            forall|k: int| 0 <= k < i - lo ==> is_hex_digit(#[trigger] s[k]),
        decreases hi - i,
    {
        let c = v[i];
        if !(('0' <= c && c <= '9') || ('a' <= c && c <= 'f') || ('A' <= c && c <= 'F')) {
            assert(s[i - lo] == c);
            return false;
        }
        i += 1;
    }
    true
}

/// What the parser knows after a prefix of the porcelain lines.
pub ghost struct PorcelainState {
    pub by_line: Map<u32, BlameLineV>,
    /// Per-commit data in the order commits were first seen.
    pub commits: Seq<(Seq<char>, BlameLineV)>,
    pub hash: Seq<char>,
    pub fin: u32,
    pub author: Seq<char>,
    pub time: int,
    pub tz: int,
}

/// The data first cached for `key`.
pub open spec fn cache_lookup(c: Seq<(Seq<char>, BlameLineV)>, key: Seq<char>) -> Option<
    BlameLineV,
>
    decreases c.len(),
{
    if c.len() == 0 {
        None
    } else {
        match cache_lookup(c.drop_last(), key) {
            Some(v) => Some(v),
            None => if c.last().0 == key {
                Some(c.last().1)
            } else {
                None
            },
        }
    }
}

pub open spec fn lit_author() -> Seq<char> {
    seq!['a', 'u', 't', 'h', 'o', 'r']
}

pub open spec fn lit_author_time() -> Seq<char> {
    seq!['a', 'u', 't', 'h', 'o', 'r', '-', 't', 'i', 'm', 'e']
}

pub open spec fn lit_author_tz() -> Seq<char> {
    seq!['a', 'u', 't', 'h', 'o', 'r', '-', 't', 'z']
}

/// The first seven characters of a hash (all of it when shorter).
pub open spec fn short_hash_of(h: Seq<char>) -> Seq<char> {
    if h.len() >= 7 {
        h.take(7)
    } else {
        h
    }
}

/// The data a content line gets: the commit's cached data, else what the
/// current header lines say.
pub open spec fn entry_for(st: PorcelainState) -> BlameLineV {
    match cache_lookup(st.commits, st.hash) {
        Some(v) => v,
        None => BlameLineV {
            short_hash: short_hash_of(st.hash),
            author: st.author,
            date: date_text(st.time + st.tz),
        },
    }
}

pub open spec fn is_content(line: Seq<char>) -> bool {
    line.len() > 0 && line[0] == '\t'
}

/// The position of the first space, or the length when there is none.
pub open spec fn space_at(line: Seq<char>) -> int {
    first_match_from(line, seq![' '], 0)
}

/// One porcelain line applied to the parser state.
pub open spec fn porcelain_step(st: PorcelainState, line: Seq<char>) -> PorcelainState {
    if is_content(line) {
        let e = entry_for(st);
        PorcelainState {
            by_line: st.by_line.insert(st.fin, e),
            commits: if cache_lookup(st.commits, st.hash) is Some {
                st.commits
            } else {
                st.commits.push((st.hash, e))
            },
            ..st
        }
    } else {
        let sp = space_at(line);
        if sp >= line.len() {
            st
        } else {
            let key = line.take(sp);
            let rest = line.skip(sp + 1);
            if is_hash(key) {
                let toks = ws_tokens(rest);
                let fin = if toks.len() > 1 {
                    or_default(parse_u32(toks[1]), 0)
                } else {
                    0
                };
                if cache_lookup(st.commits, key) is Some {
                    PorcelainState { hash: key, fin, ..st }
                } else {
                    PorcelainState { hash: key, fin, author: Seq::empty(), time: 0, tz: 0, ..st }
                }
            } else if key == lit_author() {
                PorcelainState { author: rest, ..st }
            } else if key == lit_author_time() {
                PorcelainState {
                    time: match parse_signed(rest, i64::MIN as int, i64::MAX as int) {
                        Some(t) => t,
                        None => 0,
                    },
                    ..st
                }
            } else if key == lit_author_tz() {
                PorcelainState { tz: tz_value(rest), ..st }
            } else {
                st
            }
        }
    }
}

/// The line does not make the parser panic from the given state: a new
/// commit's local time fits in `i64`, and a time zone slices at a boundary.
pub open spec fn step_ok(st: PorcelainState, line: Seq<char>) -> bool {
    if is_content(line) {
        cache_lookup(st.commits, st.hash) is Some || (i64::MIN <= st.time + st.tz <= i64::MAX)
    } else {
        let sp = space_at(line);
        sp < line.len() && line.take(sp) == lit_author_tz() ==> tz_safe(line.skip(sp + 1))
    }
}

pub open spec fn initial_state() -> PorcelainState {
    PorcelainState {
        by_line: Map::empty(),
        commits: Seq::empty(),
        hash: Seq::empty(),
        fin: 0,
        author: Seq::empty(),
        time: 0,
        tz: 0,
    }
}

/// The state after all of `lines`.
pub open spec fn porcelain_state(lines: Seq<Seq<char>>) -> PorcelainState
    decreases lines.len(),
{
    if lines.len() == 0 {
        initial_state()
    } else {
        porcelain_step(porcelain_state(lines.drop_last()), lines.last())
    }
}

/// No line of the input makes the parser panic.
pub open spec fn porcelain_ok(lines: Seq<Seq<char>>) -> bool
    decreases lines.len(),
{
    lines.len() == 0 || (porcelain_ok(lines.drop_last()) && step_ok(
        porcelain_state(lines.drop_last()),
        lines.last(),
    ))
}

/// The blame of `git blame --porcelain` output, keyed by final line number.
pub open spec fn blame_of(s: Seq<char>) -> Map<u32, BlameLineV> {
    porcelain_state(lines_of(s)).by_line
}

pub open spec fn cache_view(c: Seq<(String, BlameLine)>) -> Seq<(Seq<char>, BlameLineV)> {
    c.map_values(|p: (String, BlameLine)| (p.0@, p.1@))
}

fn cache_find(c: &Vec<(String, BlameLine)>, key: &Vec<char>) -> (r: Option<usize>)
    ensures
        match r {
            Some(i) => i < c@.len() && cache_lookup(cache_view(c@), key@) == Some(
                cache_view(c@)[i as int].1,
            ),
            None => cache_lookup(cache_view(c@), key@) is None,
        },
{
    let ghost cv = cache_view(c@);
    let mut i: usize = 0;
    while i < c.len()
        invariant
            i <= c@.len(),
            cv == cache_view(c@),
            cache_lookup(cv.take(i as int), key@) is None,
        decreases c.len() - i,
    {
        assert(cv.take(i + 1).drop_last() =~= cv.take(i as int));
        let k = chars_of(c[i].0.as_str());
        if crate::text::seq_eq(&k, key) {
            proof {
                lemma_cache_lookup_prefix(cv, key@, i as int + 1);
            }
            return Some(i);
        }
        i += 1;
    }
    assert(cv.take(i as int) =~= cv);
    None
}

proof fn lemma_cache_lookup_prefix(c: Seq<(Seq<char>, BlameLineV)>, key: Seq<char>, n: int)
    requires
        0 <= n <= c.len(),
        cache_lookup(c.take(n), key) is Some,
    ensures
        cache_lookup(c, key) == cache_lookup(c.take(n), key),
    decreases c.len() - n,
{
    if n < c.len() {
        assert(c.take(n + 1).drop_last() =~= c.take(n));
        lemma_cache_lookup_prefix(c, key, n + 1);
    } else {
        assert(c.take(n) =~= c);
    }
}

/// Parses `git blame --porcelain` output: header lines (`<hash> <orig>
/// <final> ...`, `author`, `author-time`, `author-tz`) set the current
/// commit, and each content line (starting with a tab) records that commit's
/// short hash, author and local date for the current final line number.
/// Metadata is cached per commit, so later hunks of a commit reuse it.
pub fn parse_porcelain(stdout: &str) -> (r: Blame)
    requires
        porcelain_ok(lines_of(stdout@)),
    ensures
        blame_matches(r.by_line@, blame_of(stdout@)),
{
    match parse_porcelain_checked(stdout) {
        Some(b) => b,
        None => Blame { by_line: HashMap::new() },
    }
}

/// Whether reading the `author-tz` value `s` slices its text at character
/// boundaries only.
pub fn tz_offset_safe(s: &str) -> (r: bool)
    ensures
        r == tz_safe(s@),
{
    let v = chars_of(s);
    let (a, b) = trim_bounds(&v, 0, v.len());
    assert(v@.subrange(0, v@.len() as int) =~= s@);
    let t = s.substring_char(a, b);
    let bytes = t.as_bytes();
    assert(bytes@ == encode_utf8(trim(s@)));
    bytes.len() != 5 || (bytes[0] != 43 && bytes[0] != 45) || t.is_char_boundary(3)
}

/// `parse_porcelain` on every input: `None` exactly where a line would make
/// that parser panic (a commit's local time outside `i64`, or a time zone
/// that would be sliced inside a character).
pub fn parse_porcelain_checked(stdout: &str) -> (r: Option<Blame>)
    ensures
        r is Some <==> porcelain_ok(lines_of(stdout@)),
        r matches Some(b) ==> blame_matches(b.by_line@, blame_of(stdout@)),
{
    let v = chars_of(stdout);
    let lines = lines_chars(&v, 0, v.len());
    assert(v@.subrange(0, v@.len() as int) =~= stdout@);
    let ghost ls = views_of(lines@);
    let mut by_line: HashMap<u32, BlameLine> = HashMap::new();
    let mut commits: Vec<(String, BlameLine)> = Vec::new();
    let mut hash: Vec<char> = Vec::new();
    let mut fin: u32 = 0;
    let mut author: Vec<char> = Vec::new();
    let mut time: i64 = 0;
    let mut tz: i32 = 0;
    let k_author: [char; 6] = ['a', 'u', 't', 'h', 'o', 'r'];
    let k_time: [char; 11] = ['a', 'u', 't', 'h', 'o', 'r', '-', 't', 'i', 'm', 'e'];
    let k_tz: [char; 9] = ['a', 'u', 't', 'h', 'o', 'r', '-', 't', 'z'];
    assert(k_author@ =~= lit_author());
    assert(k_time@ =~= lit_author_time());
    assert(k_tz@ =~= lit_author_tz());
    let mut i: usize = 0;
    while i < lines.len()
        invariant
            i <= lines.len(),
            ls == views_of(lines@),
            ls == lines_of(stdout@),
            porcelain_ok(ls.take(i as int)),
            k_author@ == lit_author(),
            k_time@ == lit_author_time(),
            k_tz@ == lit_author_tz(),
            ({
                let st = porcelain_state(ls.take(i as int));
                &&& blame_matches(by_line@, st.by_line)
                &&& cache_view(commits@) == st.commits
                &&& hash@ == st.hash
                &&& fin == st.fin
                &&& author@ == st.author
                &&& time as int == st.time
                &&& tz as int == st.tz
            }),
        decreases lines.len() - i,
    {
        let line = &lines[i];
        let ghost st = porcelain_state(ls.take(i as int));
        proof {
            assert(line@ == ls[i as int]);
            assert(ls.take(i + 1).drop_last() =~= ls.take(i as int));
            assert(ls.take(i + 1).last() == line@);
            if porcelain_ok(ls) {
                lemma_ok_prefix(ls, i as int + 1);
            }
        }
        if line.len() > 0 && line[0] == '\t' {
            let found = cache_find(&commits, &hash);
            let entry = match found {
                Some(j) => commits[j].1.duplicate(),
                None => {
                    if time.checked_add(tz as i64).is_none() {
                        return None;
                    }
                    let short = if hash.len() >= 7 {
                        string_of(&hash, 0, 7)
                    } else {
                        string_of_all(&hash)
                    };
                    assert(short@ == short_hash_of(hash@));
                    let local = time + tz as i64;
                    let e = BlameLine {
                        short_hash: short,
                        author: string_of_all(&author),
                        date: format_date_ymd(local),
                    };
                    let ghost before = cache_view(commits@);
                    commits.push((string_of_all(&hash), e.duplicate()));
                    assert(cache_view(commits@) =~= before.push((hash@, e@)));
                    e
                },
            };
            assert(entry@ == entry_for(st));
            let ghost old_map = by_line@;
            by_line.insert(fin, entry);
            proof {
                assert(by_line@ == old_map.insert(fin, entry));
                assert(by_line@.dom() =~= st.by_line.insert(st.fin, entry_for(st)).dom());
            }
        } else {
            let sp = space_index(line);
            if sp < line.len() {
                let key = copy_chars(line, 0, sp);
                assert(key@ =~= line@.take(sp as int));
                assert(line@.subrange(sp + 1, line@.len() as int) =~= line@.skip(sp + 1));
                if is_hash_chars(line, 0, sp) {
                    assert(line@.subrange(0, sp as int) =~= line@.take(sp as int));
                    let toks = ws_tokens_chars(line, sp + 1, line.len());
                    let new_fin = if toks.len() > 1 {
                        assert(toks@[1]@.subrange(0, toks@[1]@.len() as int) =~= toks@[1]@);
                        match parse_u32_chars(&toks[1], 0, toks[1].len()) {
                            Some(n) => n,
                            None => 0,
                        }
                    } else {
                        0
                    };
                    let cached = cache_find(&commits, &key);
                    hash = key;
                    fin = new_fin;
                    if cached.is_none() {
                        author = Vec::new();
                        time = 0;
                        tz = 0;
                    }
                } else if crate::text::eq_slice(&key, &k_author) {
                    author = copy_chars(line, sp + 1, line.len());
                } else if crate::text::eq_slice(&key, &k_time) {
                    time = match parse_signed_chars(
                        line,
                        sp + 1,
                        line.len(),
                        0x8000_0000_0000_0000,
                        0x7fff_ffff_ffff_ffff,
                    ) {
                        Some(t) => t as i64,
                        None => 0,
                    };
                } else if crate::text::eq_slice(&key, &k_tz) {
                    let rest = string_of(line, sp + 1, line.len());
                    if !tz_offset_safe(rest.as_str()) {
                        return None;
                    }
                    tz = parse_tz_offset(rest.as_str());
                }
            }
        }
        i += 1;
    }
    assert(ls.take(i as int) =~= ls);
    Some(Blame { by_line })
}

proof fn lemma_ok_prefix(ls: Seq<Seq<char>>, n: int)
    requires
        porcelain_ok(ls),
        0 < n <= ls.len(),
    ensures
        porcelain_ok(ls.take(n)),
        step_ok(porcelain_state(ls.take(n - 1)), ls[n - 1]),
    decreases ls.len(),
{
    let d = ls.drop_last();
    assert(porcelain_ok(d) && step_ok(porcelain_state(d), ls.last()));
    if n < ls.len() {
        lemma_ok_prefix(d, n);
        assert(d.take(n) =~= ls.take(n));
        assert(d.take(n - 1) =~= ls.take(n - 1));
    } else {
        assert(ls.take(n) =~= ls);
        assert(d =~= ls.take(n - 1));
    }
}

/// The index of the first space in `line`, or its length.
fn space_index(line: &Vec<char>) -> (r: usize)
    ensures
        r as int == space_at(line@),
        r <= line.len(),
{
    let mut k: usize = 0;
    while k < line.len()
        invariant
            k <= line.len(),
            space_at(line@) == first_match_from(line@, seq![' '], k as int),
        decreases line.len() - k,
    {
        if line[k] == ' ' {
            assert(line@.subrange(k as int, k + 1) =~= seq![' ']);
            return k;
        }
        assert(line@.subrange(k as int, k + 1) != seq![' ']) by {
            assert(line@.subrange(k as int, k + 1)[0] == line@[k as int]);
        }
        k += 1;
    }
    k
}

} // verus!
