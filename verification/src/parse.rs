//! Parsing of `git diff` output into per-file lists of [`DiffLine`]s.

use crate::model::{lines_view, DiffLine, DiffLineV};
use crate::text::{
    chars_of, copy_chars, has_prefix_at, is_whitespace, is_ws, lemma_split_on_nonempty,
    parse_u32, parse_u32_chars, split_chars, split_on, string_of, string_of_all, views_of,
};
use vstd::prelude::*;

verus! {

broadcast use vstd::string::group_string_axioms;

pub open spec fn starts_with(s: Seq<char>, p: Seq<char>) -> bool {
    s.len() >= p.len() && s.take(p.len() as int) == p
}

pub open spec fn lit_diff_git() -> Seq<char> {
    seq!['d', 'i', 'f', 'f', ' ', '-', '-', 'g', 'i', 't', ' ']
}

pub open spec fn lit_index() -> Seq<char> {
    seq!['i', 'n', 'd', 'e', 'x', ' ']
}

pub open spec fn lit_old_file() -> Seq<char> {
    seq!['-', '-', '-', ' ']
}

pub open spec fn lit_new_file() -> Seq<char> {
    seq!['+', '+', '+', ' ']
}

pub open spec fn lit_hunk() -> Seq<char> {
    seq!['@', '@']
}

pub open spec fn lit_binary() -> Seq<char> {
    seq!['B', 'i', 'n', 'a', 'r', 'y', ' ', 'f', 'i', 'l', 'e', 's', ' ']
}

// ---------------------------------------------------------------------------
// Hunk headers
// ---------------------------------------------------------------------------

/// What `split_whitespace` has seen of a prefix: the finished tokens and the
/// token still being read.
pub open spec fn ws_state(s: Seq<char>) -> (Seq<Seq<char>>, Seq<char>)
    decreases s.len(),
{
    if s.len() == 0 {
        (Seq::empty(), Seq::empty())
    } else {
        let (done, cur) = ws_state(s.drop_last());
        let c = s.last();
        if is_ws(c) {
            if cur.len() > 0 {
                (done.push(cur), Seq::empty())
            } else {
                (done, cur)
            }
        } else {
            (done, cur.push(c))
        }
    }
}

/// The tokens of `str::split_whitespace`: maximal runs without whitespace.
pub open spec fn ws_tokens(s: Seq<char>) -> Seq<Seq<char>> {
    let (done, cur) = ws_state(s);
    if cur.len() > 0 {
        done.push(cur)
    } else {
        done
    }
}

/// The whitespace-separated tokens of `v[lo..hi]`.
pub fn ws_tokens_chars(v: &Vec<char>, lo: usize, hi: usize) -> (r: Vec<Vec<char>>)
    requires
        lo <= hi <= v.len(),
    ensures
        views_of(r@) == ws_tokens(v@.subrange(lo as int, hi as int)),
{
    let mut done: Vec<Vec<char>> = Vec::new();
    let mut cur: Vec<char> = Vec::new();
    let mut i = lo;
    while i < hi
        invariant
            lo <= i <= hi <= v.len(),
            (views_of(done@), cur@) == ws_state(v@.subrange(lo as int, i as int)),
        decreases hi - i,
    {
        let ghost next = v@.subrange(lo as int, i + 1);
        assert(next.drop_last() =~= v@.subrange(lo as int, i as int));
        let c = v[i];
        if is_whitespace(c) {
            if cur.len() > 0 {
                let ghost before = views_of(done@);
                let finished = cur;
                done.push(finished);
                cur = Vec::new();
                assert(views_of(done@) =~= before.push(finished@));
                assert(cur@ =~= Seq::<char>::empty());
            }
        } else {
            cur.push(c);
        }
        i += 1;
    }
    if cur.len() > 0 {
        let ghost before = views_of(done@);
        let ghost c = cur@;
        done.push(cur);
        assert(views_of(done@) =~= before.push(c));
    }
    done
}

/// Where `p` first occurs in `s` at or after `k`, or `s.len()` when it does not.
pub open spec fn first_match_from(s: Seq<char>, p: Seq<char>, k: int) -> int
    decreases s.len() - k,
{
    if k < 0 || k >= s.len() || k + p.len() > s.len() {
        s.len() as int
    } else if s.subrange(k, k + p.len()) == p {
        k
    } else {
        first_match_from(s, p, k + 1)
    }
}

/// The text before the first occurrence of `p` (`s.split(p).next()`).
pub open spec fn prefix_before(s: Seq<char>, p: Seq<char>) -> Seq<char> {
    s.take(first_match_from(s, p, 0))
}

proof fn lemma_first_match_bounds(s: Seq<char>, p: Seq<char>, k: int)
    requires
        0 <= k,
    ensures
        k <= first_match_from(s, p, k) <= s.len() || first_match_from(s, p, k) == s.len(),
        0 <= first_match_from(s, p, k) <= s.len(),
    decreases s.len() - k,
{
    if !(k >= s.len() || k + p.len() > s.len()) && s.subrange(k, k + p.len()) != p {
        lemma_first_match_bounds(s, p, k + 1);
    }
}

/// The index of the first `"@@"` in `v`, or `v.len()`.
fn find_hunk_marker(v: &Vec<char>) -> (r: usize)
    ensures
        r == first_match_from(v@, lit_hunk(), 0),
{
    let p: [char; 2] = ['@', '@'];
    assert(p@ =~= lit_hunk());
    let mut k: usize = 0;
    while v.len() >= 2 && k <= v.len() - 2
        invariant
            first_match_from(v@, lit_hunk(), 0) == first_match_from(v@, lit_hunk(), k as int),
            k <= v.len(),
            p@ == lit_hunk(),
        decreases v.len() - k,
    {
        if has_prefix_at(v, k, &p) {
            return k;
        }
        k += 1;
    }
    v.len()
}

/// `Some(n)`'s `n`, else `d`.
pub open spec fn or_default(o: Option<u32>, d: u32) -> u32 {
    match o {
        Some(n) => n,
        None => d,
    }
}

/// `start[,count]` of a hunk range: an unparseable start counts as 0 and an
/// absent or unparseable count as 1.
pub open spec fn pair_values(t: Seq<char>) -> (u32, u32) {
    let parts = split_on(t, ',');
    let start = or_default(parse_u32(parts[0]), 0);
    let count = if parts.len() > 1 {
        or_default(parse_u32(parts[1]), 1)
    } else {
        1
    };
    (start, count)
}

/// The old and new ranges as a hunk header's tokens give them: the last
/// `-` token sets the old range, the last `+` token the new one.
pub open spec fn hunk_fold(toks: Seq<Seq<char>>) -> (u32, u32, u32, u32)
    decreases toks.len(),
{
    if toks.len() == 0 {
        (0, 1, 0, 1)
    } else {
        let (a, b, c, d) = hunk_fold(toks.drop_last());
        let t = toks.last();
        if t.len() > 0 && t[0] == '-' {
            let (s, n) = pair_values(t.drop_first());
            (s, n, c, d)
        } else if t.len() > 0 && t[0] == '+' {
            let (s, n) = pair_values(t.drop_first());
            (a, b, s, n)
        } else {
            (a, b, c, d)
        }
    }
}

/// `(old_start, old_count, new_start, new_count)` of a `@@ -a,b +c,d @@` line.
pub open spec fn hunk_values(line: Seq<char>) -> (u32, u32, u32, u32) {
    if starts_with(line, lit_hunk()) {
        hunk_fold(ws_tokens(prefix_before(line.skip(2), lit_hunk())))
    } else {
        (0, 1, 0, 1)
    }
}

fn parse_pair(t: &Vec<char>, lo: usize) -> (r: (u32, u32))
    requires
        lo <= t.len(),
    ensures
        r == pair_values(t@.subrange(lo as int, t.len() as int)),
{
    let parts = split_chars(t, lo, t.len(), ',');
    proof {
        lemma_split_on_nonempty(t@.subrange(lo as int, t.len() as int), ',');
    }
    let p0 = &parts[0];
    let start = match parse_u32_chars(p0, 0, p0.len()) {
        Some(n) => n,
        None => 0,
    };
    assert(p0@.subrange(0, p0@.len() as int) =~= p0@);
    let count = if parts.len() > 1 {
        let p1 = &parts[1];
        assert(p1@.subrange(0, p1@.len() as int) =~= p1@);
        match parse_u32_chars(p1, 0, p1.len()) {
            Some(n) => n,
            None => 1,
        }
    } else {
        1
    };
    (start, count)
}

/// The ranges of a hunk header line; `(0, 1, 0, 1)` where it gives none.
pub fn parse_hunk_header(line: &Vec<char>) -> (r: (u32, u32, u32, u32))
    ensures
        r == hunk_values(line@),
{
    let p: [char; 2] = ['@', '@'];
    assert(p@ =~= lit_hunk());
    if !has_prefix_at(line, 0, &p) {
        assert(!starts_with(line@, lit_hunk()));
        return (0, 1, 0, 1);
    }
    assert(line@.subrange(0, 2) =~= line@.take(2));
    let rest = copy_chars(line, 2, line.len());
    assert(rest@ =~= line@.skip(2));
    let end = find_hunk_marker(&rest);
    proof {
        lemma_first_match_bounds(rest@, lit_hunk(), 0);
    }
    let toks = ws_tokens_chars(&rest, 0, end);
    assert(rest@.subrange(0, end as int) =~= prefix_before(rest@, lit_hunk()));
    let ghost ts = views_of(toks@);
    let mut vals: (u32, u32, u32, u32) = (0, 1, 0, 1);
    let mut i: usize = 0;
    while i < toks.len()
        invariant
            i <= toks.len(),
            ts == views_of(toks@),
            vals == hunk_fold(ts.take(i as int)),
        decreases toks.len() - i,
    {
        let t = &toks[i];
        assert(t@ == ts[i as int]);
        assert(ts.take(i + 1).drop_last() =~= ts.take(i as int));
        assert(ts.take(i + 1).last() == t@);
        if t.len() > 0 && t[0] == '-' {
            let (s, n) = parse_pair(t, 1);
            assert(t@.subrange(1, t@.len() as int) =~= t@.drop_first());
            vals = (s, n, vals.2, vals.3);
        } else if t.len() > 0 && t[0] == '+' {
            let (s, n) = parse_pair(t, 1);
            assert(t@.subrange(1, t@.len() as int) =~= t@.drop_first());
            vals = (vals.0, vals.1, s, n);
        }
        i += 1;
    }
    assert(ts.take(i as int) =~= ts);
    vals
}

// ---------------------------------------------------------------------------
// Sections
// ---------------------------------------------------------------------------

pub open spec fn opt_line_view(o: Option<DiffLine>) -> Option<DiffLineV> {
    match o {
        Some(d) => Some(d@),
        None => None,
    }
}

/// What one line of a file's diff section becomes, given whether a hunk has
/// started; also whether a hunk has started after it.
pub open spec fn classify(line: Seq<char>, in_hunk: bool) -> (Option<DiffLineV>, bool) {
    if starts_with(line, lit_diff_git()) {
        (Some(DiffLineV::GitHeader(line)), in_hunk)
    } else if starts_with(line, lit_index()) {
        (Some(DiffLineV::IndexHeader(line)), in_hunk)
    } else if starts_with(line, lit_old_file()) {
        (Some(DiffLineV::OldFile(line)), in_hunk)
    } else if starts_with(line, lit_new_file()) {
        (Some(DiffLineV::NewFile(line)), in_hunk)
    } else if starts_with(line, lit_hunk()) {
        let (a, b, c, d) = hunk_values(line);
        (
            Some(
                DiffLineV::Hunk {
                    header: line,
                    old_start: a,
                    old_count: b,
                    new_start: c,
                    new_count: d,
                },
            ),
            true,
        )
    } else if starts_with(line, lit_binary()) {
        (Some(DiffLineV::Binary(line)), in_hunk)
    } else if !in_hunk {
        if line.len() > 0 {
            (Some(DiffLineV::IndexHeader(line)), in_hunk)
        } else {
            (None, in_hunk)
        }
    } else if line.len() > 0 && line[0] == '+' {
        (Some(DiffLineV::Add(line.drop_first())), in_hunk)
    } else if line.len() > 0 && line[0] == '-' {
        (Some(DiffLineV::Del(line.drop_first())), in_hunk)
    } else if line.len() > 0 && line[0] == '\\' {
        (Some(DiffLineV::NoNewline(line)), in_hunk)
    } else if line.len() > 0 && line[0] == ' ' {
        (Some(DiffLineV::Context(line.drop_first())), in_hunk)
    } else {
        (Some(DiffLineV::Context(line)), in_hunk)
    }
}

/// The diff lines of a list of section lines, and whether a hunk was reached.
pub open spec fn parse_lines(lines: Seq<Seq<char>>) -> (Seq<DiffLineV>, bool)
    decreases lines.len(),
{
    if lines.len() == 0 {
        (Seq::empty(), false)
    } else {
        let (out, h) = parse_lines(lines.drop_last());
        let (item, h2) = classify(lines.last(), h);
        (
            match item {
                Some(d) => out.push(d),
                None => out,
            },
            h2,
        )
    }
}

/// The diff lines of one file's section.
pub open spec fn parse_section_spec(section: Seq<char>) -> Seq<DiffLineV> {
    parse_lines(split_on(section, '\n')).0
}

fn starts_lit(line: &Vec<char>, p: &[char], Ghost(lit): Ghost<Seq<char>>) -> (r: bool)
    requires
        p@ == lit,
    ensures
        r == starts_with(line@, lit),
{
    let r = has_prefix_at(line, 0, p);
    assert(line@.subrange(0, p@.len() as int) =~= line@.take(p@.len() as int));
    r
}

fn classify_line(line: &Vec<char>, in_hunk: bool) -> (r: (Option<DiffLine>, bool))
    ensures
        (opt_line_view(r.0), r.1) == classify(line@, in_hunk),
{
    let p_git: [char; 11] = ['d', 'i', 'f', 'f', ' ', '-', '-', 'g', 'i', 't', ' '];
    let p_index: [char; 6] = ['i', 'n', 'd', 'e', 'x', ' '];
    let p_old: [char; 4] = ['-', '-', '-', ' '];
    let p_new: [char; 4] = ['+', '+', '+', ' '];
    let p_hunk: [char; 2] = ['@', '@'];
    let p_bin: [char; 13] = ['B', 'i', 'n', 'a', 'r', 'y', ' ', 'f', 'i', 'l', 'e', 's', ' '];
    assert(p_git@ =~= lit_diff_git());
    assert(p_index@ =~= lit_index());
    assert(p_old@ =~= lit_old_file());
    assert(p_new@ =~= lit_new_file());
    assert(p_hunk@ =~= lit_hunk());
    assert(p_bin@ =~= lit_binary());
    let len = line.len();
    if starts_lit(line, &p_git, Ghost(lit_diff_git())) {
        (Some(DiffLine::GitHeader(string_of_all(line))), in_hunk)
    } else if starts_lit(line, &p_index, Ghost(lit_index())) {
        (Some(DiffLine::IndexHeader(string_of_all(line))), in_hunk)
    } else if starts_lit(line, &p_old, Ghost(lit_old_file())) {
        (Some(DiffLine::OldFile(string_of_all(line))), in_hunk)
    } else if starts_lit(line, &p_new, Ghost(lit_new_file())) {
        (Some(DiffLine::NewFile(string_of_all(line))), in_hunk)
    } else if starts_lit(line, &p_hunk, Ghost(lit_hunk())) {
        let (a, b, c, d) = parse_hunk_header(line);
        (
            Some(
                DiffLine::Hunk {
                    header: string_of_all(line),
                    old_start: a,
                    old_count: b,
                    new_start: c,
                    new_count: d,
                },
            ),
            true,
        )
    } else if starts_lit(line, &p_bin, Ghost(lit_binary())) {
        (Some(DiffLine::Binary(string_of_all(line))), in_hunk)
    } else if !in_hunk {
        if len > 0 {
            (Some(DiffLine::IndexHeader(string_of_all(line))), in_hunk)
        } else {
            (None, in_hunk)
        }
    } else if len > 0 && line[0] == '+' {
        assert(line@.subrange(1, len as int) =~= line@.drop_first());
        (Some(DiffLine::Add(string_of(line, 1, len))), in_hunk)
    } else if len > 0 && line[0] == '-' {
        assert(line@.subrange(1, len as int) =~= line@.drop_first());
        (Some(DiffLine::Del(string_of(line, 1, len))), in_hunk)
    } else if len > 0 && line[0] == '\\' {
        (Some(DiffLine::NoNewline(string_of_all(line))), in_hunk)
    } else if len > 0 && line[0] == ' ' {
        assert(line@.subrange(1, len as int) =~= line@.drop_first());
        (Some(DiffLine::Context(string_of(line, 1, len))), in_hunk)
    } else {
        (Some(DiffLine::Context(string_of_all(line))), in_hunk)
    }
}

/// The diff lines of the section `v[lo..hi]`.
pub fn parse_section(v: &Vec<char>, lo: usize, hi: usize) -> (r: Vec<DiffLine>)
    requires
        lo <= hi <= v.len(),
    ensures
        lines_view(r@) == parse_section_spec(v@.subrange(lo as int, hi as int)),
{
    let lines = split_chars(v, lo, hi, '\n');
    let ghost ls = views_of(lines@);
    let mut out: Vec<DiffLine> = Vec::new();
    let mut in_hunk = false;
    let mut i: usize = 0;
    while i < lines.len()
        invariant
            i <= lines.len(),
            ls == views_of(lines@),
            (lines_view(out@), in_hunk) == parse_lines(ls.take(i as int)),
        decreases lines.len() - i,
    {
        let line = &lines[i];
        assert(line@ == ls[i as int]);
        assert(ls.take(i + 1).drop_last() =~= ls.take(i as int));
        assert(ls.take(i + 1).last() == line@);
        let (item, h) = classify_line(line, in_hunk);
        match item {
            Some(d) => {
                let ghost before = lines_view(out@);
                out.push(d);
                assert(lines_view(out@) =~= before.push(d@));
            },
            None => {},
        }
        in_hunk = h;
        i += 1;
    }
    assert(ls.take(i as int) =~= ls);
    out
}

/// A file's section starts at `i`: a `"diff --git "` at the start of a line.
pub open spec fn is_section_start(s: Seq<char>, i: int) -> bool {
    &&& 0 <= i
    &&& i + 11 <= s.len()
    &&& s.subrange(i, i + 11) == lit_diff_git()
    &&& (i == 0 || s[i - 1] == '\n')
}

/// The section starts below position `n`, in increasing order.
pub open spec fn section_starts(s: Seq<char>, n: int) -> Seq<int>
    decreases n,
{
    if n <= 0 {
        Seq::empty()
    } else {
        let p = section_starts(s, n - 1);
        if is_section_start(s, n - 1) {
            p.push(n - 1)
        } else {
            p
        }
    }
}

/// `s` without trailing `'\n'`s (`trim_end_matches('\n')`).
pub open spec fn trim_end_newlines(s: Seq<char>) -> Seq<char>
    decreases s.len(),
{
    if s.len() > 0 && s.last() == '\n' {
        trim_end_newlines(s.drop_last())
    } else {
        s
    }
}

/// The end of the `k`-th section: the next section's start, or the end.
pub open spec fn section_end(s: Seq<char>, st: Seq<int>, k: int) -> int {
    if k + 1 < st.len() {
        st[k + 1]
    } else {
        s.len() as int
    }
}

/// The per-file diff lines of a multi-file unified diff, in the order the
/// sections appear.
pub open spec fn sections_of(s: Seq<char>) -> Seq<Seq<DiffLineV>> {
    let st = section_starts(s, s.len() as int);
    Seq::new(
        st.len(),
        |k: int| parse_section_spec(trim_end_newlines(s.subrange(st[k], section_end(s, st, k)))),
    )
}

proof fn lemma_section_starts_props(s: Seq<char>, n: int)
    requires
        0 <= n <= s.len(),
    ensures
        forall|k: int|
            0 <= k < section_starts(s, n).len() ==> 0 <= #[trigger] section_starts(s, n)[k] < n,
        forall|a: int, b: int|
            0 <= a < b < section_starts(s, n).len() ==> #[trigger] section_starts(s, n)[a]
                < #[trigger] section_starts(s, n)[b],
    decreases n,
{
    if n > 0 {
        lemma_section_starts_props(s, n - 1);
        let p = section_starts(s, n - 1);
        let q = section_starts(s, n);
        if is_section_start(s, n - 1) {
            assert(q == p.push(n - 1));
            assert forall|k: int| 0 <= k < q.len() implies 0 <= #[trigger] q[k] < n by {
                if k < p.len() {
                    assert(q[k] == p[k]);
                }
            }
            assert forall|a: int, b: int| 0 <= a < b < q.len() implies #[trigger] q[a]
                < #[trigger] q[b] by {
                assert(q[a] == p[a]);
                if b < p.len() {
                    assert(q[b] == p[b]);
                }
            }
        } else {
            assert(q == p);
        }
    }
}

/// Splits a multi-file unified diff into per-file sections, in the order git
/// emitted them. Each returned list belongs to one file; callers match
/// sections to paths by position.
pub fn split_diff_into_sections(diff_text: &str) -> (r: Vec<Vec<DiffLine>>)
    ensures
        r@.len() == sections_of(diff_text@).len(),
        forall|k: int|
            0 <= k < r@.len() ==> lines_view(#[trigger] r@[k]@) == sections_of(diff_text@)[k],
{
    let v = chars_of(diff_text);
    let n = v.len();
    let p_git: [char; 11] = ['d', 'i', 'f', 'f', ' ', '-', '-', 'g', 'i', 't', ' '];
    assert(p_git@ =~= lit_diff_git());
    let mut starts: Vec<usize> = Vec::new();
    let mut i: usize = 0;
    while i < n
        invariant
            i <= n == v.len(),
            v@ == diff_text@,
            p_git@ == lit_diff_git(),
            starts@.len() == section_starts(v@, i as int).len(),
            forall|k: int|
                0 <= k < starts@.len() ==> #[trigger] starts@[k] as int == section_starts(
                    v@,
                    i as int,
                )[k],
        decreases n - i,
    {
        let is_start = has_prefix_at(&v, i, &p_git) && (i == 0 || v[i - 1] == '\n');
        assert(is_start == is_section_start(v@, i as int));
        if is_start {
            starts.push(i);
        }
        i += 1;
    }
    let ghost st = section_starts(v@, n as int);
    proof {
        lemma_section_starts_props(v@, n as int);
    }
    let mut out: Vec<Vec<DiffLine>> = Vec::new();
    let mut k: usize = 0;
    while k < starts.len()
        invariant
            k <= starts@.len() == st.len(),
            n == v.len(),
            v@ == diff_text@,
            st == section_starts(v@, n as int),
            forall|j: int| 0 <= j < starts@.len() ==> #[trigger] starts@[j] as int == st[j],
            forall|j: int| 0 <= j < st.len() ==> 0 <= #[trigger] st[j] < n,
            forall|a: int, b: int| 0 <= a < b < st.len() ==> #[trigger] st[a] < #[trigger] st[b],
            out@.len() == k,
            forall|j: int|
                0 <= j < k ==> lines_view(#[trigger] out@[j]@) == sections_of(v@)[j],
        decreases starts@.len() - k,
    {
        let start = starts[k];
        let end = if k + 1 < starts.len() {
            starts[k + 1]
        } else {
            n
        };
        assert(end as int == section_end(v@, st, k as int));
        let mut e = end;
        while e > start && v[e - 1] == '\n'
            invariant
                start <= e <= end <= n == v.len(),
                trim_end_newlines(v@.subrange(start as int, end as int)) == trim_end_newlines(
                    v@.subrange(start as int, e as int),
                ),
            decreases e,
        {
            assert(v@.subrange(start as int, e as int).drop_last() =~= v@.subrange(
                start as int,
                e - 1,
            ));
            e -= 1;
        }
        let section = parse_section(&v, start, e);
        out.push(section);
        k += 1;
    }
    out
}

/// The number of added lines.
pub open spec fn count_adds(v: Seq<DiffLineV>) -> nat
    decreases v.len(),
{
    if v.len() == 0 {
        0
    } else {
        count_adds(v.drop_last()) + if v.last() is Add {
            1nat
        } else {
            0nat
        }
    }
}

/// The number of deleted lines.
pub open spec fn count_dels(v: Seq<DiffLineV>) -> nat
    decreases v.len(),
{
    if v.len() == 0 {
        0
    } else {
        count_dels(v.drop_last()) + if v.last() is Del {
            1nat
        } else {
            0nat
        }
    }
}

/// Whether any line is a `Binary files ...` marker.
pub open spec fn has_binary(v: Seq<DiffLineV>) -> bool {
    exists|i: int| 0 <= i < v.len() && #[trigger] v[i] is Binary
}

proof fn lemma_counts_bounded(v: Seq<DiffLineV>)
    ensures
        count_adds(v) <= v.len(),
        count_dels(v) <= v.len(),
    decreases v.len(),
{
    if v.len() > 0 {
        lemma_counts_bounded(v.drop_last());
    }
}

/// `(additions, deletions, binary)` of a file's diff lines.
pub fn count_changes(lines: &[DiffLine]) -> (r: (u32, u32, bool))
    requires
        lines@.len() <= u32::MAX,
    ensures
        r.0 == count_adds(lines_view(lines@)),
        r.1 == count_dels(lines_view(lines@)),
        r.2 == has_binary(lines_view(lines@)),
{
    let ghost lv = lines_view(lines@);
    let mut adds: u32 = 0;
    let mut dels: u32 = 0;
    let mut binary = false;
    let mut i: usize = 0;
    while i < lines.len()
        invariant
            i <= lines@.len() <= u32::MAX,
            lv == lines_view(lines@),
            adds == count_adds(lv.take(i as int)),
            dels == count_dels(lv.take(i as int)),
            binary == has_binary(lv.take(i as int)),
        decreases lines@.len() - i,
    {
        proof {
            assert(lv.take(i + 1).drop_last() =~= lv.take(i as int));
            lemma_counts_bounded(lv.take(i as int));
        }
        let ghost bt = lv.take(i as int);
        match &lines[i] {
            DiffLine::Add(_) => adds += 1,
            DiffLine::Del(_) => dels += 1,
            DiffLine::Binary(_) => binary = true,
            _ => {},
        }
        proof {
            let nt = lv.take(i + 1);
            assert(nt[i as int] == lines@[i as int]@);
            if has_binary(nt) && !has_binary(bt) {
                let w = choose|w: int| 0 <= w < nt.len() && #[trigger] nt[w] is Binary;
                if w < i {
                    assert(bt[w] == nt[w]);
                }
            }
            if has_binary(bt) {
                let w = choose|w: int| 0 <= w < bt.len() && #[trigger] bt[w] is Binary;
                assert(nt[w] == bt[w]);
            }
        }
        i += 1;
    }
    assert(lv.take(i as int) =~= lv);
    (adds, dels, binary)
}

// ---------------------------------------------------------------------------
// Laws of the line classification
// ---------------------------------------------------------------------------

/// The line opens a hunk: it starts with `@@`.
pub open spec fn opens_hunk(l: Seq<char>) -> bool {
    l.len() >= 2 && l[0] == '@' && l[1] == '@'
}

/// The line is an added line of a hunk: it starts with `+` and is not a
/// `+++ ` file header.
pub open spec fn is_plus_line(l: Seq<char>) -> bool {
    l.len() > 0 && l[0] == '+' && !(l.len() >= 4 && l[1] == '+' && l[2] == '+' && l[3] == ' ')
}

/// The line is a deleted line of a hunk: it starts with `-` and is not a
/// `--- ` file header.
pub open spec fn is_minus_line(l: Seq<char>) -> bool {
    l.len() > 0 && l[0] == '-' && !(l.len() >= 4 && l[1] == '-' && l[2] == '-' && l[3] == ' ')
}

/// The number of deleted lines of `ls` that come after a hunk has opened.
pub open spec fn minus_lines_in_hunks(ls: Seq<Seq<char>>) -> nat
    decreases ls.len(),
{
    if ls.len() == 0 {
        0
    } else {
        minus_lines_in_hunks(ls.drop_last()) + if hunk_seen(ls.drop_last()) && is_minus_line(ls.last()) {
            1nat
        } else {
            0nat
        }
    }
}

/// Some line of `ls` opens a hunk.
pub open spec fn hunk_seen(ls: Seq<Seq<char>>) -> bool {
    exists|j: int| 0 <= j < ls.len() && opens_hunk(#[trigger] ls[j])
}

/// The number of added lines of `ls` that come after a hunk has opened.
pub open spec fn plus_lines_in_hunks(ls: Seq<Seq<char>>) -> nat
    decreases ls.len(),
{
    if ls.len() == 0 {
        0
    } else {
        plus_lines_in_hunks(ls.drop_last()) + if hunk_seen(ls.drop_last()) && is_plus_line(ls.last()) {
            1nat
        } else {
            0nat
        }
    }
}

proof fn lemma_first_char_prefix(l: Seq<char>, p: Seq<char>)
    requires
        p.len() > 0,
        l.len() > 0,
        l[0] != p[0],
    ensures
        !starts_with(l, p),
{
    if starts_with(l, p) {
        assert(l.take(p.len() as int)[0] == l[0]);
    }
}

/// How one line inside a hunk that starts with `+` is read: unless it is a
/// `+++ ` header it is an added line whose text is the rest of the line
/// (a lone `+` is an added empty line), and the hunk stays open.
pub proof fn lemma_plus_line_is_addition(line: Seq<char>)
    requires
        is_plus_line(line),
    ensures
        classify(line, true) == (Some(DiffLineV::Add(line.drop_first())), true),
{
    lemma_first_char_prefix(line, lit_diff_git());
    lemma_first_char_prefix(line, lit_index());
    lemma_first_char_prefix(line, lit_old_file());
    lemma_first_char_prefix(line, lit_hunk());
    lemma_first_char_prefix(line, lit_binary());
    if starts_with(line, lit_new_file()) {
        let t = line.take(4);
        assert(t[1] == line[1] && t[2] == line[2] && t[3] == line[3]);
    }
}

/// How one line inside a hunk that starts with `-` is read: unless it is a
/// `--- ` header it is a deleted line whose text is the rest of the line.
pub proof fn lemma_minus_line_is_deletion(line: Seq<char>)
    requires
        is_minus_line(line),
    ensures
        classify(line, true) == (Some(DiffLineV::Del(line.drop_first())), true),
{
    lemma_first_char_prefix(line, lit_diff_git());
    lemma_first_char_prefix(line, lit_index());
    lemma_first_char_prefix(line, lit_new_file());
    lemma_first_char_prefix(line, lit_hunk());
    lemma_first_char_prefix(line, lit_binary());
    if starts_with(line, lit_old_file()) {
        let t = line.take(4);
        assert(t[1] == line[1] && t[2] == line[2] && t[3] == line[3]);
    }
}

/// Whether a line opens a hunk, is an addition or is a deletion, read off
/// the line and whether a hunk is open.
proof fn lemma_classify_hunk_and_adds(line: Seq<char>, in_hunk: bool)
    ensures
        classify(line, in_hunk).1 == (in_hunk || opens_hunk(line)),
        (classify(line, in_hunk).0 matches Some(d) && d is Add) == (in_hunk && is_plus_line(line)),
        (classify(line, in_hunk).0 matches Some(d) && d is Del) == (in_hunk && is_minus_line(line)),
{
    if line.len() > 0 && line[0] == '-' {
        lemma_first_char_prefix(line, lit_diff_git());
        lemma_first_char_prefix(line, lit_index());
        lemma_first_char_prefix(line, lit_new_file());
        lemma_first_char_prefix(line, lit_hunk());
        lemma_first_char_prefix(line, lit_binary());
        if starts_with(line, lit_old_file()) {
            let t = line.take(4);
            assert(t[1] == line[1] && t[2] == line[2] && t[3] == line[3]);
        } else if line.len() >= 4 && line[1] == '-' && line[2] == '-' && line[3] == ' ' {
            assert(line.take(4) =~= lit_old_file());
        }
    }
    if line.len() > 0 && line[0] == '+' {
        lemma_first_char_prefix(line, lit_diff_git());
        lemma_first_char_prefix(line, lit_index());
        lemma_first_char_prefix(line, lit_old_file());
        lemma_first_char_prefix(line, lit_hunk());
        lemma_first_char_prefix(line, lit_binary());
        if starts_with(line, lit_new_file()) {
            let t = line.take(4);
            assert(t[1] == line[1] && t[2] == line[2] && t[3] == line[3]);
        } else if line.len() >= 4 && line[1] == '+' && line[2] == '+' && line[3] == ' ' {
            assert(line.take(4) =~= lit_new_file());
        }
    }
    if opens_hunk(line) {
        lemma_first_char_prefix(line, lit_diff_git());
        lemma_first_char_prefix(line, lit_index());
        lemma_first_char_prefix(line, lit_old_file());
        lemma_first_char_prefix(line, lit_new_file());
        assert(line.take(2) =~= lit_hunk());
    } else if starts_with(line, lit_hunk()) {
        let t = line.take(2);
        assert(t[0] == line[0] && t[1] == line[1]);
    }
}

/// Reading a file's section lines: a hunk is open after them exactly when
/// one of them starts with `@@`, and the added lines counted are exactly the
/// lines after the first hunk opened that start with `+` (other than a
/// `+++ ` header), so a lone `+` counts as one addition; likewise the
/// deletions are the lines there that start with `-` (other than `--- `).
pub proof fn lemma_additions_are_plus_lines(ls: Seq<Seq<char>>)
    ensures
        parse_lines(ls).1 == hunk_seen(ls),
        count_adds(parse_lines(ls).0) == plus_lines_in_hunks(ls),
        count_dels(parse_lines(ls).0) == minus_lines_in_hunks(ls),
    decreases ls.len(),
{
    if ls.len() > 0 {
        let d = ls.drop_last();
        lemma_additions_are_plus_lines(d);
        let h = parse_lines(d).1;
        lemma_classify_hunk_and_adds(ls.last(), h);
        if hunk_seen(d) {
            let j = choose|j: int| 0 <= j < d.len() && opens_hunk(#[trigger] d[j]);
            assert(ls[j] == d[j]);
        }
        if opens_hunk(ls.last()) {
            assert(ls[ls.len() - 1] == ls.last());
        }
        if hunk_seen(ls) {
            let j = choose|j: int| 0 <= j < ls.len() && opens_hunk(#[trigger] ls[j]);
            if j < ls.len() - 1 {
                assert(d[j] == ls[j]);
            }
        }
        let (out, _h) = parse_lines(d);
        let item = classify(ls.last(), h).0;
        match item {
            Some(x) => {
                assert(out.push(x).drop_last() =~= out);
            },
            None => {},
        }
    }
}

} // verus!
