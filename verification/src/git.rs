//! What the library makes of git's output: name-status records, the files of
//! a diff, commit logs and branch lists, and the refs it asks git about.

use crate::model::{
    files_view, lines_view, sort_files, status_of_letter, CommitV, Commit, DiffLine, DiffLineV,
    FileChange, FileChangeV, FileStatus,
};
use crate::parse::{count_adds, count_changes, count_dels, has_binary};
use crate::sort::{is_stable_sort_of, stable_sort, TotalPreorder};
use crate::text::{
    append_chars, chars_of, compare_from, contains_at_any, copy_chars, is_ascii_upper,
    lemma_seq_lt_irrefl, lemma_seq_lt_total, lemma_seq_lt_trans, lemma_split_on_nonempty,
    lines_chars, lines_of, seq_contains, seq_lt, split_chars, split_on, string_of,
    string_of_all, str_eq, trim, trim_bounds, trim_newline_bounds, trim_newlines, views_of,
};
use vstd::prelude::*;

verus! {

broadcast use vstd::string::group_string_axioms;

/// The pseudo-ref offered in the Compare picker for the on-disk working tree.
/// `[` cannot occur in a git ref name, so it never collides with a branch.
pub const WORKING_TREE_REF: &'static str = "[working tree]";

pub open spec fn working_tree_ref() -> Seq<char> {
    seq!['[', 'w', 'o', 'r', 'k', 'i', 'n', 'g', ' ', 't', 'r', 'e', 'e', ']']
}

/// The working-tree pseudo-ref as a `String`.
pub fn working_tree_ref_string() -> (r: String)
    ensures
        r@ == working_tree_ref(),
{
    proof {
        reveal_strlit("[working tree]");
    }
    let r = String::from_str(WORKING_TREE_REF);
    assert(r@ =~= working_tree_ref());
    r
}

/// Whether `r` is the working-tree pseudo-ref.
pub fn is_working_tree(r: &str) -> (b: bool)
    ensures
        b == (r@ == working_tree_ref()),
{
    proof {
        reveal_strlit("[working tree]");
    }
    let b = str_eq(r, WORKING_TREE_REF);
    assert(WORKING_TREE_REF@ =~= working_tree_ref());
    b
}

/// The range git diffs for a base and compare ref: `base...compare`.
pub fn diff_range(base: &str, compare: &str) -> (r: String)
    ensures
        r@ == base@ + seq!['.', '.', '.'] + compare@,
{
    let mut r = String::from_str(base);
    crate::text::push_char(&mut r, '.');
    crate::text::push_char(&mut r, '.');
    crate::text::push_char(&mut r, '.');
    append_chars(&mut r, compare);
    assert(r@ =~= base@ + seq!['.', '.', '.'] + compare@);
    r
}

/// The range git diffs for one commit: `commit^!`.
pub fn commit_diff_range(commit: &str) -> (r: String)
    ensures
        r@ == commit@ + seq!['^', '!'],
{
    let mut r = String::from_str(commit);
    crate::text::push_char(&mut r, '^');
    crate::text::push_char(&mut r, '!');
    assert(r@ =~= commit@ + seq!['^', '!']);
    r
}

/// The range git logs for a base and compare ref: `base..compare`.
pub fn log_range(base: &str, compare: &str) -> (r: String)
    ensures
        r@ == base@ + seq!['.', '.'] + compare@,
{
    let mut r = String::from_str(base);
    crate::text::push_char(&mut r, '.');
    crate::text::push_char(&mut r, '.');
    append_chars(&mut r, compare);
    assert(r@ =~= base@ + seq!['.', '.'] + compare@);
    r
}

// ---------------------------------------------------------------------------
// `git diff --name-status -z`
// ---------------------------------------------------------------------------

/// One record of `git diff --name-status -z`.
#[derive(Debug)]
pub struct NameStatusEntry {
    pub status: FileStatus,
    pub new_path: String,
    pub old_path: Option<String>,
}

pub ghost struct NameStatusV {
    pub status: FileStatus,
    pub new_path: Seq<char>,
    pub old_path: Option<Seq<char>>,
}

impl View for NameStatusEntry {
    type V = NameStatusV;

    open spec fn view(&self) -> NameStatusV {
        NameStatusV {
            status: self.status,
            new_path: self.new_path@,
            old_path: crate::model::opt_view(self.old_path),
        }
    }
}

pub open spec fn entries_view(v: Seq<NameStatusEntry>) -> Seq<NameStatusV> {
    v.map_values(|e: NameStatusEntry| e@)
}

/// The non-empty pieces, in order.
pub open spec fn nonempty_only(p: Seq<Seq<char>>) -> Seq<Seq<char>>
    decreases p.len(),
{
    if p.len() == 0 {
        p
    } else if p.last().len() > 0 {
        nonempty_only(p.drop_last()).push(p.last())
    } else {
        nonempty_only(p.drop_last())
    }
}

/// The records that a token list holds. A token whose first character is
/// no ASCII capital is skipped; `R` and `C` records take an old and a new
/// path, others one path; a record cut short ends the list.
pub open spec fn ns_entries(toks: Seq<Seq<char>>) -> Seq<NameStatusV>
    decreases toks.len(),
{
    if toks.len() == 0 {
        Seq::empty()
    } else {
        let first = toks[0][0];
        if !is_ascii_upper(first) {
            ns_entries(toks.drop_first())
        } else {
            let st = status_of_letter(first);
            if st == FileStatus::Renamed || st == FileStatus::Copied {
                if toks.len() < 3 {
                    Seq::empty()
                } else {
                    seq![NameStatusV { status: st, new_path: toks[2], old_path: Some(toks[1]) }]
                        + ns_entries(toks.skip(3))
                }
            } else {
                if toks.len() < 2 {
                    Seq::empty()
                } else {
                    seq![NameStatusV { status: st, new_path: toks[1], old_path: None }]
                        + ns_entries(toks.skip(2))
                }
            }
        }
    }
}

/// The records of `git diff --name-status -z` output.
pub open spec fn name_status_of(s: Seq<char>) -> Seq<NameStatusV> {
    ns_entries(nonempty_only(split_on(s, '\0')))
}

proof fn lemma_nonempty_only(p: Seq<Seq<char>>)
    ensures
        forall|k: int|
            0 <= k < nonempty_only(p).len() ==> (#[trigger] nonempty_only(p)[k]).len() > 0,
    decreases p.len(),
{
    if p.len() > 0 {
        lemma_nonempty_only(p.drop_last());
        let q = nonempty_only(p.drop_last());
        if p.last().len() > 0 {
            assert forall|k: int| 0 <= k < nonempty_only(p).len() implies (
            #[trigger] nonempty_only(p)[k]).len() > 0 by {
                if k < q.len() {
                    assert(nonempty_only(p)[k] == q[k]);
                }
            }
        }
    }
}

/// Parses `git diff --name-status -z` output. Records are `STATUS\0PATH\0`,
/// or `R`/`C` with a score, then `\0OLD\0NEW\0`, for renames and copies.
pub fn parse_name_status_z(output: &str) -> (r: Vec<NameStatusEntry>)
    ensures
        entries_view(r@) == name_status_of(output@),
{
    let v = chars_of(output);
    let pieces = split_chars(&v, 0, v.len(), '\0');
    assert(v@.subrange(0, v@.len() as int) =~= output@);
    let ghost ps = views_of(pieces@);
    let mut toks: Vec<Vec<char>> = Vec::new();
    let mut i: usize = 0;
    while i < pieces.len()
        invariant
            i <= pieces.len(),
            ps == views_of(pieces@),
            views_of(toks@) == nonempty_only(ps.take(i as int)),
        decreases pieces.len() - i,
    {
        assert(ps.take(i + 1).drop_last() =~= ps.take(i as int));
        assert(pieces@[i as int]@ == ps[i as int]);
        if pieces[i].len() > 0 {
            let t = copy_chars(&pieces[i], 0, pieces[i].len());
            assert(t@ =~= ps[i as int]);
            let ghost before = views_of(toks@);
            toks.push(t);
            assert(views_of(toks@) =~= before.push(ps[i as int]));
        }
        i += 1;
    }
    assert(ps.take(i as int) =~= ps);
    let ghost ts = views_of(toks@);
    proof {
        lemma_nonempty_only(ps);
    }
    let mut out: Vec<NameStatusEntry> = Vec::new();
    let n = toks.len();
    let mut i: usize = 0;
    assert(ts.skip(0) =~= ts);
    assert(entries_view(out@) + ns_entries(ts) =~= ns_entries(ts));
    while i < n
        invariant
            n == toks.len(),
            i <= n,
            ts == views_of(toks@),
            forall|k: int| 0 <= k < ts.len() ==> (#[trigger] ts[k]).len() > 0,
            ns_entries(ts) == entries_view(out@) + ns_entries(ts.skip(i as int)),
        decreases n - i,
    {
        let ghost rest = ts.skip(i as int);
        assert(rest[0] == ts[i as int]);
        assert(toks@[i as int]@ == ts[i as int]);
        let first = toks[i][0];
        if !(first >= 'A' && first <= 'Z') {
            assert(rest.drop_first() =~= ts.skip(i + 1));
            i += 1;
            continue;
        }
        let status = FileStatus::from_letter(first);
        let ghost before = entries_view(out@);
        if matches!(status, FileStatus::Renamed) || matches!(status, FileStatus::Copied) {
            if n - i < 3 {
                assert(ns_entries(rest) =~= Seq::<NameStatusV>::empty());
                assert(before + Seq::<NameStatusV>::empty() =~= before);
                assert(ts.skip(n as int) =~= Seq::<Seq<char>>::empty());
                i = n;
                continue;
            }
            let old = string_of_all(&toks[i + 1]);
            let new = string_of_all(&toks[i + 2]);
            assert(rest[1] == ts[i + 1]);
            assert(rest[2] == ts[i + 2]);
            out.push(NameStatusEntry { status, new_path: new, old_path: Some(old) });
            assert(rest.skip(3) =~= ts.skip(i + 3));
            assert(entries_view(out@) =~= before.push(
                NameStatusV { status, new_path: ts[i + 2], old_path: Some(ts[i + 1]) },
            ));
            i += 3;
        } else {
            if n - i < 2 {
                assert(ns_entries(rest) =~= Seq::<NameStatusV>::empty());
                assert(before + Seq::<NameStatusV>::empty() =~= before);
                assert(ts.skip(n as int) =~= Seq::<Seq<char>>::empty());
                i = n;
                continue;
            }
            let p = string_of_all(&toks[i + 1]);
            assert(rest[1] == ts[i + 1]);
            out.push(NameStatusEntry { status, new_path: p, old_path: None });
            assert(rest.skip(2) =~= ts.skip(i + 2));
            assert(entries_view(out@) =~= before.push(
                NameStatusV { status, new_path: ts[i + 1], old_path: None },
            ));
            i += 2;
        }
    }
    proof {
        if i >= n {
            assert(ts.skip(i as int) =~= Seq::<Seq<char>>::empty());
            assert(entries_view(out@) + Seq::<NameStatusV>::empty() =~= entries_view(out@));
        }
    }
    out
}

// ---------------------------------------------------------------------------
// Files of a diff
// ---------------------------------------------------------------------------

/// The file built from the `i`-th record and its section (none where git
/// gave fewer sections than records), before ordering.
pub open spec fn file_from(e: NameStatusV, lines: Seq<DiffLineV>) -> FileChangeV {
    FileChangeV {
        path: e.new_path,
        old_path: e.old_path,
        status: e.status,
        diff_lines: lines,
        additions: count_adds(lines) as u32,
        deletions: count_dels(lines) as u32,
        binary: has_binary(lines),
    }
}

pub open spec fn section_or_empty(sections: Seq<Seq<DiffLineV>>, i: int) -> Seq<DiffLineV> {
    if i < sections.len() {
        sections[i]
    } else {
        Seq::empty()
    }
}

/// The files of a diff in record order: record `i` paired with section `i`.
pub open spec fn files_in_record_order(
    entries: Seq<NameStatusV>,
    sections: Seq<Seq<DiffLineV>>,
) -> Seq<FileChangeV> {
    Seq::new(entries.len(), |i: int| file_from(entries[i], section_or_empty(sections, i)))
}

pub open spec fn sections_view(v: Seq<Vec<DiffLine>>) -> Seq<Seq<DiffLineV>> {
    v.map_values(|s: Vec<DiffLine>| lines_view(s@))
}

/// The files of a diff: each name-status record paired by position with its
/// diff section and its counts, then ordered as [`sort_files`] orders them.
pub fn build_file_changes(entries: &Vec<NameStatusEntry>, sections: &Vec<Vec<DiffLine>>) -> (r:
    Vec<FileChange>)
    requires
        forall|k: int| 0 <= k < sections@.len() ==> (#[trigger] sections@[k])@.len() <= u32::MAX,
    ensures
        exists|u: Seq<FileChange>|
            files_view(u) == files_in_record_order(
                entries_view(entries@),
                sections_view(sections@),
            ) && is_stable_sort_of(u, r@),
{
    let ghost want = files_in_record_order(entries_view(entries@), sections_view(sections@));
    let mut files: Vec<FileChange> = Vec::new();
    let mut i: usize = 0;
    while i < entries.len()
        invariant
            i <= entries.len(),
            want == files_in_record_order(entries_view(entries@), sections_view(sections@)),
            forall|k: int| 0 <= k < sections@.len() ==> (#[trigger] sections@[k])@.len() <= u32::MAX,
            files_view(files@) == want.take(i as int),
        decreases entries.len() - i,
    {
        let e = &entries[i];
        let lines: Vec<DiffLine> = if i < sections.len() {
            crate::model::duplicate_lines(&sections[i])
        } else {
            Vec::new()
        };
        assert(lines_view(lines@) == section_or_empty(sections_view(sections@), i as int));
        let (additions, deletions, binary) = count_changes(lines.as_slice());
        let f = FileChange {
            path: e.new_path.clone(),
            old_path: crate::model::duplicate_opt(&e.old_path),
            status: e.status,
            diff_lines: lines,
            additions,
            deletions,
            binary,
        };
        assert(f@ == want[i as int]);
        let ghost before = files_view(files@);
        files.push(f);
        assert(files_view(files@) =~= before.push(f@));
        i += 1;
        assert(want.take(i as int) =~= want.take(i - 1).push(want[i - 1]));
    }
    assert(want.take(i as int) =~= want);
    let ghost u = files@;
    sort_files(&mut files);
    files
}

// ---------------------------------------------------------------------------
// `git log`
// ---------------------------------------------------------------------------

/// The commit that one log record describes: hash, short hash, author, date
/// and subject separated by `\u{1f}`, then an optional body (trimmed).
pub open spec fn commit_of(entry: Seq<char>) -> Option<CommitV> {
    let parts = split_on(entry, '\u{1f}');
    if parts.len() < 5 {
        None
    } else {
        Some(
            CommitV {
                hash: parts[0],
                short_hash: parts[1],
                author: parts[2],
                date: parts[3],
                subject: parts[4],
                body: if parts.len() > 5 {
                    trim(parts[5])
                } else {
                    Seq::empty()
                },
            },
        )
    }
}

/// The commits of the records in `pieces`, each record stripped of line
/// breaks at its ends; empty or incomplete records give none.
pub open spec fn commits_from(pieces: Seq<Seq<char>>) -> Seq<CommitV>
    decreases pieces.len(),
{
    if pieces.len() == 0 {
        Seq::empty()
    } else {
        let prev = commits_from(pieces.drop_last());
        let e = trim_newlines(pieces.last());
        if e.len() > 0 {
            match commit_of(e) {
                Some(c) => prev.push(c),
                None => prev,
            }
        } else {
            prev
        }
    }
}

/// The commits of `git log` output whose records end in `\u{1e}`.
pub open spec fn commits_of(s: Seq<char>) -> Seq<CommitV> {
    commits_from(split_on(s, '\u{1e}'))
}

pub open spec fn commits_view(v: Seq<Commit>) -> Seq<CommitV> {
    v.map_values(|c: Commit| c@)
}

fn parse_one(v: &Vec<char>, lo: usize, hi: usize) -> (r: Option<Commit>)
    requires
        lo <= hi <= v.len(),
    ensures
        match commit_of(v@.subrange(lo as int, hi as int)) {
            Some(c) => r is Some && r->0@ == c,
            None => r is None,
        },
{
    let parts = split_chars(v, lo, hi, '\u{1f}');
    proof {
        lemma_split_on_nonempty(v@.subrange(lo as int, hi as int), '\u{1f}');
    }
    if parts.len() < 5 {
        return None;
    }
    let body = if parts.len() > 5 {
        let p5 = &parts[5];
        let (a, b) = trim_bounds(p5, 0, p5.len());
        assert(p5@.subrange(0, p5@.len() as int) =~= p5@);
        string_of(p5, a, b)
    } else {
        String::new()
    };
    Some(
        Commit {
            hash: string_of_all(&parts[0]),
            short_hash: string_of_all(&parts[1]),
            author: string_of_all(&parts[2]),
            date: string_of_all(&parts[3]),
            subject: string_of_all(&parts[4]),
            body,
        },
    )
}

/// Parses `git log` output written with the `%x1f` field and `%x1e` record
/// separators.
pub fn parse_commits(stdout: &str) -> (r: Vec<Commit>)
    ensures
        commits_view(r@) == commits_of(stdout@),
{
    let v = chars_of(stdout);
    let pieces = split_chars(&v, 0, v.len(), '\u{1e}');
    assert(v@.subrange(0, v@.len() as int) =~= stdout@);
    let ghost ps = views_of(pieces@);
    let mut out: Vec<Commit> = Vec::new();
    let mut i: usize = 0;
    while i < pieces.len()
        invariant
            i <= pieces.len(),
            ps == views_of(pieces@),
            commits_view(out@) == commits_from(ps.take(i as int)),
        decreases pieces.len() - i,
    {
        let piece = &pieces[i];
        assert(piece@ == ps[i as int]);
        assert(ps.take(i + 1).drop_last() =~= ps.take(i as int));
        assert(ps.take(i + 1).last() == piece@);
        let (a, b) = trim_newline_bounds(piece, 0, piece.len());
        assert(piece@.subrange(0, piece@.len() as int) =~= piece@);
        if a < b {
            match parse_one(piece, a, b) {
                Some(c) => {
                    let ghost before = commits_view(out@);
                    let ghost cv = c@;
                    out.push(c);
                    assert(commits_view(out@) =~= before.push(cv));
                },
                None => {},
            }
        }
        i += 1;
    }
    assert(ps.take(i as int) =~= ps);
    out
}

// ---------------------------------------------------------------------------
// `git branch --format=%(refname:short)`
// ---------------------------------------------------------------------------

pub open spec fn lit_head_arrow() -> Seq<char> {
    seq!['H', 'E', 'A', 'D', ' ', '-', '>']
}

/// A trimmed line names a branch: it is not empty and is no `HEAD ->` alias.
pub open spec fn is_branch_line(l: Seq<char>) -> bool {
    l.len() > 0 && !seq_contains(l, lit_head_arrow())
}

/// The trimmed lines that name branches, in order.
pub open spec fn branch_lines(lines: Seq<Seq<char>>) -> Seq<Seq<char>>
    decreases lines.len(),
{
    if lines.len() == 0 {
        Seq::empty()
    } else {
        let prev = branch_lines(lines.drop_last());
        let t = trim(lines.last());
        if is_branch_line(t) {
            prev.push(t)
        } else {
            prev
        }
    }
}

/// Strictly increasing in `str` order (so also free of duplicates).
pub open spec fn strictly_sorted(s: Seq<Seq<char>>) -> bool {
    forall|i: int, j: int| 0 <= i < j < s.len() ==> seq_lt(#[trigger] s[i], #[trigger] s[j])
}

pub open spec fn strings_view(v: Seq<String>) -> Seq<Seq<char>> {
    v.map_values(|s: String| s@)
}

impl TotalPreorder for String {
    open spec fn key_le(self, other: Self) -> bool {
        !seq_lt(other@, self@)
    }

    fn key_le_exec(&self, other: &Self) -> (r: bool) {
        let a = chars_of(self.as_str());
        let b = chars_of(other.as_str());
        compare_from(&b, &a) != -1
    }

    proof fn key_le_total(a: Self, b: Self) {
        if seq_lt(a@, b@) && seq_lt(b@, a@) {
            lemma_seq_lt_trans(a@, b@, a@);
            lemma_seq_lt_irrefl(a@);
        }
    }

    proof fn key_le_trans(a: Self, b: Self, c: Self) {
        lemma_seq_lt_total(a@, b@);
        lemma_seq_lt_total(b@, c@);
        if seq_lt(c@, a@) {
            if seq_lt(a@, b@) {
                lemma_seq_lt_trans(c@, a@, b@);
                lemma_seq_lt_total(b@, c@);
                if seq_lt(b@, c@) {
                    lemma_seq_lt_trans(b@, c@, b@);
                    lemma_seq_lt_irrefl(b@);
                }
            } else if a@ == b@ {
            }
        }
    }
}

/// The branch names of `git branch` output: each line trimmed, empty lines
/// and `HEAD ->` aliases dropped, then sorted with duplicates removed.
pub fn parse_branches(stdout: &str) -> (r: Vec<String>)
    ensures
        strictly_sorted(strings_view(r@)),
        strings_view(r@).to_set() == branch_lines(lines_of(stdout@)).to_set(),
{
    let v = chars_of(stdout);
    let lines = lines_chars(&v, 0, v.len());
    assert(v@.subrange(0, v@.len() as int) =~= stdout@);
    let ghost ls = views_of(lines@);
    let arrow: [char; 7] = ['H', 'E', 'A', 'D', ' ', '-', '>'];
    assert(arrow@ =~= lit_head_arrow());
    let mut names: Vec<String> = Vec::new();
    let mut i: usize = 0;
    while i < lines.len()
        invariant
            i <= lines.len(),
            ls == views_of(lines@),
            arrow@ == lit_head_arrow(),
            strings_view(names@) == branch_lines(ls.take(i as int)),
        decreases lines.len() - i,
    {
        let line = &lines[i];
        assert(line@ == ls[i as int]);
        assert(ls.take(i + 1).drop_last() =~= ls.take(i as int));
        assert(ls.take(i + 1).last() == line@);
        let (a, b) = trim_bounds(line, 0, line.len());
        assert(line@.subrange(0, line@.len() as int) =~= line@);
        if a < b && !contains_at_any(line, a, b, &arrow) {
            let s = string_of(line, a, b);
            let ghost before = strings_view(names@);
            names.push(s);
            assert(strings_view(names@) =~= before.push(trim(ls[i as int])));
        }
        i += 1;
    }
    assert(ls.take(i as int) =~= ls);
    let ghost unsorted = names@;
    stable_sort(&mut names);
    let ghost sorted = names@;
    proof {
        let p = choose|p: Seq<int>| crate::sort::stable_sorted_by(unsorted, sorted, p);
        assert forall|x: Seq<char>| strings_view(sorted).to_set().contains(x) <==> strings_view(
            unsorted,
        ).to_set().contains(x) by {
            if strings_view(sorted).to_set().contains(x) {
                let k = choose|k: int| 0 <= k < sorted.len() && strings_view(sorted)[k] == x;
                assert(sorted[k] == unsorted[p[k]]);
                assert(strings_view(unsorted)[p[k]] == x);
            }
            if strings_view(unsorted).to_set().contains(x) {
                let k = choose|k: int| 0 <= k < unsorted.len() && strings_view(unsorted)[k] == x;
                lemma_perm_onto(p, unsorted.len() as int, k);
                let j = choose|j: int| 0 <= j < p.len() && p[j] == k;
                assert(sorted[j] == unsorted[k]);
                assert(strings_view(sorted)[j] == x);
            }
        }
        assert(strings_view(sorted).to_set() =~= strings_view(unsorted).to_set());
    }
    let mut out: Vec<String> = Vec::new();
    let mut k: usize = 0;
    while k < names.len()
        invariant
            k <= names.len(),
            names@ == sorted,
            forall|a: int, b: int|
                0 <= a < b < sorted.len() ==> (#[trigger] sorted[a]).key_le(#[trigger] sorted[b]),
            strictly_sorted(strings_view(out@)),
            strings_view(out@).to_set() == strings_view(sorted.take(k as int)).to_set(),
            k > 0 ==> out@.len() > 0 && out@.last()@ == sorted[k - 1]@,
            k == 0 ==> out@.len() == 0,
        decreases names.len() - k,
    {
        let ghost before = strings_view(out@);
        let dup = out.len() > 0 && str_eq(out[out.len() - 1].as_str(), names[k].as_str());
        if !dup {
            let s = names[k].clone();
            proof {
                if out@.len() > 0 {
                    // The last kept name is sorted[k - 1], which precedes sorted[k].
                    assert(sorted[k - 1].key_le(sorted[k as int]));
                    lemma_seq_lt_total(sorted[k - 1]@, sorted[k as int]@);
                    assert forall|a: int| 0 <= a < before.len() implies seq_lt(
                        #[trigger] before[a],
                        sorted[k as int]@,
                    ) by {
                        if a < before.len() - 1 {
                            assert(seq_lt(before[a], before[before.len() - 1]));
                            lemma_seq_lt_trans(
                                before[a],
                                before[before.len() - 1],
                                sorted[k as int]@,
                            );
                        }
                    }
                }
            }
            out.push(s);
            assert(strings_view(out@) =~= before.push(sorted[k as int]@));
        }
        proof {
            assert(strings_view(sorted.take(k + 1)) =~= strings_view(sorted.take(k as int)).push(
                sorted[k as int]@,
            ));
            lemma_push_to_set(strings_view(sorted.take(k as int)), sorted[k as int]@);
            if dup {
                assert(strings_view(out@).to_set().contains(sorted[k as int]@)) by {
                    assert(strings_view(out@)[out@.len() - 1] == sorted[k as int]@);
                }
                assert(strings_view(out@).to_set() =~= strings_view(sorted.take(k + 1)).to_set());
            } else {
                lemma_push_to_set(before, sorted[k as int]@);
                assert(strings_view(out@).to_set() =~= strings_view(sorted.take(k + 1)).to_set());
            }
        }
        k += 1;
    }
    assert(sorted.take(k as int) =~= sorted);
    out
}

/// Pushing onto a sequence adds the element to its set.
pub proof fn lemma_push_to_set<A>(s: Seq<A>, x: A)
    ensures
        s.push(x).to_set() == s.to_set().insert(x),
{
    assert(s.push(x) =~= s + seq![x]);
    Seq::lemma_to_set_insert_commutes(s, x);
}

/// Every index below `n` is hit by a permutation of `0..n`.
pub proof fn lemma_perm_onto(p: Seq<int>, n: int, k: int)
    requires
        crate::sort::is_perm(p, n),
        0 <= k < n,
    ensures
        exists|j: int| 0 <= j < p.len() && p[j] == k,
{
    if !(exists|j: int| 0 <= j < p.len() && p[j] == k) {
        let s = p.to_set();
        let full = vstd::set_lib::set_int_range(0, n);
        let target = full.remove(k);
        assert forall|a: int, b: int| 0 <= a < p.len() && 0 <= b < p.len() && a != b implies p[a]
            != p[b] by {
            if a < b {
                assert(p[a] != p[b]);
            } else {
                assert(p[b] != p[a]);
            }
        }
        assert(p.no_duplicates());
        p.unique_seq_to_set();
        assert forall|x: int| s.contains(x) implies target.contains(x) by {
            let j = choose|j: int| 0 <= j < p.len() && p[j] == x;
        }
        vstd::set_lib::lemma_int_range(0, n);
        assert(full.contains(k));
        assert(full.finite());
        assert(target.len() == full.len() - 1);
        vstd::set_lib::lemma_len_subset(s, target);
        assert(target.len() == n - 1);
        assert(false);
    }
}

/// `x` holds no `sep`.
pub open spec fn free_of(x: Seq<char>, sep: char) -> bool {
    forall|i: int| 0 <= i < x.len() ==> x[i] != sep
}

proof fn lemma_split_free(x: Seq<char>, sep: char)
    requires
        free_of(x, sep),
    ensures
        split_on(x, sep) == seq![x],
    decreases x.len(),
{
    if x.len() > 0 {
        lemma_split_free(x.drop_last(), sep);
        assert(x.drop_last().push(x.last()) =~= x);
        assert(seq![x.drop_last()].update(0, x.drop_last().push(x.last())) =~= seq![x]);
    } else {
        assert(x =~= Seq::<char>::empty());
    }
}

proof fn lemma_split_join(a: Seq<char>, b: Seq<char>, sep: char)
    ensures
        split_on(a + seq![sep] + b, sep) == split_on(a, sep) + split_on(b, sep),
    decreases b.len(),
{
    let e = a + seq![sep] + b;
    if b.len() == 0 {
        assert(e.drop_last() =~= a);
        assert(split_on(b, sep) =~= seq![Seq::<char>::empty()]);
        assert(split_on(a, sep).push(Seq::<char>::empty()) =~= split_on(a, sep) + split_on(b, sep));
    } else {
        let bd = b.drop_last();
        lemma_split_join(a, bd, sep);
        assert(e.drop_last() =~= a + seq![sep] + bd);
        assert(e.last() == b.last());
        let pa = split_on(a, sep);
        let pb = split_on(bd, sep);
        lemma_split_on_nonempty(bd, sep);
        if b.last() == sep {
            assert((pa + pb).push(Seq::<char>::empty()) =~= pa + pb.push(Seq::<char>::empty()));
        } else {
            let prev = pa + pb;
            assert(prev.last() == pb.last());
            assert(prev.update(prev.len() - 1, prev.last().push(b.last())) =~= pa + pb.update(
                pb.len() - 1,
                pb.last().push(b.last()),
            ));
        }
    }
}

/// A `git log` record laid out as `%H`, `%h`, author, date and subject
/// separated by `\u{1f}`, then `\u{1f}` and the body, reads as the commit
/// with exactly those fields in that order: the hash is the first field and
/// the short hash the second.
pub proof fn lemma_commit_fields_in_order(
    hash: Seq<char>,
    short_hash: Seq<char>,
    author: Seq<char>,
    date: Seq<char>,
    subject: Seq<char>,
    rest: Seq<char>,
)
    requires
        free_of(hash, '\u{1f}'),
        free_of(short_hash, '\u{1f}'),
        free_of(author, '\u{1f}'),
        free_of(date, '\u{1f}'),
        free_of(subject, '\u{1f}'),
    ensures
        ({
            let us = seq!['\u{1f}'];
            let entry = hash + us + short_hash + us + author + us + date + us + subject + us + rest;
            commit_of(entry) matches Some(c) && c.hash == hash && c.short_hash == short_hash && c.author
                == author && c.date == date && c.subject == subject
        }),
{
    let sep = '\u{1f}';
    let us = seq![sep];
    lemma_split_free(hash, sep);
    lemma_split_free(short_hash, sep);
    lemma_split_free(author, sep);
    lemma_split_free(date, sep);
    lemma_split_free(subject, sep);
    lemma_split_on_nonempty(rest, sep);
    let t4 = subject + us + rest;
    lemma_split_join(subject, rest, sep);
    let t3 = date + us + t4;
    lemma_split_join(date, t4, sep);
    let t2 = author + us + t3;
    lemma_split_join(author, t3, sep);
    let t1 = short_hash + us + t2;
    lemma_split_join(short_hash, t2, sep);
    let t0 = hash + us + t1;
    lemma_split_join(hash, t1, sep);
    let entry = hash + us + short_hash + us + author + us + date + us + subject + us + rest;
    assert(entry =~= t0);
    let parts = split_on(entry, sep);
    assert(parts =~= seq![hash, short_hash, author, date, subject] + split_on(rest, sep));
    assert(parts[0] == hash && parts[1] == short_hash && parts[2] == author);
    assert(parts[3] == date && parts[4] == subject);
}

} // verus!
