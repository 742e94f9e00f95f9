//! The data that the review screens show: files of a diff, their parsed diff
//! lines, and commits.

use crate::sort::{is_stable_sort_of, stable_sort, TotalPreorder};
use crate::text::{
    append_chars, ascii_upper, chars_of, compare_from, copy_chars, lemma_seq_lt_irrefl,
    lemma_seq_lt_total, lemma_seq_lt_trans, push_char, seq_lt, str_eq, to_ascii_upper,
};
use vstd::prelude::*;

verus! {

broadcast use vstd::string::group_string_axioms;

#[derive(Debug, Clone, Copy, PartialEq, Eq, Hash, Structural)]
pub enum FileStatus {
    Added,
    Modified,
    Deleted,
    Renamed,
    Copied,
    Other,
}

/// The status that a `git diff --name-status` letter stands for (either case).
pub open spec fn status_of_letter(c: char) -> FileStatus {
    let u = ascii_upper(c);
    if u == 'A' {
        FileStatus::Added
    } else if u == 'M' {
        FileStatus::Modified
    } else if u == 'D' {
        FileStatus::Deleted
    } else if u == 'R' {
        FileStatus::Renamed
    } else if u == 'C' {
        FileStatus::Copied
    } else {
        FileStatus::Other
    }
}

/// The one-letter code of a status.
pub open spec fn short_of(s: FileStatus) -> Seq<char> {
    match s {
        FileStatus::Added => seq!['A'],
        FileStatus::Modified => seq!['M'],
        FileStatus::Deleted => seq!['D'],
        FileStatus::Renamed => seq!['R'],
        FileStatus::Copied => seq!['C'],
        FileStatus::Other => seq!['?'],
    }
}

/// The word shown for a status.
pub open spec fn label_of(s: FileStatus) -> Seq<char> {
    match s {
        FileStatus::Added => seq!['A', 'd', 'd', 'e', 'd'],
        FileStatus::Modified => seq!['M', 'o', 'd', 'i', 'f', 'i', 'e', 'd'],
        FileStatus::Deleted => seq!['D', 'e', 'l', 'e', 't', 'e', 'd'],
        FileStatus::Renamed => seq!['R', 'e', 'n', 'a', 'm', 'e', 'd'],
        FileStatus::Copied => seq!['C', 'o', 'p', 'i', 'e', 'd'],
        FileStatus::Other => seq!['C', 'h', 'a', 'n', 'g', 'e', 'd'],
    }
}

impl FileStatus {
    pub fn from_letter(c: char) -> (r: FileStatus)
        ensures
            r == status_of_letter(c),
    {
        let u = to_ascii_upper(c);
        if u == 'A' {
            FileStatus::Added
        } else if u == 'M' {
            FileStatus::Modified
        } else if u == 'D' {
            FileStatus::Deleted
        } else if u == 'R' {
            FileStatus::Renamed
        } else if u == 'C' {
            FileStatus::Copied
        } else {
            FileStatus::Other
        }
    }

    pub fn short(&self) -> (r: &'static str)
        ensures
            r@ == short_of(*self),
    {
        match self {
            FileStatus::Added => {
                proof {
                    reveal_strlit("A");
                }
                "A"
            },
            FileStatus::Modified => {
                proof {
                    reveal_strlit("M");
                }
                "M"
            },
            FileStatus::Deleted => {
                proof {
                    reveal_strlit("D");
                }
                "D"
            },
            FileStatus::Renamed => {
                proof {
                    reveal_strlit("R");
                }
                "R"
            },
            FileStatus::Copied => {
                proof {
                    reveal_strlit("C");
                }
                "C"
            },
            FileStatus::Other => {
                proof {
                    reveal_strlit("?");
                }
                "?"
            },
        }
    }

    pub fn label(&self) -> (r: &'static str)
        ensures
            r@ == label_of(*self),
    {
        match self {
            FileStatus::Added => {
                proof {
                    reveal_strlit("Added");
                }
                "Added"
            },
            FileStatus::Modified => {
                proof {
                    reveal_strlit("Modified");
                }
                "Modified"
            },
            FileStatus::Deleted => {
                proof {
                    reveal_strlit("Deleted");
                }
                "Deleted"
            },
            FileStatus::Renamed => {
                proof {
                    reveal_strlit("Renamed");
                }
                "Renamed"
            },
            FileStatus::Copied => {
                proof {
                    reveal_strlit("Copied");
                }
                "Copied"
            },
            FileStatus::Other => {
                proof {
                    reveal_strlit("Changed");
                }
                "Changed"
            },
        }
    }
}

/// One line of a parsed unified diff.
#[derive(Debug, Clone)]
pub enum DiffLine {
    GitHeader(String),
    IndexHeader(String),
    OldFile(String),
    NewFile(String),
    Hunk { header: String, old_start: u32, old_count: u32, new_start: u32, new_count: u32 },
    Add(String),
    Del(String),
    Context(String),
    NoNewline(String),
    Binary(String),
}

/// The mathematical value of a [`DiffLine`].
pub ghost enum DiffLineV {
    GitHeader(Seq<char>),
    IndexHeader(Seq<char>),
    OldFile(Seq<char>),
    NewFile(Seq<char>),
    Hunk { header: Seq<char>, old_start: u32, old_count: u32, new_start: u32, new_count: u32 },
    Add(Seq<char>),
    Del(Seq<char>),
    Context(Seq<char>),
    NoNewline(Seq<char>),
    Binary(Seq<char>),
}

impl View for DiffLine {
    type V = DiffLineV;

    open spec fn view(&self) -> DiffLineV {
        match self {
            DiffLine::GitHeader(s) => DiffLineV::GitHeader(s@),
            DiffLine::IndexHeader(s) => DiffLineV::IndexHeader(s@),
            DiffLine::OldFile(s) => DiffLineV::OldFile(s@),
            DiffLine::NewFile(s) => DiffLineV::NewFile(s@),
            DiffLine::Hunk { header, old_start, old_count, new_start, new_count } => DiffLineV::Hunk {
                header: header@,
                old_start: *old_start,
                old_count: *old_count,
                new_start: *new_start,
                new_count: *new_count,
            },
            DiffLine::Add(s) => DiffLineV::Add(s@),
            DiffLine::Del(s) => DiffLineV::Del(s@),
            DiffLine::Context(s) => DiffLineV::Context(s@),
            DiffLine::NoNewline(s) => DiffLineV::NoNewline(s@),
            DiffLine::Binary(s) => DiffLineV::Binary(s@),
        }
    }
}

/// The values of a list of diff lines.
pub open spec fn lines_view(v: Seq<DiffLine>) -> Seq<DiffLineV> {
    v.map_values(|d: DiffLine| d@)
}

impl DiffLine {
    /// A copy with the same value.
    pub fn duplicate(&self) -> (r: DiffLine)
        ensures
            r@ == self@,
    {
        match self {
            DiffLine::GitHeader(s) => DiffLine::GitHeader(s.clone()),
            DiffLine::IndexHeader(s) => DiffLine::IndexHeader(s.clone()),
            DiffLine::OldFile(s) => DiffLine::OldFile(s.clone()),
            DiffLine::NewFile(s) => DiffLine::NewFile(s.clone()),
            DiffLine::Hunk { header, old_start, old_count, new_start, new_count } => DiffLine::Hunk {
                header: header.clone(),
                old_start: *old_start,
                old_count: *old_count,
                new_start: *new_start,
                new_count: *new_count,
            },
            DiffLine::Add(s) => DiffLine::Add(s.clone()),
            DiffLine::Del(s) => DiffLine::Del(s.clone()),
            DiffLine::Context(s) => DiffLine::Context(s.clone()),
            DiffLine::NoNewline(s) => DiffLine::NoNewline(s.clone()),
            DiffLine::Binary(s) => DiffLine::Binary(s.clone()),
        }
    }
}

/// A copy of a list of diff lines with the same values.
pub fn duplicate_lines(v: &Vec<DiffLine>) -> (r: Vec<DiffLine>)
    ensures
        lines_view(r@) == lines_view(v@),
{
    let mut r: Vec<DiffLine> = Vec::new();
    let mut i: usize = 0;
    while i < v.len()
        invariant
            i <= v.len(),
            lines_view(r@) == lines_view(v@.take(i as int)),
        decreases v.len() - i,
    {
        let ghost before = r@;
        r.push(v[i].duplicate());
        assert(lines_view(r@) =~= lines_view(before).push(v@[i as int]@));
        assert(v@.take(i + 1) =~= v@.take(i as int).push(v@[i as int]));
        i += 1;
        assert(lines_view(r@) =~= lines_view(v@.take(i as int)));
    }
    assert(v@.take(i as int) =~= v@);
    r
}

/// One file of a diff.
#[derive(Debug, Clone)]
pub struct FileChange {
    pub path: String,
    pub old_path: Option<String>,
    pub status: FileStatus,
    pub diff_lines: Vec<DiffLine>,
    pub additions: u32,
    pub deletions: u32,
    pub binary: bool,
}

pub ghost struct FileChangeV {
    pub path: Seq<char>,
    pub old_path: Option<Seq<char>>,
    pub status: FileStatus,
    pub diff_lines: Seq<DiffLineV>,
    pub additions: u32,
    pub deletions: u32,
    pub binary: bool,
}

pub open spec fn opt_view(o: Option<String>) -> Option<Seq<char>> {
    match o {
        Some(s) => Some(s@),
        None => None,
    }
}

impl View for FileChange {
    type V = FileChangeV;

    open spec fn view(&self) -> FileChangeV {
        FileChangeV {
            path: self.path@,
            old_path: opt_view(self.old_path),
            status: self.status,
            diff_lines: lines_view(self.diff_lines@),
            additions: self.additions,
            deletions: self.deletions,
            binary: self.binary,
        }
    }
}

/// The values of a list of files.
pub open spec fn files_view(v: Seq<FileChange>) -> Seq<FileChangeV> {
    v.map_values(|f: FileChange| f@)
}

/// The paths of a list of files.
pub open spec fn paths_of(v: Seq<FileChange>) -> Seq<Seq<char>> {
    v.map_values(|f: FileChange| f.path@)
}

/// A copy of an optional string with the same value.
pub fn duplicate_opt(o: &Option<String>) -> (r: Option<String>)
    ensures
        opt_view(r) == opt_view(*o),
{
    match o {
        Some(s) => Some(s.clone()),
        None => None,
    }
}

/// The header label of a renamed or copied file: `old → new`.
pub open spec fn display_name_of(f: FileChangeV) -> Seq<char> {
    match f.old_path {
        Some(old) => if (f.status == FileStatus::Renamed || f.status == FileStatus::Copied)
            && old != f.path {
            old + seq![' ', '→', ' '] + f.path
        } else {
            f.path
        },
        None => f.path,
    }
}

impl FileChange {
    /// A copy with the same value.
    pub fn duplicate(&self) -> (r: FileChange)
        ensures
            r@ == self@,
    {
        FileChange {
            path: self.path.clone(),
            old_path: duplicate_opt(&self.old_path),
            status: self.status,
            diff_lines: duplicate_lines(&self.diff_lines),
            additions: self.additions,
            deletions: self.deletions,
            binary: self.binary,
        }
    }

    /// Header label for the file: `old → new` for a rename or copy whose
    /// path changed, else the path.
    pub fn display_name(&self) -> (r: String)
        ensures
            r@ == display_name_of(self@),
    {
        match &self.old_path {
            Some(old) => {
                if (matches!(self.status, FileStatus::Renamed) || matches!(
                    self.status,
                    FileStatus::Copied,
                )) && !str_eq(old.as_str(), self.path.as_str()) {
                    let mut r = old.clone();
                    push_char(&mut r, ' ');
                    push_char(&mut r, '→');
                    push_char(&mut r, ' ');
                    append_chars(&mut r, self.path.as_str());
                    assert(r@ =~= display_name_of(self@));
                    r
                } else {
                    self.path.clone()
                }
            },
            None => self.path.clone(),
        }
    }
}

/// A copy of a list of files with the same values.
pub fn duplicate_files(v: &Vec<FileChange>) -> (r: Vec<FileChange>)
    ensures
        files_view(r@) == files_view(v@),
{
    let mut r: Vec<FileChange> = Vec::new();
    let mut i: usize = 0;
    while i < v.len()
        invariant
            i <= v.len(),
            files_view(r@) == files_view(v@.take(i as int)),
        decreases v.len() - i,
    {
        let ghost before = r@;
        r.push(v[i].duplicate());
        assert(files_view(r@) =~= files_view(before).push(v@[i as int]@));
        assert(v@.take(i + 1) =~= v@.take(i as int).push(v@[i as int]));
        i += 1;
        assert(files_view(r@) =~= files_view(v@.take(i as int)));
    }
    assert(v@.take(i as int) =~= v@);
    r
}

#[derive(Debug, Clone)]
pub struct Commit {
    pub hash: String,
    pub short_hash: String,
    pub author: String,
    pub date: String,
    pub subject: String,
    pub body: String,
}

pub ghost struct CommitV {
    pub hash: Seq<char>,
    pub short_hash: Seq<char>,
    pub author: Seq<char>,
    pub date: Seq<char>,
    pub subject: Seq<char>,
    pub body: Seq<char>,
}

impl View for Commit {
    type V = CommitV;

    open spec fn view(&self) -> CommitV {
        CommitV {
            hash: self.hash@,
            short_hash: self.short_hash@,
            author: self.author@,
            date: self.date@,
            subject: self.subject@,
            body: self.body@,
        }
    }
}

// ---------------------------------------------------------------------------
// Ordering of files
// ---------------------------------------------------------------------------

/// The directory part of a path: everything before the last `'/'`, or
/// nothing when there is no `'/'` (`rsplit_once('/')`).
pub open spec fn dir_of(p: Seq<char>) -> Seq<char>
    decreases p.len(),
{
    if p.len() == 0 {
        Seq::empty()
    } else if p.last() == '/' {
        p.drop_last()
    } else {
        dir_of(p.drop_last())
    }
}

/// Files are ordered by directory, then path, then status letter.
pub open spec fn file_key_lt(a: FileChange, b: FileChange) -> bool {
    let (da, db) = (dir_of(a.path@), dir_of(b.path@));
    let (pa, pb) = (a.path@, b.path@);
    let (sa, sb) = (short_of(a.status), short_of(b.status));
    ||| seq_lt(da, db)
    ||| (da == db && seq_lt(pa, pb))
    ||| (da == db && pa == pb && seq_lt(sa, sb))
}

fn dir_end(p: &Vec<char>) -> (r: usize)
    ensures
        r <= p.len(),
        p@.take(r as int) == dir_of(p@),
{
    let mut k = p.len();
    assert(p@.take(k as int) =~= p@);
    while k > 0 && p[k - 1] != '/'
        invariant
            k <= p.len(),
            dir_of(p@) == dir_of(p@.take(k as int)),
        decreases k,
    {
        assert(p@.take(k as int).drop_last() =~= p@.take(k - 1));
        k -= 1;
    }
    if k == 0 {
        assert(p@.take(0) =~= Seq::<char>::empty());
        0
    } else {
        assert(p@.take(k as int).drop_last() =~= p@.take(k - 1));
        k - 1
    }
}

impl TotalPreorder for FileChange {
    open spec fn key_le(self, other: Self) -> bool {
        !file_key_lt(other, self)
    }

    fn key_le_exec(&self, other: &Self) -> (r: bool) {
        let pa = chars_of(self.path.as_str());
        let pb = chars_of(other.path.as_str());
        let ea = dir_end(&pa);
        let eb = dir_end(&pb);
        let da = copy_chars(&pa, 0, ea);
        let db = copy_chars(&pb, 0, eb);
        let sa = chars_of(self.status.short());
        let sb = chars_of(other.status.short());
        proof {
            lemma_seq_lt_asym(da@, db@);
            lemma_seq_lt_asym(pa@, pb@);
            lemma_seq_lt_asym(sa@, sb@);
            lemma_seq_lt_irrefl(da@);
            lemma_seq_lt_irrefl(pa@);
            lemma_seq_lt_irrefl(sa@);
        }
        let cd = compare_from(&db, &da);
        if cd == -1 {
            return false;
        }
        if cd == 1 {
            return true;
        }
        let cp = compare_from(&pb, &pa);
        if cp == -1 {
            return false;
        }
        if cp == 1 {
            return true;
        }
        let cs = compare_from(&sb, &sa);
        cs != -1
    }

    proof fn key_le_total(a: Self, b: Self) {
        lemma_key_lt_asym(a, b);
    }

    proof fn key_le_trans(a: Self, b: Self, c: Self) {
        lemma_key_le_trans(a, b, c);
    }
}

proof fn lemma_seq_lt_asym(a: Seq<char>, b: Seq<char>)
    ensures
        !(seq_lt(a, b) && seq_lt(b, a)),
{
    if seq_lt(a, b) && seq_lt(b, a) {
        lemma_seq_lt_trans(a, b, a);
        lemma_seq_lt_irrefl(a);
    }
}

proof fn lemma_key_lt_asym(a: FileChange, b: FileChange)
    ensures
        !(file_key_lt(a, b) && file_key_lt(b, a)),
{
    lemma_seq_lt_asym(dir_of(a.path@), dir_of(b.path@));
    lemma_seq_lt_asym(a.path@, b.path@);
    lemma_seq_lt_asym(short_of(a.status), short_of(b.status));
    lemma_seq_lt_irrefl(dir_of(a.path@));
    lemma_seq_lt_irrefl(a.path@);
}

proof fn lemma_key_le_trans(a: FileChange, b: FileChange, c: FileChange)
    requires
        !file_key_lt(b, a),
        !file_key_lt(c, b),
    ensures
        !file_key_lt(c, a),
{
    let (da, db, dc) = (dir_of(a.path@), dir_of(b.path@), dir_of(c.path@));
    let (pa, pb, pc) = (a.path@, b.path@, c.path@);
    let (sa, sb, sc) = (short_of(a.status), short_of(b.status), short_of(c.status));
    lemma_seq_lt_total(da, db);
    lemma_seq_lt_total(db, dc);
    lemma_seq_lt_total(pa, pb);
    lemma_seq_lt_total(pb, pc);
    lemma_seq_lt_total(sa, sb);
    lemma_seq_lt_total(sb, sc);
    if file_key_lt(c, a) {
        if seq_lt(dc, da) {
            if seq_lt(da, db) {
                lemma_seq_lt_trans(dc, da, db);
            }
            if seq_lt(db, dc) {
                lemma_seq_lt_trans(db, dc, da);
            }
            lemma_seq_lt_irrefl(da);
            lemma_seq_lt_irrefl(db);
            lemma_seq_lt_irrefl(dc);
            lemma_seq_lt_asym(da, dc);
            lemma_seq_lt_asym(db, dc);
            lemma_seq_lt_asym(da, db);
        } else if seq_lt(pc, pa) {
            if seq_lt(pa, pb) {
                lemma_seq_lt_trans(pc, pa, pb);
            }
            if seq_lt(pb, pc) {
                lemma_seq_lt_trans(pb, pc, pa);
            }
            lemma_seq_lt_irrefl(da);
            lemma_seq_lt_irrefl(db);
            lemma_seq_lt_irrefl(pa);
            lemma_seq_lt_irrefl(pb);
            lemma_seq_lt_asym(da, db);
            lemma_seq_lt_asym(db, dc);
            lemma_seq_lt_asym(pa, pb);
            lemma_seq_lt_asym(pb, pc);
        } else {
            if seq_lt(sa, sb) {
                lemma_seq_lt_trans(sc, sa, sb);
            }
            if seq_lt(sb, sc) {
                lemma_seq_lt_trans(sb, sc, sa);
            }
            lemma_seq_lt_irrefl(da);
            lemma_seq_lt_irrefl(db);
            lemma_seq_lt_irrefl(pa);
            lemma_seq_lt_irrefl(pb);
            lemma_seq_lt_irrefl(sa);
            lemma_seq_lt_irrefl(sb);
            lemma_seq_lt_asym(da, db);
            lemma_seq_lt_asym(db, dc);
            lemma_seq_lt_asym(pa, pb);
            lemma_seq_lt_asym(pb, pc);
            lemma_seq_lt_asym(sa, sb);
            lemma_seq_lt_asym(sb, sc);
        }
    }
}

/// Orders files by directory, then path, then status letter, keeping the
/// original order of files that tie on all three (a stable sort).
pub fn sort_files(files: &mut Vec<FileChange>)
    ensures
        is_stable_sort_of(old(files)@, final(files)@),
{
    stable_sort(files);
}

/// git's status letters each read as their own status, and a status's code
/// letter reads back as that status: `A` Added, `M` Modified, `D` Deleted,
/// `R` Renamed, `C` Copied (in either case); every other letter is Other.
pub proof fn lemma_status_letters_round_trip()
    ensures
        forall|c: char|
            (c == 'A' || c == 'M' || c == 'D' || c == 'R' || c == 'C') ==> #[trigger] short_of(
                status_of_letter(c),
            ) == seq![c],
        forall|s: FileStatus| s != FileStatus::Other ==> status_of_letter(#[trigger] short_of(s)[0]) == s,
        forall|c: char|
            (#[trigger] status_of_letter(c) == FileStatus::Other) <==> !(ascii_upper(c) == 'A'
                || ascii_upper(c) == 'M' || ascii_upper(c) == 'D' || ascii_upper(c) == 'R'
                || ascii_upper(c) == 'C'),
        forall|c: char| 'a' <= c <= 'z' ==> #[trigger] status_of_letter(c) == status_of_letter(
            ascii_upper(c),
        ),
{
    assert forall|s: FileStatus| s != FileStatus::Other implies status_of_letter(
        #[trigger] short_of(s)[0],
    ) == s by {
        match s {
            FileStatus::Added => assert(short_of(s)[0] == 'A'),
            FileStatus::Modified => assert(short_of(s)[0] == 'M'),
            FileStatus::Deleted => assert(short_of(s)[0] == 'D'),
            FileStatus::Renamed => assert(short_of(s)[0] == 'R'),
            FileStatus::Copied => assert(short_of(s)[0] == 'C'),
            FileStatus::Other => {},
        }
    }
    assert forall|c: char| 'a' <= c <= 'z' implies #[trigger] status_of_letter(c) == status_of_letter(
        ascii_upper(c),
    ) by {
        assert(ascii_upper(ascii_upper(c)) == ascii_upper(c));
    }
}

} // verus!
