//! In-diff search: byte-range matching and the mapping from diff lines to
//! rendered rows.

use crate::app::state::visible_index;
use crate::app::{App, DiffMode, TextInput};
use crate::model::{lines_view, DiffLine, DiffLineV, FileChange};
use vstd::prelude::*;
use vstd::utf8::{encode_utf8, is_char_boundary};

verus! {

broadcast use vstd::string::group_string_axioms;

#[derive(Debug, Clone, Copy, PartialEq, Eq, Structural)]
pub struct DiffMatch {
    /// Index into the current file's `diff_lines`.
    pub line: usize,
    /// Byte offsets into the diff line's text content (excluding gutters).
    pub start: usize,
    pub end: usize,
}

#[derive(Debug, Clone, Default)]
pub struct DiffSearch {
    pub query: TextInput,
    pub matches: Vec<DiffMatch>,
    pub current: usize,
    pub case_sensitive: bool,
}

/// `u8::to_ascii_lowercase`.
pub open spec fn ascii_lower(b: u8) -> u8 {
    if 65 <= b <= 90 {
        (b + 32) as u8
    } else {
        b
    }
}

/// Two bytes are equal, or equal ignoring ASCII case when the search is
/// case-insensitive.
pub open spec fn byte_match(a: u8, b: u8, case_sensitive: bool) -> bool {
    if case_sensitive {
        a == b
    } else {
        ascii_lower(a) == ascii_lower(b)
    }
}

/// `needle` matches the bytes of `h` from `i`.
pub open spec fn matches_at(h: Seq<u8>, needle: Seq<u8>, i: int, cs: bool) -> bool {
    &&& 0 <= i
    &&& i + needle.len() <= h.len()
    &&& forall|k: int| 0 <= k < needle.len() ==> byte_match(#[trigger] h[i + k], needle[k], cs)
}

/// The hits starting below `m`, in order: byte ranges where `needle`
/// matches and both ends fall on character boundaries.
pub open spec fn hits_below(h: Seq<u8>, needle: Seq<u8>, cs: bool, m: int) -> Seq<(usize, usize)>
    decreases m,
{
    if m <= 0 {
        Seq::empty()
    } else {
        let p = hits_below(h, needle, cs, m - 1);
        let i = m - 1;
        if matches_at(h, needle, i, cs) && is_char_boundary(h, i) && is_char_boundary(
            h,
            i + needle.len(),
        ) {
            p.push((i as usize, (i + needle.len()) as usize))
        } else {
            p
        }
    }
}

/// Every match of `needle` in `hay`'s UTF-8 bytes, overlapping ones too, as
/// byte ranges that can slice `hay`; none for an empty or longer needle.
pub open spec fn substr_hits(hay: Seq<char>, needle: Seq<u8>, cs: bool) -> Seq<(usize, usize)> {
    let h = encode_utf8(hay);
    if needle.len() == 0 || needle.len() > h.len() {
        Seq::empty()
    } else {
        hits_below(h, needle, cs, h.len() - needle.len() + 1)
    }
}

fn bytes_match(h: &[u8], i: usize, needle: &[u8], cs: bool) -> (r: bool)
    requires
        i + needle@.len() <= h@.len(),
    ensures
        r == matches_at(h@, needle@, i as int, cs),
{
    let hl = h.len();
    let mut k: usize = 0;
    while k < needle.len()
        invariant
            hl == h@.len(),
            i + needle@.len() <= h@.len(),
            k <= needle@.len(),
            forall|j: int| 0 <= j < k ==> byte_match(#[trigger] h@[i + j], needle@[j], cs),
        decreases needle.len() - k,
    {
        let a = h[i + k];
        let b = needle[k];
        let eq = if cs {
            a == b
        } else {
            let la = if 65 <= a && a <= 90 {
                a + 32
            } else {
                a
            };
            let lb = if 65 <= b && b <= 90 {
                b + 32
            } else {
                b
            };
            la == lb
        };
        if !eq {
            assert(!byte_match(h@[i + k], needle@[k as int], cs));
            return false;
        }
        k += 1;
    }
    true
}

/// Substring search returning byte ranges. In case-insensitive mode the
/// comparison is ASCII-only (so "é" only matches "é"). Offsets fall on
/// UTF-8 character boundaries, so they can slice `hay` directly.
pub fn find_all_substr(hay: &str, needle: &[u8], case_sensitive: bool) -> (r: Vec<(usize, usize)>)
    ensures
        r@ == substr_hits(hay@, needle@, case_sensitive),
{
    let mut out: Vec<(usize, usize)> = Vec::new();
    let h = hay.as_bytes();
    if needle.len() == 0 || needle.len() > h.len() {
        return out;
    }
    let n = needle.len();
    let hl = h.len();
    let last = hl - n;
    let mut i: usize = 0;
    while i <= last
        invariant
            hl == h@.len(),
            h@ == encode_utf8(hay@),
            n == needle@.len() >= 1,
            last + n == h@.len(),
            i <= last + 1,
            out@ == hits_below(h@, needle@, case_sensitive, i as int),
        decreases last + 1 - i,
    {
        let m = bytes_match(h, i, needle, case_sensitive);
        let on_boundary = hay.is_char_boundary(i) && hay.is_char_boundary(i + n);
        if m && on_boundary {
            out.push((i, i + n));
        }
        i += 1;
    }
    out
}

// ---------------------------------------------------------------------------
// Rendered rows
// ---------------------------------------------------------------------------

/// File headers produce no rendered row.
pub open spec fn is_header(d: DiffLineV) -> bool {
    d is GitHeader || d is IndexHeader || d is OldFile || d is NewFile
}

/// The number of lines that render a row in unified mode.
pub open spec fn unified_rows(v: Seq<DiffLineV>) -> nat
    decreases v.len(),
{
    if v.len() == 0 {
        0
    } else {
        unified_rows(v.drop_last()) + if is_header(v.last()) {
            0nat
        } else {
            1nat
        }
    }
}

pub open spec fn max_nat(a: nat, b: nat) -> nat {
    if a >= b {
        a
    } else {
        b
    }
}

/// Split-mode layout after a prefix: rows placed so far, and the deleted and
/// added lines waiting to be paired side by side.
pub open spec fn split_state(v: Seq<DiffLineV>) -> (nat, nat, nat)
    decreases v.len(),
{
    if v.len() == 0 {
        (0, 0, 0)
    } else {
        let (r, pd, pa) = split_state(v.drop_last());
        let d = v.last();
        if d is Hunk || d is Context {
            (r + max_nat(pd, pa) + 1, 0, 0)
        } else if d is Del {
            (r, pd + 1, pa)
        } else if d is Add {
            (r, pd, pa + 1)
        } else {
            (r, pd, pa)
        }
    }
}

/// The number of rows the diff renders in the given mode.
pub open spec fn total_rows(v: Seq<DiffLineV>, mode: DiffMode) -> nat {
    match mode {
        DiffMode::Unified => unified_rows(v),
        DiffMode::Split => {
            let (r, pd, pa) = split_state(v);
            r + max_nat(pd, pa)
        },
    }
}

/// The rendered row of diff line `t` in the given mode (past the end: the
/// row count).
pub open spec fn row_of(v: Seq<DiffLineV>, mode: DiffMode, t: int) -> nat {
    if t >= v.len() {
        total_rows(v, mode)
    } else {
        match mode {
            DiffMode::Unified => unified_rows(v.take(t)),
            DiffMode::Split => {
                let (r, pd, pa) = split_state(v.take(t));
                let d = v[t];
                if d is Hunk || d is Context {
                    r + max_nat(pd, pa)
                } else if d is Del {
                    r + pd
                } else if d is Add {
                    r + pa
                } else {
                    r
                }
            },
        }
    }
}

proof fn lemma_rows_bounded(v: Seq<DiffLineV>)
    ensures
        unified_rows(v) <= v.len(),
        split_state(v).0 + split_state(v).1 + split_state(v).2 <= v.len(),
        split_state(v).0 + max_nat(split_state(v).1, split_state(v).2) <= v.len(),
    decreases v.len(),
{
    if v.len() > 0 {
        lemma_rows_bounded(v.drop_last());
    }
}

/// Rows placed after a split-mode prefix once its waiting lines are paired.
spec fn split_rows(v: Seq<DiffLineV>) -> nat {
    split_state(v).0 + max_nat(split_state(v).1, split_state(v).2)
}

proof fn lemma_prefix_rows_mono(v: Seq<DiffLineV>, t: int)
    requires
        0 <= t <= v.len(),
    ensures
        unified_rows(v.take(t)) <= unified_rows(v),
        split_rows(v.take(t)) <= split_rows(v),
    decreases v.len() - t,
{
    if t < v.len() {
        assert(v.take(t + 1).drop_last() =~= v.take(t));
        lemma_prefix_rows_mono(v, t + 1);
    } else {
        assert(v.take(t) =~= v);
    }
}

/// The rendered row of a diff line never lies past the diff's row count.
pub proof fn lemma_row_within_total(v: Seq<DiffLineV>, mode: DiffMode, t: nat)
    ensures
        row_of(v, mode, t as int) <= total_rows(v, mode),
{
    if t < v.len() {
        lemma_prefix_rows_mono(v, t as int);
    }
}

/// The rendered-row index of diff line `target` in the given mode. File
/// headers render no row, and in split mode runs of deleted and added lines
/// are paired into shared rows.
pub fn rendered_row_for_match(file: &FileChange, mode: DiffMode, target: usize) -> (r: usize)
    ensures
        r == row_of(lines_view(file.diff_lines@), mode, target as int),
{
    let ghost v = lines_view(file.diff_lines@);
    let lines = &file.diff_lines;
    let n = lines.len();
    match mode {
        DiffMode::Unified => {
            let mut rendered: usize = 0;
            let mut i: usize = 0;
            while i < n
                invariant
                    n == lines@.len(),
                    v == lines_view(lines@),
                    v == lines_view(file.diff_lines@),
                    i <= n,
                    i <= target,
                    mode == DiffMode::Unified,
                    rendered == unified_rows(v.take(i as int)),
                decreases n - i,
            {
                if i == target {
                    assert(v.len() == n);
                    return rendered;
                }
                proof {
                    assert(v.take(i + 1).drop_last() =~= v.take(i as int));
                    lemma_rows_bounded(v.take(i as int));
                }
                match &lines[i] {
                    DiffLine::GitHeader(_)
                    | DiffLine::IndexHeader(_)
                    | DiffLine::OldFile(_)
                    | DiffLine::NewFile(_) => {},
                    _ => rendered += 1,
                }
                i += 1;
            }
            assert(v.take(n as int) =~= v);
            rendered
        },
        DiffMode::Split => {
            let mut rendered: usize = 0;
            let mut pd: usize = 0;
            let mut pa: usize = 0;
            let mut i: usize = 0;
            while i < n
                invariant
                    n == lines@.len(),
                    v == lines_view(lines@),
                    v == lines_view(file.diff_lines@),
                    i <= n,
                    i <= target,
                    mode == DiffMode::Split,
                    (rendered as nat, pd as nat, pa as nat) == split_state(v.take(i as int)),
                decreases n - i,
            {
                proof {
                    assert(v.take(i + 1).drop_last() =~= v.take(i as int));
                    lemma_rows_bounded(v.take(i as int));
                    lemma_rows_bounded(v.take(i + 1));
                }
                let on_target = i == target;
                assert(v.len() == n);
                assert(v[i as int] == lines@[i as int]@);
                match &lines[i] {
                    DiffLine::Hunk { .. } | DiffLine::Context(_) => {
                        rendered += if pd >= pa {
                            pd
                        } else {
                            pa
                        };
                        pd = 0;
                        pa = 0;
                        if on_target {
                            return rendered;
                        }
                        rendered += 1;
                    },
                    DiffLine::Del(_) => {
                        if on_target {
                            return rendered + pd;
                        }
                        pd += 1;
                    },
                    DiffLine::Add(_) => {
                        if on_target {
                            return rendered + pa;
                        }
                        pa += 1;
                    },
                    _ => {
                        if on_target {
                            return rendered;
                        }
                    },
                }
                i += 1;
            }
            assert(v.take(n as int) =~= v);
            proof {
                lemma_rows_bounded(v);
            }
            rendered + if pd >= pa {
                pd
            } else {
                pa
            }
        },
    }
}

/// The number of rendered rows of the file in the given mode.
pub fn total_rendered_rows(file: &FileChange, mode: DiffMode) -> (r: usize)
    ensures
        r == total_rows(lines_view(file.diff_lines@), mode),
{
    let ghost v = lines_view(file.diff_lines@);
    let lines = &file.diff_lines;
    let n = lines.len();
    let mut total: usize = 0;
    let mut pd: usize = 0;
    let mut pa: usize = 0;
    let mut i: usize = 0;
    while i < n
        invariant
            n == lines@.len(),
            v == lines_view(lines@),
            i <= n,
            match mode {
                DiffMode::Unified => total == unified_rows(v.take(i as int)),
                DiffMode::Split => (total as nat, pd as nat, pa as nat) == split_state(
                    v.take(i as int),
                ),
            },
        decreases n - i,
    {
        proof {
            assert(v.take(i + 1).drop_last() =~= v.take(i as int));
            lemma_rows_bounded(v.take(i as int));
            lemma_rows_bounded(v.take(i + 1));
        }
        match mode {
            DiffMode::Unified => {
                match &lines[i] {
                    DiffLine::GitHeader(_)
                    | DiffLine::IndexHeader(_)
                    | DiffLine::OldFile(_)
                    | DiffLine::NewFile(_) => {},
                    _ => total += 1,
                }
            },
            DiffMode::Split => {
                match &lines[i] {
                    DiffLine::Hunk { .. } | DiffLine::Context(_) => {
                        total += if pd >= pa {
                            pd
                        } else {
                            pa
                        };
                        pd = 0;
                        pa = 0;
                        total += 1;
                    },
                    DiffLine::Del(_) => pd += 1,
                    DiffLine::Add(_) => pa += 1,
                    _ => {},
                }
            },
        }
        i += 1;
    }
    assert(v.take(n as int) =~= v);
    proof {
        lemma_rows_bounded(v);
    }
    match mode {
        DiffMode::Unified => total,
        DiffMode::Split => total + if pd >= pa {
            pd
        } else {
            pa
        },
    }
}


/// The searchable text of a diff line: the content of added, deleted and
/// context lines and the header of a hunk.
pub open spec fn line_text(d: DiffLineV) -> Option<Seq<char>> {
    match d {
        DiffLineV::Add(t) => Some(t),
        DiffLineV::Del(t) => Some(t),
        DiffLineV::Context(t) => Some(t),
        DiffLineV::Hunk { header, .. } => Some(header),
        _ => None,
    }
}

/// Byte ranges on line `line` as matches.
pub open spec fn hits_as_matches(hits: Seq<(usize, usize)>, line: int) -> Seq<DiffMatch> {
    hits.map_values(|h: (usize, usize)| DiffMatch { line: line as usize, start: h.0, end: h.1 })
}

/// Every match of `needle` in the lines, line by line, left to right.
pub open spec fn line_matches(lines: Seq<DiffLineV>, needle: Seq<u8>, cs: bool) -> Seq<DiffMatch>
    decreases lines.len(),
{
    if lines.len() == 0 {
        Seq::empty()
    } else {
        line_matches(lines.drop_last(), needle, cs) + match line_text(lines.last()) {
            Some(t) => hits_as_matches(substr_hits(t, needle, cs), lines.len() - 1),
            None => Seq::empty(),
        }
    }
}

/// The matches of a query in the file shown in the diff panel; none for an
/// empty query.
pub open spec fn search_results(a: App, query: Seq<char>, cs: bool) -> Seq<DiffMatch> {
    if query.len() == 0 {
        Seq::empty()
    } else {
        match visible_index(a) {
            Some(i) => line_matches(lines_view(a.files@[i].diff_lines@), encode_utf8(query), cs),
            None => Seq::empty(),
        }
    }
}

/// The scroll offset that centres row `rendered` in a panel `height` rows
/// tall, kept within `0..=total - height`.
pub open spec fn centered_scroll(rendered: int, total: int, height: int) -> int {
    let max_scroll = if total - height > 0 {
        total - height
    } else {
        0
    };
    let c = if rendered - height / 2 > 0 {
        rendered - height / 2
    } else {
        0
    };
    if c < max_scroll {
        c
    } else {
        max_scroll
    }
}

/// The panel height used for centring: the last frame's, at least 4.
pub open spec fn view_height(h: u16) -> int {
    if h > 4 {
        h as int
    } else {
        4
    }
}


/// `b` is `a` with the search matches recomputed for the visible file;
/// the current match is clamped to the last of the new matches, or 0 when
/// there are none.
pub open spec fn search_recomputed(a: App, b: App) -> bool {
    match a.diff_search {
        None => b == a,
        Some(s) => {
            let m = search_results(a, s.query.buffer@, s.case_sensitive);
            &&& b.diff_search matches Some(t) && t.query == s.query && t.case_sensitive
                == s.case_sensitive && t.matches@ == m && t.current == (if m.len() == 0 {
                0
            } else if s.current >= m.len() {
                (m.len() - 1) as usize
            } else {
                s.current
            })
            &&& b == (App { diff_search: b.diff_search, ..a })
        },
    }
}

/// `b` is `a` with the diff scrolled so the current match is centred.
pub open spec fn scrolled_to_match(a: App, b: App) -> bool {
    if a.diff_search is Some && a.diff_search->0.current < a.diff_search->0.matches@.len()
        && visible_index(a) is Some {
        let s = a.diff_search->0;
        let f = a.files@[visible_index(a)->0];
        let lines = lines_view(f.diff_lines@);
        let row = row_of(lines, a.diff_mode, s.matches@[s.current as int].line as int);
        let total = total_rows(lines, a.diff_mode);
        let off = centered_scroll(row as int, total as int, view_height(a.diff_view_height));
        &&& b.diff_scroll@ == a.diff_scroll@.insert(f.path@, off as u16)
        &&& b == (App { diff_scroll: b.diff_scroll, ..a })
    } else {
        b == a
    }
}

impl DiffSearch {
    /// An open search bar with an empty, case-insensitive query.
    pub fn empty() -> (r: DiffSearch)
        ensures
            r.query.buffer@.len() == 0,
            r.query.cursor == 0,
            r.matches@.len() == 0,
            r.current == 0,
            !r.case_sensitive,
    {
        proof {
            reveal_strlit("");
        }
        DiffSearch { query: TextInput::new(""), matches: Vec::new(), current: 0, case_sensitive: false }
    }
}

/// The matches of `needle` in the diff lines.
fn matches_in_lines(lines: &Vec<DiffLine>, needle: &[u8], cs: bool) -> (r: Vec<DiffMatch>)
    ensures
        r@ == line_matches(lines_view(lines@), needle@, cs),
{
    let ghost v = lines_view(lines@);
    let mut out: Vec<DiffMatch> = Vec::new();
    let mut i: usize = 0;
    while i < lines.len()
        invariant
            i <= lines@.len(),
            v == lines_view(lines@),
            out@ == line_matches(v.take(i as int), needle@, cs),
        decreases lines@.len() - i,
    {
        assert(v.take(i + 1).drop_last() =~= v.take(i as int));
        assert(v.take(i + 1).last() == lines@[i as int]@);
        let text: Option<&str> = match &lines[i] {
            DiffLine::Add(t) => Some(t.as_str()),
            DiffLine::Del(t) => Some(t.as_str()),
            DiffLine::Context(t) => Some(t.as_str()),
            DiffLine::Hunk { header, .. } => Some(header.as_str()),
            _ => None,
        };
        let ghost start = out@;
        match text {
            Some(t) => {
                assert(line_text(lines@[i as int]@) == Some(t@));
                let hits = find_all_substr(t, needle, cs);
                let mut k: usize = 0;
                while k < hits.len()
                    invariant
                        k <= hits@.len(),
                        out@ == start + hits_as_matches(hits@, i as int).take(k as int),
                    decreases hits@.len() - k,
                {
                    let (s0, e0) = hits[k];
                    out.push(DiffMatch { line: i, start: s0, end: e0 });
                    k += 1;
                    assert(out@ =~= start + hits_as_matches(hits@, i as int).take(k as int));
                }
                assert(hits_as_matches(hits@, i as int).take(k as int) =~= hits_as_matches(
                    hits@,
                    i as int,
                ));
            },
            None => {
                assert(line_text(lines@[i as int]@) is None);
                assert(out@ =~= start + Seq::<DiffMatch>::empty());
            },
        }
        i += 1;
    }
    assert(v.take(i as int) =~= v);
    out
}

impl App {
    /// Recomputes the search matches in the file shown in the diff panel
    /// (none for an empty query). The current match is kept valid: clamped
    /// to the last of the new matches, or 0 when there are none.
    pub fn recompute_diff_search(&mut self)
        ensures
            search_recomputed(*old(self), *final(self)),
    {
        let (query, cs) = match &self.diff_search {
            Some(s) => (s.query.buffer.clone(), s.case_sensitive),
            None => {
                return;
            },
        };
        let mut matches: Vec<DiffMatch> = Vec::new();
        if !query.as_str().is_empty() {
            if let Some(file) = self.diff_visible_file() {
                matches = matches_in_lines(&file.diff_lines, query.as_str().as_bytes(), cs);
            }
        }
        let mut ds: Option<DiffSearch> = None;
        std::mem::swap(&mut ds, &mut self.diff_search);
        if let Some(mut search) = ds {
            search.matches = matches;
            if search.matches.len() == 0 {
                search.current = 0;
            } else if search.current >= search.matches.len() {
                search.current = search.matches.len() - 1;
            }
            self.diff_search = Some(search);
        }
    }

    /// Scrolls the diff panel so the current match sits in the middle,
    /// within the diff's bounds.
    #[verifier::rlimit(40)]
    pub fn scroll_to_current_match(&mut self)
        ensures
            scrolled_to_match(*old(self), *final(self)),
    {
        let m = match &self.diff_search {
            Some(search) => {
                if search.current < search.matches.len() {
                    search.matches[search.current]
                } else {
                    return;
                }
            },
            None => {
                return;
            },
        };
        let (path, rendered, total) = match self.diff_visible_file() {
            Some(file) => (
                file.path.clone(),
                rendered_row_for_match(file, self.diff_mode, m.line),
                total_rendered_rows(file, self.diff_mode),
            ),
            None => {
                return;
            },
        };
        let height: i128 = if self.diff_view_height > 4 {
            self.diff_view_height as i128
        } else {
            4
        };
        let total_i = total as i128;
        let rendered_i = rendered as i128;
        let max_scroll = if total_i - height > 0 {
            total_i - height
        } else {
            0
        };
        let centered = rendered_i - height / 2;
        let c = if centered > 0 {
            centered
        } else {
            0
        };
        let new = if c < max_scroll {
            c
        } else {
            max_scroll
        };
        self.diff_scroll.insert(path, #[verifier::truncate] (new as u16));
    }
}

/// The bytes with ASCII capitals turned into small letters.
pub open spec fn lowered(b: Seq<u8>) -> Seq<u8> {
    b.map_values(|x: u8| if 65 <= x <= 90 { (x + 32) as u8 } else { x })
}

/// What a match is: the needle occurs at `i` byte for byte, or, ignoring
/// case, the bytes there and the needle are equal once ASCII capitals are
/// made small.
pub proof fn lemma_match_is_equal_bytes(h: Seq<u8>, needle: Seq<u8>, i: int)
    ensures
        matches_at(h, needle, i, true) <==> (0 <= i && i + needle.len() <= h.len() && h.subrange(
            i,
            i + needle.len(),
        ) == needle),
        matches_at(h, needle, i, false) <==> (0 <= i && i + needle.len() <= h.len() && lowered(
            h.subrange(i, i + needle.len()),
        ) == lowered(needle)),
{
    if 0 <= i && i + needle.len() <= h.len() {
        let w = h.subrange(i, i + needle.len());
        if matches_at(h, needle, i, true) {
            assert forall|k: int| 0 <= k < needle.len() implies w[k] == needle[k] by {
                assert(byte_match(h[i + k], needle[k], true));
            }
            assert(w =~= needle);
        }
        if w == needle {
            assert forall|k: int| 0 <= k < needle.len() implies byte_match(
                #[trigger] h[i + k],
                needle[k],
                true,
            ) by {
                assert(w[k] == h[i + k]);
            }
        }
        if matches_at(h, needle, i, false) {
            assert forall|k: int| 0 <= k < needle.len() implies lowered(w)[k] == lowered(needle)[k] by {
                assert(byte_match(h[i + k], needle[k], false));
                assert(w[k] == h[i + k]);
            }
            assert(lowered(w) =~= lowered(needle));
        }
        if lowered(w) == lowered(needle) {
            assert forall|k: int| 0 <= k < needle.len() implies byte_match(
                #[trigger] h[i + k],
                needle[k],
                false,
            ) by {
                assert(w[k] == h[i + k]);
                assert(lowered(w)[k] == lowered(needle)[k]);
            }
        }
    }
}

/// Ignoring case, the hits of a needle are those of the needle with its
/// ASCII capitals made small: typing the query in capitals finds the same.
pub proof fn lemma_case_insensitive_ignores_needle_case(hay: Seq<char>, needle: Seq<u8>)
    ensures
        substr_hits(hay, needle, false) == substr_hits(hay, lowered(needle), false),
{
    let h = encode_utf8(hay);
    let ln = lowered(needle);
    assert(lowered(ln) =~= lowered(needle));
    assert forall|i: int| matches_at(h, needle, i, false) == matches_at(h, ln, i, false) by {
        lemma_match_is_equal_bytes(h, needle, i);
        lemma_match_is_equal_bytes(h, ln, i);
    }
    if !(needle.len() == 0 || needle.len() > h.len()) {
        lemma_hits_below_same(h, needle, ln, h.len() - needle.len() + 1);
    }
}

proof fn lemma_hits_below_same(h: Seq<u8>, a: Seq<u8>, b: Seq<u8>, m: int)
    requires
        a.len() == b.len(),
        forall|i: int| matches_at(h, a, i, false) == matches_at(h, b, i, false),
    ensures
        hits_below(h, a, false, m) == hits_below(h, b, false, m),
    decreases m,
{
    if m > 0 {
        lemma_hits_below_same(h, a, b, m - 1);
        assert(matches_at(h, a, m - 1, false) == matches_at(h, b, m - 1, false));
    }
}

} // verus!
