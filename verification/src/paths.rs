//! Reading paths and git metadata out of text: the directory that completes
//! the repository field, a worktree's `gitdir:` line, HEAD's branch.

use crate::parse::starts_with;
use crate::text::{
    chars_of, copy_chars, has_prefix_at, lines_chars, lines_of, seq_eq, split_chars, split_on, string_of,
    trim, trim_bounds, views_of,
};
use vstd::prelude::*;

verus! {

broadcast use vstd::string::group_string_axioms;

/// Where the directories that complete the repository field are listed.
#[derive(Debug, Clone, PartialEq, Eq)]
pub enum ParentDir {
    /// The working directory.
    Cwd,
    /// The home directory.
    Home,
    /// The file-system root.
    Root,
    /// A directory below home, by its relative path.
    UnderHome(String),
    /// A directory by its path as typed.
    Dir(String),
}

/// `s` without its trailing slashes.
pub open spec fn trim_slashes(s: Seq<char>) -> Seq<char>
    decreases s.len(),
{
    if s.len() > 0 && s.last() == '/' {
        trim_slashes(s.drop_last())
    } else {
        s
    }
}

/// The buffer up to and including its last `/` (empty without one).
pub open spec fn dir_prefix(buf: Seq<char>) -> Seq<char> {
    match crate::app::completion::last_index_of(buf, '/') {
        Some(i) => buf.take(i + 1),
        None => Seq::empty(),
    }
}

/// The value of a `ParentDir`.
pub ghost enum ParentDirV {
    Cwd,
    Home,
    Root,
    UnderHome(Seq<char>),
    Dir(Seq<char>),
}

impl View for ParentDir {
    type V = ParentDirV;

    open spec fn view(&self) -> ParentDirV {
        match self {
            ParentDir::Cwd => ParentDirV::Cwd,
            ParentDir::Home => ParentDirV::Home,
            ParentDir::Root => ParentDirV::Root,
            ParentDir::UnderHome(p) => ParentDirV::UnderHome(p@),
            ParentDir::Dir(p) => ParentDirV::Dir(p@),
        }
    }
}

/// The directory to list for the field's text `buf`: the working directory
/// for an empty field or one without a slash, home for `~` and `~/`, the
/// root for `/`, else the directory part (relative to home after `~/`)
/// without trailing slashes.
pub open spec fn parent_of(buf: Seq<char>) -> ParentDirV {
    let p = dir_prefix(buf);
    if buf.len() == 0 {
        ParentDirV::Cwd
    } else if buf == seq!['~'] {
        ParentDirV::Home
    } else if p.len() == 0 {
        ParentDirV::Cwd
    } else if p == seq!['/'] {
        ParentDirV::Root
    } else if p == seq!['~', '/'] {
        ParentDirV::Home
    } else if starts_with(p, seq!['~', '/']) {
        ParentDirV::UnderHome(trim_slashes(p.skip(2)))
    } else {
        ParentDirV::Dir(trim_slashes(p))
    }
}

fn trim_slashes_end(v: &Vec<char>, lo: usize, hi: usize) -> (r: usize)
    requires
        lo <= hi <= v.len(),
    ensures
        lo <= r <= hi,
        v@.subrange(lo as int, r as int) == trim_slashes(v@.subrange(lo as int, hi as int)),
{
    let mut e = hi;
    while e > lo && v[e - 1] == '/'
        invariant
            lo <= e <= hi <= v.len(),
            trim_slashes(v@.subrange(lo as int, hi as int)) == trim_slashes(v@.subrange(lo as int, e as int)),
        decreases e,
    {
        assert(v@.subrange(lo as int, e as int).drop_last() =~= v@.subrange(lo as int, e - 1));
        e -= 1;
    }
    if e > lo {
        assert(v@.subrange(lo as int, e as int).last() == v@[e - 1]);
    }
    e
}

/// The directory whose subdirectories complete the field's text `buf`.
pub fn completion_parent(buf: &str) -> (r: ParentDir)
    ensures
        r@ == parent_of(buf@),
{
    let v = chars_of(buf);
    if v.len() == 0 {
        return ParentDir::Cwd;
    }
    if v.len() == 1 && v[0] == '~' {
        assert(v@ =~= seq!['~']);
        return ParentDir::Home;
    }
    assert(v@ != seq!['~']) by {
        if v@ == seq!['~'] {
            assert(v@.len() == 1 && v@[0] == '~');
        }
    }
    let end = match crate::app::completion::find_last(&v, '/') {
        Some(i) => i + 1,
        None => 0,
    };
    assert(v@.take(end as int) == dir_prefix(v@));
    if end == 0 {
        assert(dir_prefix(v@).len() == 0);
        return ParentDir::Cwd;
    }
    if end == 1 && v[0] == '/' {
        assert(v@.take(1) =~= seq!['/']);
        return ParentDir::Root;
    }
    assert(v@.take(end as int) != seq!['/']) by {
        if v@.take(end as int) == seq!['/'] {
            assert(v@.take(end as int).len() == 1 && v@.take(end as int)[0] == '/');
        }
    }
    if end == 2 && v[0] == '~' && v[1] == '/' {
        assert(v@.take(2) =~= seq!['~', '/']);
        return ParentDir::Home;
    }
    assert(v@.take(end as int) != seq!['~', '/']) by {
        if v@.take(end as int) == seq!['~', '/'] {
            assert(v@.take(end as int)[0] == '~' && v@.take(end as int)[1] == '/');
        }
    }
    let under_home = end >= 2 && v[0] == '~' && v[1] == '/';
    assert(under_home == starts_with(v@.take(end as int), seq!['~', '/'])) by {
        if end >= 2 {
            assert(v@.take(end as int).take(2) =~= seq![v@[0], v@[1]]);
        }
    }
    if under_home && end >= 2 {
        let e = trim_slashes_end(&v, 2, end);
        let r = string_of(&v, 2, e);
        assert(v@.subrange(2, end as int) =~= v@.take(end as int).skip(2));
        return ParentDir::UnderHome(r);
    }
    let e = trim_slashes_end(&v, 0, end);
    let r = string_of(&v, 0, e);
    assert(v@.subrange(0, end as int) =~= v@.take(end as int));
    ParentDir::Dir(r)
}

/// The path after `gitdir: ` on the first line that has it, trimmed.
pub open spec fn gitdir_in(lines: Seq<Seq<char>>) -> Option<Seq<char>>
    decreases lines.len(),
{
    if lines.len() == 0 {
        None
    } else if starts_with(lines[0], gitdir_prefix()) {
        Some(trim(lines[0].skip(8)))
    } else {
        gitdir_in(lines.drop_first())
    }
}

pub open spec fn gitdir_prefix() -> Seq<char> {
    seq!['g', 'i', 't', 'd', 'i', 'r', ':', ' ']
}

pub open spec fn heads_prefix() -> Seq<char> {
    seq!['r', 'e', 'f', ':', ' ', 'r', 'e', 'f', 's', '/', 'h', 'e', 'a', 'd', 's', '/']
}

/// The branch a HEAD file names: its trimmed text after `ref: refs/heads/`.
pub open spec fn head_branch_in(txt: Seq<char>) -> Option<Seq<char>> {
    let t = trim(txt);
    if starts_with(t, heads_prefix()) {
        Some(t.skip(16))
    } else {
        None
    }
}

/// The git directory a linked worktree's `.git` file points at.
pub fn gitdir_of(content: &str) -> (r: Option<String>)
    ensures
        match r {
            Some(s) => gitdir_in(lines_of(content@)) == Some(s@),
            None => gitdir_in(lines_of(content@)) is None,
        },
{
    let v = chars_of(content);
    let lines = lines_chars(&v, 0, v.len());
    assert(v@.subrange(0, v@.len() as int) =~= content@);
    let ghost ls = views_of(lines@);
    let p: [char; 8] = ['g', 'i', 't', 'd', 'i', 'r', ':', ' '];
    assert(p@ =~= gitdir_prefix());
    let mut i: usize = 0;
    assert(ls.skip(0) =~= ls);
    while i < lines.len()
        invariant
            i <= lines@.len(),
            ls == views_of(lines@),
            ls == lines_of(content@),
            p@ == gitdir_prefix(),
            gitdir_in(ls) == gitdir_in(ls.skip(i as int)),
        decreases lines@.len() - i,
    {
        assert(ls.skip(i as int).drop_first() =~= ls.skip(i + 1));
        assert(ls.skip(i as int)[0] == lines@[i as int]@);
        let line = &lines[i];
        if has_prefix_at(line, 0, &p) {
            assert(line@.subrange(0, 8) =~= line@.take(8));
            let (a, b) = trim_bounds(line, 8, line.len());
            assert(line@.subrange(8, line@.len() as int) =~= line@.skip(8));
            return Some(string_of(line, a, b));
        }
        assert(!starts_with(line@, gitdir_prefix())) by {
            if starts_with(line@, gitdir_prefix()) {
                assert(line@.subrange(0, 8) =~= line@.take(8));
            }
        }
        i += 1;
    }
    assert(ls.skip(i as int) =~= Seq::<Seq<char>>::empty());
    None
}

/// The branch HEAD names, if it names one.
pub fn head_branch_of(txt: &str) -> (r: Option<String>)
    ensures
        match r {
            Some(s) => head_branch_in(txt@) == Some(s@),
            None => head_branch_in(txt@) is None,
        },
{
    let v = chars_of(txt);
    let (a, b) = trim_bounds(&v, 0, v.len());
    assert(v@.subrange(0, v@.len() as int) =~= txt@);
    let t = string_of(&v, a, b);
    let tv = chars_of(t.as_str());
    let p: [char; 16] = ['r', 'e', 'f', ':', ' ', 'r', 'e', 'f', 's', '/', 'h', 'e', 'a', 'd', 's', '/'];
    assert(p@ =~= heads_prefix());
    if has_prefix_at(&tv, 0, &p) {
        assert(tv@.subrange(0, 16) =~= tv@.take(16));
        let r = string_of(&tv, 16, tv.len());
        assert(tv@.subrange(16, tv@.len() as int) =~= tv@.skip(16));
        Some(r)
    } else {
        assert(!starts_with(tv@, heads_prefix())) by {
            if starts_with(tv@, heads_prefix()) {
                assert(tv@.subrange(0, 16) =~= tv@.take(16));
            }
        }
        None
    }
}

/// Whether `git rev-parse --is-inside-work-tree` answered yes.
pub fn inside_work_tree(out: &str) -> (r: bool)
    ensures
        r == (trim(out@) == seq!['t', 'r', 'u', 'e']),
{
    let v = chars_of(out);
    let (a, b) = trim_bounds(&v, 0, v.len());
    assert(v@.subrange(0, v@.len() as int) =~= out@);
    let t: [char; 4] = ['t', 'r', 'u', 'e'];
    assert(t@ =~= seq!['t', 'r', 'u', 'e']);
    if b - a != 4 {
        return false;
    }
    let r = has_prefix_at(&v, a, &t);
    r
}


/// The path is absolute.
pub open spec fn rooted(s: Seq<char>) -> bool {
    s.len() > 0 && s[0] == '/'
}

/// Whether piece `i` of a path's `/`-separated pieces is a component: empty
/// pieces (from repeated or trailing slashes) are not, nor `.` anywhere but
/// at the start of a relative path.
pub open spec fn is_component(p: Seq<char>, i: int, is_rooted: bool) -> bool {
    p.len() > 0 && (p != seq!['.'] || (i == 0 && !is_rooted))
}

/// The components among the first `n` pieces.
pub open spec fn components_upto(pieces: Seq<Seq<char>>, is_rooted: bool, n: int) -> Seq<Seq<char>>
    decreases n,
{
    if n <= 0 {
        Seq::empty()
    } else {
        let prev = components_upto(pieces, is_rooted, n - 1);
        if is_component(pieces[n - 1], n - 1, is_rooted) {
            prev.push(pieces[n - 1])
        } else {
            prev
        }
    }
}

/// The components of a path, as `Path::components` yields them after the
/// root: repeated and trailing slashes and inner `.` dropped.
pub open spec fn path_components(s: Seq<char>) -> Seq<Seq<char>> {
    let pieces = split_on(s, '/');
    components_upto(pieces, rooted(s), pieces.len() as int)
}

/// Two paths name the same path as `Path`'s `==` compares them: both
/// absolute or both relative, with the same components.
pub open spec fn same_path_spec(a: Seq<char>, b: Seq<char>) -> bool {
    rooted(a) == rooted(b) && path_components(a) == path_components(b)
}

fn components(s: &str) -> (r: Vec<Vec<char>>)
    ensures
        views_of(r@) == path_components(s@),
{
    let v = chars_of(s);
    let is_rooted = v.len() > 0 && v[0] == '/';
    let pieces = split_chars(&v, 0, v.len(), '/');
    assert(v@.subrange(0, v@.len() as int) =~= s@);
    let ghost ps = views_of(pieces@);
    let mut out: Vec<Vec<char>> = Vec::new();
    let mut i: usize = 0;
    while i < pieces.len()
        invariant
            i <= pieces@.len(),
            ps == views_of(pieces@),
            ps == split_on(s@, '/'),
            is_rooted == rooted(s@),
            views_of(out@) == components_upto(ps, is_rooted, i as int),
        decreases pieces@.len() - i,
    {
        let p = &pieces[i];
        let keep = p.len() > 0 && (!(p.len() == 1 && p[0] == '.') || (i == 0 && !is_rooted));
        assert(keep == is_component(ps[i as int], i as int, is_rooted)) by {
            assert(ps[i as int] == p@);
            if p@.len() == 1 && p@[0] == '.' {
                assert(p@ =~= seq!['.']);
            }
            if p@ == seq!['.'] {
                assert(p@.len() == 1 && p@[0] == '.');
            }
        }
        if keep {
            let ghost before = out@;
            out.push(copy_chars(p, 0, p.len()));
            assert(p@.subrange(0, p@.len() as int) =~= p@);
            assert(views_of(out@) =~= views_of(before).push(p@));
        }
        i += 1;
    }
    out
}

/// Whether two paths name the same path, compared by components.
pub fn same_path(a: &str, b: &str) -> (r: bool)
    ensures
        r == same_path_spec(a@, b@),
{
    let va = chars_of(a);
    let vb = chars_of(b);
    let ra = va.len() > 0 && va[0] == '/';
    let rb = vb.len() > 0 && vb[0] == '/';
    assert(ra == rooted(a@) && rb == rooted(b@));
    if ra != rb {
        return false;
    }
    let ca = components(a);
    let cb = components(b);
    if ca.len() != cb.len() {
        assert(views_of(ca@).len() != views_of(cb@).len());
        return false;
    }
    let mut i: usize = 0;
    while i < ca.len()
        invariant
            i <= ca@.len(),
            ca@.len() == cb@.len(),
            views_of(ca@) == path_components(a@),
            views_of(cb@) == path_components(b@),
            rooted(a@) == rooted(b@),
            forall|k: int| 0 <= k < i ==> (#[trigger] ca@[k])@ == cb@[k]@,
        decreases ca@.len() - i,
    {
        if !seq_eq(&ca[i], &cb[i]) {
            assert(views_of(ca@)[i as int] != views_of(cb@)[i as int]);
            assert(views_of(ca@) != views_of(cb@));
            return false;
        }
        i += 1;
    }
    assert(views_of(ca@) =~= views_of(cb@));
    true
}

} // verus!
