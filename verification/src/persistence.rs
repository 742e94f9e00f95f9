//! The reviewed-files store: per `<repo>::<base>::<compare>` key, the set of
//! files marked reviewed, together with a snapshot of the file list (the
//! SHA-256 of the sorted paths). A stored set is handed back only while the
//! file list still has the same snapshot. Reading and writing the state file
//! is left to the caller; this module holds the state and its rules.

use crate::collections::{StrMap, StrSet};
use crate::git::strings_view;
use crate::model::{paths_of, FileChange};
use crate::sort::{stable_sort, stable_sorted_by, TotalPreorder};
use crate::text::{append_chars, lemma_seq_lt_irrefl, lemma_seq_lt_total, lemma_seq_lt_trans, seq_lt};
use sha2::{Digest, Sha256};
use vstd::prelude::*;
use vstd::relations::{sorted_by, total_ordering};
use vstd::utf8::encode_utf8;

verus! {

broadcast use vstd::string::group_string_axioms;

/// Version of the state-file layout written by this library.
pub const SCHEMA_VERSION: u32 = 1;

/// What is stored for one key.
#[derive(Debug)]
pub struct ReviewEntry {
    pub snapshot: String,
    pub reviewed_files: Vec<String>,
}

impl Default for ReviewEntry {
    fn default() -> (r: ReviewEntry)
        ensures
            r.snapshot@ == Seq::<char>::empty(),
            r.reviewed_files@ == Seq::<String>::empty(),
    {
        ReviewEntry { snapshot: String::new(), reviewed_files: Vec::new() }
    }
}

/// The whole persisted state.
#[derive(Debug)]
pub struct StateFile {
    pub version: u32,
    pub entries: StrMap<ReviewEntry>,
}

impl Default for StateFile {
    fn default() -> (r: StateFile)
        ensures
            r.version == SCHEMA_VERSION,
            r.entries@ == Map::<Seq<char>, ReviewEntry>::empty(),
    {
        StateFile { version: SCHEMA_VERSION, entries: StrMap::new() }
    }
}

/// The state together with the path of the file it is kept in.
#[derive(Debug)]
pub struct Store {
    pub path: String,
    pub state: StateFile,
}

/// A store as opened at start-up; `recovered_backup` names the file an
/// unreadable state file was moved to before a fresh state was started.
#[derive(Debug)]
pub struct OpenResult {
    pub store: Store,
    pub recovered_backup: Option<String>,
}

/// The lowercase hex SHA-256 digest of `data`.
pub uninterp spec fn sha256_hex_of(data: Seq<u8>) -> Seq<char>;

/// Calls `sha2::Sha256::digest` on `data` and formats the digest with
/// `{:x}`; the contract names the result and claims nothing more of it.
#[verifier::external_body]
fn sha256_hex(data: &[u8]) -> (r: String)
    ensures
        r@ == sha256_hex_of(data@),
{
    format!("{:x}", Sha256::digest(data))
}

/// The order paths are sorted in: character by character.
pub open spec fn path_order() -> spec_fn(Seq<char>, Seq<char>) -> bool {
    |a: Seq<char>, b: Seq<char>| !seq_lt(b, a)
}

/// The bytes hashed for a sorted list of paths: each path's UTF-8 bytes
/// followed by a zero byte.
pub open spec fn snapshot_bytes(paths: Seq<Seq<char>>) -> Seq<u8>
    decreases paths.len(),
{
    if paths.len() == 0 {
        Seq::empty()
    } else {
        snapshot_bytes(paths.drop_last()) + encode_utf8(paths.last()) + seq![0u8]
    }
}

/// The paths of `files`, sorted.
pub open spec fn sorted_paths(files: Seq<FileChange>) -> Seq<Seq<char>> {
    paths_of(files).sort_by(path_order())
}

/// The snapshot of a file list: the hex SHA-256 of its sorted paths.
pub open spec fn snapshot_of(files: Seq<FileChange>) -> Seq<char> {
    sha256_hex_of(snapshot_bytes(sorted_paths(files)))
}

/// The key a review is stored under: `<repo>::<base>::<compare>`.
pub open spec fn key_of(repo: Seq<char>, base: Seq<char>, compare: Seq<char>) -> Seq<char> {
    repo + seq![':', ':'] + base + seq![':', ':'] + compare
}

/// The set that loading gives for `key` when the files have snapshot `snap`.
pub open spec fn loaded_set(
    entries: Map<Seq<char>, ReviewEntry>,
    key: Seq<char>,
    snap: Seq<char>,
) -> Set<Seq<char>> {
    if entries.contains_key(key) && entries[key].snapshot@ == snap {
        strings_view(entries[key].reviewed_files@).to_set()
    } else {
        Set::empty()
    }
}

/// `after` is `before` with the entry for `key` replaced by one holding the
/// snapshot `snap` and the set `reviewed`, each path listed once.
pub open spec fn saved_entry(
    before: Map<Seq<char>, ReviewEntry>,
    after: Map<Seq<char>, ReviewEntry>,
    key: Seq<char>,
    snap: Seq<char>,
    reviewed: Set<Seq<char>>,
) -> bool {
    &&& after == before.insert(key, after[key])
    &&& after[key].snapshot@ == snap
    &&& strings_view(after[key].reviewed_files@).to_set() == reviewed
    &&& strings_view(after[key].reviewed_files@).no_duplicates()
}

/// The path order is a total order.
pub proof fn lemma_path_order_total()
    ensures
        total_ordering(path_order()),
{
    let r = path_order();
    assert forall|a: Seq<char>| #[trigger] r(a, a) by {
        lemma_seq_lt_irrefl(a);
    }
    assert forall|a: Seq<char>, b: Seq<char>| #[trigger] r(a, b) && #[trigger] r(b, a) implies a
        == b by {
        lemma_seq_lt_total(a, b);
    }
    assert forall|a: Seq<char>, b: Seq<char>, c: Seq<char>| #[trigger] r(a, b) && #[trigger] r(
        b,
        c,
    ) implies r(a, c) by {
        lemma_seq_lt_total(a, b);
        lemma_seq_lt_total(b, c);
        if seq_lt(c, a) {
            if seq_lt(a, b) {
                lemma_seq_lt_trans(c, a, b);
            } else {
                assert(a == b);
            }
        }
    }
    assert forall|a: Seq<char>, b: Seq<char>| #[trigger] r(a, b) || #[trigger] r(b, a) by {
        if seq_lt(a, b) && seq_lt(b, a) {
            lemma_seq_lt_trans(a, b, a);
            lemma_seq_lt_irrefl(a);
        }
    }
}

/// Equal multisets of strings have equal multisets of their characters.
proof fn lemma_views_multiset(a: Seq<String>, b: Seq<String>)
    requires
        a.to_multiset() == b.to_multiset(),
    ensures
        strings_view(a).to_multiset() == strings_view(b).to_multiset(),
    decreases a.len(),
{
    broadcast use vstd::seq_lib::group_to_multiset_ensures;
    broadcast use vstd::multiset::group_multiset_axioms;

    if a.len() == 0 {
        assert(b.len() == 0) by {
            vstd::seq_lib::to_multiset_len(a);
            vstd::seq_lib::to_multiset_len(b);
        }
        assert(strings_view(a) =~= strings_view(b));
    } else {
        let x = a.last();
        let a2 = a.drop_last();
        assert(a =~= a2.push(x));
        assert(a.to_multiset().count(x) > 0) by {
            assert(a.contains(x)) by {
                assert(a[a.len() - 1] == x);
            }
        }
        assert(b.contains(x));
        let j = choose|j: int| 0 <= j < b.len() && b[j] == x;
        let b2 = b.remove(j);
        assert(a2.to_multiset() =~= b2.to_multiset());
        lemma_views_multiset(a2, b2);
        assert(strings_view(a) =~= strings_view(a2).push(x@));
        assert(strings_view(b2) =~= strings_view(b).remove(j));
        assert(strings_view(b)[j] == x@);
        assert(strings_view(b).to_multiset().count(x@) > 0) by {
            assert(strings_view(b).contains(x@));
        }
        assert(strings_view(b).to_multiset() =~= strings_view(b2).to_multiset().insert(x@));
    }
}

/// The key a review is stored under: `<repo>::<base>::<compare>`.
pub fn make_key(repo: &str, base: &str, compare: &str) -> (r: String)
    ensures
        r@ == key_of(repo@, base@, compare@),
{
    let mut r = String::new();
    append_chars(&mut r, repo);
    append_chars(&mut r, "::");
    append_chars(&mut r, base);
    append_chars(&mut r, "::");
    append_chars(&mut r, compare);
    proof {
        reveal_strlit("::");
        assert(r@ =~= key_of(repo@, base@, compare@));
    }
    r
}

/// The snapshot of a file list: the lowercase hex SHA-256 of the sorted
/// paths, each followed by a zero byte. Independent of the files' order.
pub fn snapshot_for(files: &[FileChange]) -> (r: String)
    ensures
        r@ == snapshot_of(files@),
{
    let mut paths: Vec<String> = Vec::new();
    let mut i: usize = 0;
    while i < files.len()
        invariant
            i <= files@.len(),
            strings_view(paths@) == paths_of(files@).take(i as int),
        decreases files@.len() - i,
    {
        let ghost before = paths@;
        paths.push(files[i].path.clone());
        assert(strings_view(paths@) =~= strings_view(before).push(files@[i as int].path@));
        i += 1;
        assert(strings_view(paths@) =~= paths_of(files@).take(i as int));
    }
    assert(paths_of(files@).take(i as int) =~= paths_of(files@));
    let ghost unsorted = paths@;
    stable_sort(&mut paths);
    proof {
        let sv = strings_view(paths@);
        let p = choose|p: Seq<int>| stable_sorted_by(unsorted, paths@, p);
        assert(sorted_by(sv, path_order())) by {
            assert forall|a: int, b: int| 0 <= a < b < sv.len() implies #[trigger] (path_order())(
                sv[a],
                sv[b],
            ) by {
                assert(paths@[a].key_le(paths@[b]));
            }
        }
        lemma_views_multiset(paths@, unsorted);
        lemma_path_order_total();
        paths_of(files@).lemma_sort_by_ensures(path_order());
        vstd::seq_lib::lemma_sorted_unique(sv, sorted_paths(files@), path_order());
    }
    let mut bytes: Vec<u8> = Vec::new();
    let mut k: usize = 0;
    while k < paths.len()
        invariant
            k <= paths@.len(),
            bytes@ == snapshot_bytes(strings_view(paths@).take(k as int)),
        decreases paths@.len() - k,
    {
        let b = paths[k].as_str().as_bytes();
        let ghost start = bytes@;
        let mut m: usize = 0;
        while m < b.len()
            invariant
                m <= b@.len(),
                bytes@ == start + b@.take(m as int),
            decreases b@.len() - m,
        {
            bytes.push(b[m]);
            m += 1;
            assert(bytes@ =~= start + b@.take(m as int));
        }
        bytes.push(0u8);
        proof {
            let sv = strings_view(paths@);
            assert(b@.take(m as int) =~= b@);
            assert(sv.take(k + 1).drop_last() =~= sv.take(k as int));
            assert(sv.take(k + 1).last() == paths@[k as int]@);
            assert(bytes@ =~= snapshot_bytes(sv.take(k + 1)));
        }
        k += 1;
    }
    assert(strings_view(paths@).take(k as int) =~= strings_view(paths@));
    sha256_hex(bytes.as_slice())
}

/// A copy of a list of strings.
pub fn copy_strings(v: &Vec<String>) -> (r: Vec<String>)
    ensures
        strings_view(r@) == strings_view(v@),
{
    let mut r: Vec<String> = Vec::new();
    let mut i: usize = 0;
    while i < v.len()
        invariant
            i <= v@.len(),
            strings_view(r@) == strings_view(v@).take(i as int),
        decreases v@.len() - i,
    {
        let ghost before = r@;
        r.push(v[i].clone());
        assert(strings_view(r@) =~= strings_view(before).push(v@[i as int]@));
        i += 1;
        assert(strings_view(r@) =~= strings_view(v@).take(i as int));
    }
    assert(strings_view(v@).take(i as int) =~= strings_view(v@));
    r
}

impl Store {
    /// A store over a fresh, empty state kept at `path`.
    pub fn fresh(path: String) -> (r: Store)
        ensures
            r.path@ == path@,
            r.state.version == SCHEMA_VERSION,
            r.state.entries@ == Map::<Seq<char>, ReviewEntry>::empty(),
    {
        Store { path, state: StateFile::default() }
    }

    /// The reviewed set stored for `<repo>::<base>::<compare>`, provided the
    /// stored snapshot matches that of `files`; otherwise the empty set.
    pub fn load_reviewed(&self, repo: &str, base: &str, compare: &str, files: &[FileChange]) -> (r:
        StrSet)
        ensures
            r@ == loaded_set(
                self.state.entries@,
                key_of(repo@, base@, compare@),
                snapshot_of(files@),
            ),
    {
        let key = make_key(repo, base, compare);
        let snapshot = snapshot_for(files);
        match self.state.entries.get(key.as_str()) {
            Some(entry) => {
                if crate::text::str_eq(entry.snapshot.as_str(), snapshot.as_str()) {
                    StrSet::from_vec(copy_strings(&entry.reviewed_files))
                } else {
                    StrSet::new()
                }
            },
            None => StrSet::new(),
        }
    }

    /// Records `reviewed` under `<repo>::<base>::<compare>` with the snapshot
    /// of `files`, replacing any earlier entry for that key. Writing the
    /// state out is the caller's next step.
    pub fn save_reviewed(
        &mut self,
        repo: &str,
        base: &str,
        compare: &str,
        files: &[FileChange],
        reviewed: &StrSet,
    )
        ensures
            saved_entry(
                old(self).state.entries@,
                final(self).state.entries@,
                key_of(repo@, base@, compare@),
                snapshot_of(files@),
                reviewed@,
            ),
            final(self).state.version == old(self).state.version,
            final(self).path == old(self).path,
    {
        let key = make_key(repo, base, compare);
        let snapshot = snapshot_for(files);
        let list = reviewed.to_vec();
        let entry = ReviewEntry { snapshot, reviewed_files: list };
        let ghost e = entry;
        self.state.entries.insert(key, entry);
        assert(self.state.entries@[key_of(repo@, base@, compare@)] == e);
    }
}

/// Loading right after saving, under the same key and for a file list with
/// the same paths in any order, gives back exactly the saved set.
pub proof fn lemma_load_after_save(
    before: Map<Seq<char>, ReviewEntry>,
    after: Map<Seq<char>, ReviewEntry>,
    key: Seq<char>,
    saved_files: Seq<FileChange>,
    loaded_files: Seq<FileChange>,
    reviewed: Set<Seq<char>>,
)
    requires
        saved_entry(before, after, key, snapshot_of(saved_files), reviewed),
        paths_of(saved_files).to_multiset() == paths_of(loaded_files).to_multiset(),
    ensures
        loaded_set(after, key, snapshot_of(loaded_files)) == reviewed,
{
    lemma_snapshot_order_invariant(saved_files, loaded_files);
}

/// Saving under one key leaves what every other key loads unchanged.
pub proof fn lemma_save_keeps_other_keys(
    before: Map<Seq<char>, ReviewEntry>,
    after: Map<Seq<char>, ReviewEntry>,
    key: Seq<char>,
    snap: Seq<char>,
    reviewed: Set<Seq<char>>,
    other: Seq<char>,
    other_snap: Seq<char>,
)
    requires
        saved_entry(before, after, key, snap, reviewed),
        other != key,
    ensures
        loaded_set(after, other, other_snap) == loaded_set(before, other, other_snap),
{
}

/// The snapshot depends only on which paths occur, not on their order.
pub proof fn lemma_snapshot_order_invariant(a: Seq<FileChange>, b: Seq<FileChange>)
    requires
        paths_of(a).to_multiset() == paths_of(b).to_multiset(),
    ensures
        snapshot_of(a) == snapshot_of(b),
{
    lemma_path_order_total();
    paths_of(a).lemma_sort_by_ensures(path_order());
    paths_of(b).lemma_sort_by_ensures(path_order());
    vstd::seq_lib::lemma_sorted_unique(sorted_paths(a), sorted_paths(b), path_order());
}

} // verus!
