//! A fuzzy-filtered list of strings with a selection.

use crate::app::TextInput;
use crate::sort::{is_perm, stable_sort, stable_sorted_by, TotalPreorder};
use crate::text::str_eq;
use nucleo_matcher::pattern::{CaseMatching, Normalization, Pattern};
use vstd::prelude::*;

verus! {

broadcast use vstd::string::group_string_axioms;

/// The score that nucleo's smart-case fuzzy matcher (default configuration)
/// gives `item` for the query `query`; `None` when the item does not match.
pub uninterp spec fn fuzzy_score_of(query: Seq<char>, item: Seq<char>) -> Option<u32>;

/// Scores `item` against `query` with `nucleo_matcher`: a default-config
/// `Matcher`, `Pattern::parse` with smart case matching and smart
/// normalization, and `Pattern::score`. The contract names the result only;
/// nucleo panics on a haystack of more than `u32::MAX` characters, and sums
/// one `u16` score per query word into a `u32`. nucleo splits the query at
/// spaces not escaped by a backslash and drops words that leave nothing to
/// match, so each word it scores holds at least one of the runs that
/// `word_count` counts, and no two hold the same run: it scores at most
/// `word_count(query)` words, and 65537 * 65535 is exactly `u32::MAX`, so
/// with at most 65537 the sum cannot overflow.
#[verifier::external_body]
fn fuzzy_score(query: &str, item: &str) -> (r: Option<u32>)
    requires
        item@.len() <= u32::MAX,
        word_count(query@) <= 65537,
    ensures
        r == fuzzy_score_of(query@, item@),
{
    let mut matcher = nucleo_matcher::Matcher::new(nucleo_matcher::Config::DEFAULT);
    let pattern = Pattern::parse(query, CaseMatching::Smart, Normalization::Smart);
    let mut buf: Vec<char> = Vec::new();
    pattern.score(nucleo_matcher::Utf32Str::new(item, &mut buf), &mut matcher)
}

/// `a` ranks before `b`: a higher score, or the same score and a lower index.
pub open spec fn ranks_before(scores: Seq<Option<u32>>, a: int, b: int) -> bool {
    let (sa, sb) = (scores[a]->0, scores[b]->0);
    sa > sb || (sa == sb && a < b)
}

/// `r` lists exactly the indices that have a score, best score first and
/// ties in index order (a stable sort by descending score).
pub open spec fn is_ranking(scores: Seq<Option<u32>>, r: Seq<usize>) -> bool {
    &&& forall|k: int| 0 <= k < r.len() ==> (#[trigger] r[k]) < scores.len() && scores[r[k] as int] is Some
    &&& forall|i: int| 0 <= i < scores.len() && (#[trigger] scores[i]) is Some ==> r.contains(i as usize)
    &&& forall|k: int, l: int| 0 <= k < l < r.len() ==> ranks_before(scores, #[trigger] r[k] as int, #[trigger] r[l] as int)
}

/// A scored item: its score and its index in the item list.
#[derive(Clone, Copy)]
pub struct Scored {
    pub score: u32,
    pub index: usize,
}

impl TotalPreorder for Scored {
    open spec fn key_le(self, other: Self) -> bool {
        self.score > other.score || (self.score == other.score && self.index <= other.index)
    }

    fn key_le_exec(&self, other: &Self) -> (r: bool) {
        self.score > other.score || (self.score == other.score && self.index <= other.index)
    }

    proof fn key_le_total(a: Self, b: Self) {
    }

    proof fn key_le_trans(a: Self, b: Self, c: Self) {
    }
}

/// The indices of the scored items, best score first, ties in index order.
pub fn rank_by_score(scores: &Vec<Option<u32>>) -> (r: Vec<usize>)
    ensures
        is_ranking(scores@, r@),
{
    let mut v: Vec<Scored> = Vec::new();
    let mut i: usize = 0;
    while i < scores.len()
        invariant
            i <= scores.len(),
            forall|k: int| 0 <= k < v.len() ==> (#[trigger] v@[k]).index < i && scores@[v@[k].index as int] == Some(v@[k].score),
            forall|a: int, b: int| 0 <= a < b < v.len() ==> (#[trigger] v@[a]).index < (#[trigger] v@[b]).index,
            forall|j: int| 0 <= j < i && (#[trigger] scores@[j]) is Some ==> exists|k: int| 0 <= k < v.len() && v@[k].index == j,
        decreases scores.len() - i,
    {
        match scores[i] {
            Some(s) => {
                let ghost before = v@;
                v.push(Scored { score: s, index: i });
                assert forall|j: int| 0 <= j < i + 1 && (#[trigger] scores@[j]) is Some implies exists|k: int| 0 <= k < v.len() && v@[k].index == j by {
                    if j < i {
                        let k = choose|k: int| 0 <= k < before.len() && before[k].index == j;
                        assert(v@[k] == before[k]);
                    } else {
                        assert(v@[v.len() - 1].index == j);
                    }
                }
            },
            None => {},
        }
        i += 1;
    }
    let ghost unsorted = v@;
    stable_sort(&mut v);
    let ghost sorted = v@;
    let ghost p = choose|p: Seq<int>| stable_sorted_by(unsorted, sorted, p);
    proof {
        assert(stable_sorted_by(unsorted, sorted, p));
    }
    let mut r: Vec<usize> = Vec::new();
    let mut k: usize = 0;
    while k < v.len()
        invariant
            k <= v.len(),
            v@ == sorted,
            r@.len() == k,
            forall|j: int| 0 <= j < k ==> #[trigger] r@[j] == sorted[j].index,
        decreases v.len() - k,
    {
        r.push(v[k].index);
        k += 1;
    }
    proof {
        assert forall|j: int| 0 <= j < r@.len() implies (#[trigger] r@[j]) < scores@.len() && scores@[r@[j] as int] is Some by {
            assert(sorted[j] == unsorted[p[j]]);
        }
        assert forall|i: int| 0 <= i < scores@.len() && (#[trigger] scores@[i]) is Some implies r@.contains(i as usize) by {
            let k = choose|k: int| 0 <= k < unsorted.len() && unsorted[k].index == i;
            crate::git::lemma_perm_onto(p, unsorted.len() as int, k);
            let j = choose|j: int| 0 <= j < p.len() && p[j] == k;
            assert(sorted[j] == unsorted[k]);
            assert(r@[j] == i as usize);
        }
        assert forall|a: int, b: int| 0 <= a < b < r@.len() implies ranks_before(scores@, #[trigger] r@[a] as int, #[trigger] r@[b] as int) by {
            assert(sorted[a].key_le(sorted[b]));
            assert(sorted[a] == unsorted[p[a]]);
            assert(sorted[b] == unsorted[p[b]]);
            assert(p[a] != p[b]);
            if p[a] < p[b] {
                assert(unsorted[p[a]].index < unsorted[p[b]].index);
            } else {
                assert(unsorted[p[b]].index < unsorted[p[a]].index);
            }
        }
    }
    r
}

#[derive(Debug, Clone, Default)]
pub struct Picker {
    pub query: TextInput,
    pub items: Vec<String>,
    pub filtered: Vec<usize>,
    pub selected: usize,
}

/// The items can be scored: none too long for nucleo.
pub open spec fn items_scorable(items: Seq<String>) -> bool {
    forall|i: int| 0 <= i < items.len() ==> (#[trigger] items[i])@.len() <= u32::MAX
}

/// The number of words in `q`: maximal runs of characters other than a
/// space.
pub open spec fn word_count(q: Seq<char>) -> nat
    decreases q.len(),
{
    if q.len() == 0 {
        0
    } else {
        word_count(q.drop_last()) + if q.last() != ' ' && (q.len() == 1 || q[q.len() - 2] == ' ') {
            1nat
        } else {
            0nat
        }
    }
}

/// The query has few enough words to score with (see `fuzzy_score`).
pub open spec fn query_scorable(q: Seq<char>) -> bool {
    word_count(q) <= 65537
}

/// The number of words in `s`.
pub fn count_words(s: &str) -> (r: usize)
    ensures
        r == word_count(s@),
{
    let v = crate::text::chars_of(s);
    let mut count: usize = 0;
    let mut i: usize = 0;
    while i < v.len()
        invariant
            i <= v@.len(),
            v@ == s@,
            count <= i,
            count == word_count(v@.take(i as int)),
        decreases v@.len() - i,
    {
        let ghost t = v@.take(i + 1);
        assert(t.drop_last() =~= v@.take(i as int));
        assert(t.last() == v@[i as int]);
        if v[i] != ' ' && (i == 0 || v[i - 1] == ' ') {
            assert(i > 0 ==> t[t.len() - 2] == v@[i - 1]);
            count = count + 1;
        } else {
            assert(i > 0 ==> t[t.len() - 2] == v@[i - 1]);
        }
        i = i + 1;
    }
    assert(v@.take(i as int) =~= s@);
    count
}

/// The score of each item for the query.
pub open spec fn scores_for(query: Seq<char>, items: Seq<String>) -> Seq<Option<u32>> {
    Seq::new(items.len(), |i: int| fuzzy_score_of(query, items[i]@))
}

/// `0..n`.
pub open spec fn all_indices(n: nat) -> Seq<usize> {
    Seq::new(n, |i: int| i as usize)
}

/// What the filter shows for the picker's query and items: all items in
/// order for an empty query, else the ranking of the fuzzy scores.
pub open spec fn filtered_ok(p: Picker, filtered: Seq<usize>) -> bool {
    if p.query.buffer@.len() == 0 {
        filtered == all_indices(p.items@.len())
    } else {
        is_ranking(scores_for(p.query.buffer@, p.items@), filtered)
    }
}

/// The selection after refiltering: kept when still in range, else the last
/// row (or 0 when nothing matches).
pub open spec fn clamp_selected(selected: usize, n: nat) -> usize {
    if selected >= n {
        if n == 0 {
            0
        } else {
            (n - 1) as usize
        }
    } else {
        selected
    }
}

/// The first index whose item equals `c`.
pub open spec fn first_index_of(items: Seq<String>, c: Seq<char>) -> Option<int> {
    if exists|i: int| 0 <= i < items.len() && (#[trigger] items[i])@ == c {
        Some(choose|i: int| 0 <= i < items.len() && (#[trigger] items[i])@ == c && forall|j: int| 0 <= j < i ==> (#[trigger] items[j])@ != c)
    } else {
        None
    }
}

impl Picker {
    /// A picker over `items` with an empty query: every item, the first selected.
    pub fn new(items: Vec<String>) -> (r: Picker)
        ensures
            r.items@ == items@,
            r.query.buffer@.len() == 0,
            r.query.cursor == 0,
            r.filtered@ == all_indices(items@.len()),
            r.selected == 0,
    {
        let mut p = Picker { query: TextInput::new(""), items, filtered: Vec::new(), selected: 0 };
        proof {
            reveal_strlit("");
        }
        p.refilter();
        p
    }

    /// A picker whose selection lands on `current` when the list has it (the
    /// first such item); otherwise on the first item.
    pub fn with_selected(items: Vec<String>, current: Option<&str>) -> (r: Picker)
        ensures
            r.items@ == items@,
            r.query.buffer@.len() == 0,
            r.filtered@ == all_indices(items@.len()),
            r.selected == match current {
                Some(c) => match first_index_of(items@, c@) {
                    Some(i) => i as usize,
                    None => 0,
                },
                None => 0,
            },
    {
        let mut p = Self::new(items);
        if let Some(c) = current {
            let mut i: usize = 0;
            let n = p.items.len();
            while i < n
                invariant
                    n == p.items@.len(),
                    i <= n,
                    forall|j: int| 0 <= j < i ==> (#[trigger] p.items@[j])@ != c@,
                    p.filtered@ == all_indices(n as nat),
                    p.selected == 0,
                    p.query.buffer@.len() == 0,
                    p.items@ == items@,
                    current == Some(c),
                decreases n - i,
            {
                if str_eq(p.items[i].as_str(), c) {
                    // The filter is the identity, so the item's row is its index.
                    p.selected = i;
                    proof {
                        let ii = i as int;
                        assert(items@[ii]@ == c@);
                        assert(0 <= ii < items@.len() && items@[ii]@ == c@ && forall|j: int| 0 <= j < ii ==> (#[trigger] items@[j])@ != c@);
                        let w = choose|w: int| 0 <= w < items@.len() && (#[trigger] items@[w])@ == c@ && forall|j: int| 0 <= j < w ==> (#[trigger] items@[j])@ != c@;
                        if w < ii {
                            assert(items@[w]@ != c@);
                        } else if w > ii {
                            assert(items@[ii]@ != c@);
                        }
                        assert(first_index_of(items@, c@) == Some(ii));
                    }
                    return p;
                }
                i += 1;
            }
        }
        p
    }

    /// Recomputes the filtered rows from the query and clamps the selection.
    pub fn refilter(&mut self)
        requires
            old(self).query.buffer@.len() > 0 ==> items_scorable(old(self).items@) && query_scorable(old(self).query.buffer@),
        ensures
            final(self).query == old(self).query,
            final(self).items == old(self).items,
            filtered_ok(*final(self), final(self).filtered@),
            final(self).selected == clamp_selected(old(self).selected, final(self).filtered@.len()),
    {
        if self.query.buffer.as_str().is_empty() {
            let mut f: Vec<usize> = Vec::new();
            let mut i: usize = 0;
            while i < self.items.len()
                invariant
                    i <= self.items@.len(),
                    f@ == all_indices(i as nat),
                decreases self.items@.len() - i,
            {
                f.push(i);
                i += 1;
                assert(f@ =~= all_indices(i as nat));
            }
            self.filtered = f;
        } else {
            let mut scores: Vec<Option<u32>> = Vec::new();
            let mut i: usize = 0;
            while i < self.items.len()
                invariant
                    i <= self.items@.len(),
                    items_scorable(self.items@),
                    query_scorable(self.query.buffer@),
                    scores@ == scores_for(self.query.buffer@, self.items@).take(i as int),
                decreases self.items@.len() - i,
            {
                let s = fuzzy_score(self.query.buffer.as_str(), self.items[i].as_str());
                scores.push(s);
                i += 1;
                assert(scores@ =~= scores_for(self.query.buffer@, self.items@).take(i as int));
            }
            assert(scores@ =~= scores_for(self.query.buffer@, self.items@));
            self.filtered = rank_by_score(&scores);
        }
        if self.selected >= self.filtered.len() {
            self.selected = if self.filtered.len() == 0 {
                0
            } else {
                self.filtered.len() - 1
            };
        }
    }

    pub fn move_up(&mut self)
        ensures
            final(self).query == old(self).query,
            final(self).items == old(self).items,
            final(self).filtered == old(self).filtered,
            final(self).selected == (if old(self).selected > 0 {
                old(self).selected - 1
            } else {
                0
            }),
    {
        if self.selected > 0 {
            self.selected -= 1;
        }
    }

    pub fn move_down(&mut self)
        ensures
            final(self).query == old(self).query,
            final(self).items == old(self).items,
            final(self).filtered == old(self).filtered,
            final(self).selected == (if old(self).selected + 1 < old(self).filtered@.len() {
                old(self).selected + 1
            } else {
                old(self).selected as int
            }),
    {
        if self.selected < self.filtered.len() && self.selected + 1 < self.filtered.len() {
            self.selected += 1;
        }
    }

    /// The item on the selected row, if there is one.
    pub fn current(&self) -> (r: Option<&String>)
        ensures
            r == (if self.selected < self.filtered@.len() && self.filtered@[self.selected as int] < self.items@.len() {
                Some(&self.items@[self.filtered@[self.selected as int] as int])
            } else {
                None
            }),
    {
        if self.selected < self.filtered.len() {
            let i = self.filtered[self.selected];
            if i < self.items.len() {
                return Some(&self.items[i]);
            }
        }
        None
    }
}

} // verus!
