//! Small string-keyed collections with exact mathematical views: a set of
//! strings and a map from strings to values, each kept free of duplicate
//! keys, in insertion order.

use crate::text::str_eq;
use vstd::prelude::*;

verus! {

broadcast use vstd::string::group_string_axioms;

/// A set of strings.
#[derive(Debug)]
pub struct StrSet {
    items: Vec<String>,
}

pub open spec fn distinct_strings(v: Seq<String>) -> bool {
    forall|i: int, j: int| 0 <= i < j < v.len() ==> (#[trigger] v[i])@ != (#[trigger] v[j])@
}

impl View for StrSet {
    type V = Set<Seq<char>>;

    closed spec fn view(&self) -> Set<Seq<char>> {
        self.items@.map_values(|s: String| s@).to_set()
    }
}

impl Default for StrSet {
    fn default() -> (r: StrSet)
        ensures
            r@ == Set::<Seq<char>>::empty(),
    {
        StrSet::new()
    }
}

impl StrSet {
    #[verifier::type_invariant]
    spec fn inv(self) -> bool {
        distinct_strings(self.items@)
    }

    /// The members, in insertion order.
    pub closed spec fn members(self) -> Seq<Seq<char>> {
        self.items@.map_values(|s: String| s@)
    }

    proof fn lemma_members(self)
        requires
            distinct_strings(self.items@),
        ensures
            self.members().to_set() == self@,
            self.members().no_duplicates(),
            self@.finite(),
            self@.len() == self.members().len(),
    {
        let m = self.members();
        assert forall|i: int, j: int| 0 <= i < m.len() && 0 <= j < m.len() && i != j implies m[i]
            != m[j] by {
            if i < j {
                assert(m[i] == self.items@[i]@);
            } else {
                assert(m[j] == self.items@[j]@);
            }
        }
        m.unique_seq_to_set();
        vstd::seq_lib::seq_to_set_is_finite(m);
    }

    pub fn new() -> (r: StrSet)
        ensures
            r@ == Set::<Seq<char>>::empty(),
    {
        let r = StrSet { items: Vec::new() };
        assert(r.items@.map_values(|s: String| s@).to_set() =~= Set::<Seq<char>>::empty());
        r
    }

    fn find(&self, s: &str) -> (r: Option<usize>)
        ensures
            match r {
                Some(i) => i < self.items@.len() && self.items@[i as int]@ == s@,
                None => forall|i: int| 0 <= i < self.items@.len() ==> (#[trigger] self.items@[i])@ != s@,
            },
    {
        let mut i: usize = 0;
        while i < self.items.len()
            invariant
                i <= self.items@.len(),
                forall|k: int| 0 <= k < i ==> (#[trigger] self.items@[k])@ != s@,
            decreases self.items@.len() - i,
        {
            if str_eq(self.items[i].as_str(), s) {
                return Some(i);
            }
            i += 1;
        }
        None
    }

    pub fn contains(&self, s: &str) -> (r: bool)
        ensures
            r == self@.contains(s@),
    {
        let found = self.find(s);
        proof {
            let m = self.items@.map_values(|x: String| x@);
            if self@.contains(s@) {
                let k = choose|k: int| 0 <= k < m.len() && m[k] == s@;
                assert(self.items@[k]@ == s@);
            }
            match found {
                Some(k) => {
                    assert(m[k as int] == s@);
                },
                None => {},
            }
        }
        found.is_some()
    }

    /// Adds `s`; returns whether it was new.
    pub fn insert(&mut self, s: String) -> (added: bool)
        ensures
            final(self)@ == old(self)@.insert(s@),
            added == !old(self)@.contains(s@),
    {
        let present = self.contains(s.as_str());
        if !present {
            proof {
                use_type_invariant(&*self);
            }
            let ghost old_items = self.items@;
            let ghost sv = s@;
            let mut items: Vec<String> = Vec::new();
            std::mem::swap(&mut items, &mut self.items);
            items.push(s);
            assert forall|i: int, j: int| 0 <= i < j < items@.len() implies (#[trigger] items@[i])@
                != (#[trigger] items@[j])@ by {
                if j == items@.len() - 1 {
                    assert(old_items.map_values(|x: String| x@)[i] == items@[i]@);
                }
            }
            self.items = items;
            proof {
                assert(self.items@.map_values(|x: String| x@) =~= old_items.map_values(
                    |x: String| x@,
                ).push(sv));
                crate::git::lemma_push_to_set(old_items.map_values(|x: String| x@), sv);
            }
        } else {
            assert(old(self)@.insert(s@) =~= old(self)@);
        }
        !present
    }

    /// Removes `s`; returns whether it was present.
    pub fn remove(&mut self, s: &str) -> (removed: bool)
        ensures
            final(self)@ == old(self)@.remove(s@),
            removed == old(self)@.contains(s@),
    {
        proof {
            use_type_invariant(&*self);
        }
        let present = self.contains(s);
        match self.find(s) {
            Some(i) => {
                let ghost old_items = self.items@;
                let mut items: Vec<String> = Vec::new();
            std::mem::swap(&mut items, &mut self.items);
                items.remove(i);
                assert forall|a: int, b: int| 0 <= a < b < items@.len() implies (#[trigger] items@[a])@
                    != (#[trigger] items@[b])@ by {
                    let oa = if a < i { a } else { a + 1 };
                    let ob = if b < i { b } else { b + 1 };
                    assert(items@[a] == old_items[oa]);
                    assert(items@[b] == old_items[ob]);
                }
                self.items = items;
                proof {
                    let om = old_items.map_values(|x: String| x@);
                    let nm = self.items@.map_values(|x: String| x@);
                    assert forall|x: Seq<char>| nm.to_set().contains(x) <==> om.to_set().remove(s@).contains(x) by {
                        if nm.to_set().contains(x) {
                            let k = choose|k: int| 0 <= k < nm.len() && nm[k] == x;
                            let ok = if k < i { k } else { k + 1 };
                            assert(om[ok] == x);
                            if x == s@ {
                                assert(old_items[ok]@ == old_items[i as int]@);
                                if ok < i {
                                    assert(old_items[ok]@ != old_items[i as int]@);
                                } else {
                                    assert(old_items[i as int]@ != old_items[ok]@);
                                }
                            }
                        }
                        if om.to_set().remove(s@).contains(x) {
                            let k = choose|k: int| 0 <= k < om.len() && om[k] == x;
                            assert(k != i);
                            let nk = if k < i { k } else { k - 1 };
                            assert(nm[nk] == x);
                        }
                    }
                    assert(nm.to_set() =~= om.to_set().remove(s@));
                }
            },
            None => {
                assert(old(self)@.remove(s@) =~= old(self)@);
            },
        }
        present
    }

    pub fn clear(&mut self)
        ensures
            final(self)@ == Set::<Seq<char>>::empty(),
    {
        self.items = Vec::new();
        assert(self.items@.map_values(|s: String| s@).to_set() =~= Set::<Seq<char>>::empty());
    }

    pub fn is_empty(&self) -> (r: bool)
        ensures
            r == (self@ == Set::<Seq<char>>::empty()),
    {
        proof {
            use_type_invariant(self);
            self.lemma_members();
            if self@ == Set::<Seq<char>>::empty() {
                assert(self@.len() == 0);
            }
            if self.items@.len() == 0 {
                assert(self@ =~= Set::<Seq<char>>::empty());
            }
        }
        self.items.len() == 0
    }

    /// The number of members.
    pub fn len(&self) -> (r: usize)
        ensures
            r == self@.len(),
            self@.finite(),
    {
        proof {
            use_type_invariant(self);
            self.lemma_members();
        }
        self.items.len()
    }

    /// The members as strings, in insertion order.
    pub fn to_vec(&self) -> (r: Vec<String>)
        ensures
            r@.map_values(|s: String| s@) == self.members(),
            crate::git::strings_view(r@).to_set() == self@,
            crate::git::strings_view(r@).no_duplicates(),
    {
        proof {
            use_type_invariant(self);
            self.lemma_members();
        }
        let mut r: Vec<String> = Vec::new();
        let mut i: usize = 0;
        while i < self.items.len()
            invariant
                i <= self.items@.len(),
                r@.map_values(|s: String| s@) == self.members().take(i as int),
            decreases self.items@.len() - i,
        {
            let ghost before = r@;
            r.push(self.items[i].clone());
            assert(r@.map_values(|s: String| s@) =~= before.map_values(|s: String| s@).push(
                self.items@[i as int]@,
            ));
            i += 1;
            assert(r@.map_values(|s: String| s@) =~= self.members().take(i as int));
        }
        assert(self.members().take(i as int) =~= self.members());
        r
    }

    /// A copy with the same members in the same order.
    pub fn duplicate(&self) -> (r: StrSet)
        ensures
            r@ == self@,
            r.members() == self.members(),
    {
        proof {
            use_type_invariant(self);
        }
        let items = self.to_vec();
        assert forall|i: int, j: int| 0 <= i < j < items@.len() implies (#[trigger] items@[i])@
            != (#[trigger] items@[j])@ by {
            assert(items@.map_values(|s: String| s@).len() == self.items@.len());
            assert(items@.map_values(|s: String| s@)[i] == self.members()[i]);
            assert(items@.map_values(|s: String| s@)[j] == self.members()[j]);
        }
        StrSet { items }
    }

    /// The set of the given strings (later duplicates dropped).
    pub fn from_vec(v: Vec<String>) -> (r: StrSet)
        ensures
            r@ == v@.map_values(|s: String| s@).to_set(),
    {
        let mut r = StrSet::new();
        let mut i: usize = 0;
        while i < v.len()
            invariant
                i <= v@.len(),
                r@ == v@.take(i as int).map_values(|s: String| s@).to_set(),
            decreases v@.len() - i,
        {
            r.insert(v[i].clone());
            proof {
                assert(v@.take(i + 1).map_values(|s: String| s@) =~= v@.take(i as int).map_values(
                    |s: String| s@,
                ).push(v@[i as int]@));
                crate::git::lemma_push_to_set(
                    v@.take(i as int).map_values(|s: String| s@),
                    v@[i as int]@,
                );
            }
            i += 1;
        }
        assert(v@.take(i as int) =~= v@);
        r
    }
}

/// A map from strings to values.
#[derive(Debug)]
pub struct StrMap<V> {
    entries: Vec<(String, V)>,
}

/// The map that a list of entries with distinct keys describes.
pub open spec fn map_of<V>(s: Seq<(String, V)>) -> Map<Seq<char>, V>
    decreases s.len(),
{
    if s.len() == 0 {
        Map::empty()
    } else {
        map_of(s.drop_last()).insert(s.last().0@, s.last().1)
    }
}

pub open spec fn distinct_keys<V>(s: Seq<(String, V)>) -> bool {
    forall|i: int, j: int| 0 <= i < j < s.len() ==> (#[trigger] s[i]).0@ != (#[trigger] s[j]).0@
}

proof fn lemma_map_of<V>(s: Seq<(String, V)>)
    requires
        distinct_keys(s),
    ensures
        forall|i: int| 0 <= i < s.len() ==> #[trigger] map_of(s).contains_key(s[i].0@) && map_of(s)[s[i].0@] == s[i].1,
        forall|k: Seq<char>| #[trigger] map_of(s).contains_key(k) ==> exists|i: int| 0 <= i < s.len() && s[i].0@ == k,
        map_of(s).dom().finite(),
        map_of(s).dom().len() == s.len(),
    decreases s.len(),
{
    if s.len() > 0 {
        let d = s.drop_last();
        assert forall|i: int, j: int| 0 <= i < j < d.len() implies (#[trigger] d[i]).0@ != (#[trigger] d[j]).0@ by {
            assert(d[i] == s[i] && d[j] == s[j]);
        }
        lemma_map_of(d);
        assert forall|i: int| 0 <= i < s.len() implies #[trigger] map_of(s).contains_key(s[i].0@) && map_of(s)[s[i].0@] == s[i].1 by {
            if i < s.len() - 1 {
                assert(d[i] == s[i]);
                assert(s[i].0@ != s.last().0@);
            }
        }
        assert forall|k: Seq<char>| #[trigger] map_of(s).contains_key(k) implies exists|i: int| 0 <= i < s.len() && s[i].0@ == k by {
            if k != s.last().0@ {
                assert(map_of(d).contains_key(k));
                let i = choose|i: int| 0 <= i < d.len() && d[i].0@ == k;
                assert(s[i] == d[i]);
            }
        }
        assert(!map_of(d).contains_key(s.last().0@)) by {
            if map_of(d).contains_key(s.last().0@) {
                let i = choose|i: int| 0 <= i < d.len() && d[i].0@ == s.last().0@;
                assert(s[i] == d[i]);
            }
        }
    }
}

impl<V> View for StrMap<V> {
    type V = Map<Seq<char>, V>;

    closed spec fn view(&self) -> Map<Seq<char>, V> {
        map_of(self.entries@)
    }
}

impl<V> StrMap<V> {
    #[verifier::type_invariant]
    spec fn inv(self) -> bool {
        distinct_keys(self.entries@)
    }

    pub fn new() -> (r: StrMap<V>)
        ensures
            r@ == Map::<Seq<char>, V>::empty(),
    {
        StrMap { entries: Vec::new() }
    }

    fn find(&self, k: &str) -> (r: Option<usize>)
        ensures
            match r {
                Some(i) => i < self.entries@.len() && self.entries@[i as int].0@ == k@,
                None => forall|i: int| 0 <= i < self.entries@.len() ==> (#[trigger] self.entries@[i]).0@ != k@,
            },
    {
        let mut i: usize = 0;
        while i < self.entries.len()
            invariant
                i <= self.entries@.len(),
                forall|j: int| 0 <= j < i ==> (#[trigger] self.entries@[j]).0@ != k@,
            decreases self.entries@.len() - i,
        {
            if str_eq(self.entries[i].0.as_str(), k) {
                return Some(i);
            }
            i += 1;
        }
        None
    }

    pub fn get(&self, k: &str) -> (r: Option<&V>)
        ensures
            match r {
                Some(v) => self@.contains_key(k@) && *v == self@[k@],
                None => !self@.contains_key(k@),
            },
    {
        proof {
            use_type_invariant(self);
            lemma_map_of(self.entries@);
        }
        match self.find(k) {
            Some(i) => {
                assert(self@.contains_key(self.entries@[i as int].0@));
                Some(&self.entries[i].1)
            },
            None => {
                proof {
                    if self@.contains_key(k@) {
                        let i = choose|i: int| 0 <= i < self.entries@.len() && self.entries@[i].0@ == k@;
                    }
                }
                None
            },
        }
    }

    pub fn contains_key(&self, k: &str) -> (r: bool)
        ensures
            r == self@.contains_key(k@),
    {
        self.get(k).is_some()
    }

    /// Sets the value of `k`.
    pub fn insert(&mut self, k: String, v: V)
        ensures
            final(self)@ == old(self)@.insert(k@, v),
    {
        proof {
            use_type_invariant(&*self);
            lemma_map_of(self.entries@);
        }
        let ghost old_entries = self.entries@;
        let ghost kv = k@;
        let found = self.find(k.as_str());
        let mut entries: Vec<(String, V)> = Vec::new();
        std::mem::swap(&mut entries, &mut self.entries);
        match found {
            Some(i) => {
                entries.set(i, (k, v));
                proof {
                    assert forall|a: int, b: int| 0 <= a < b < entries@.len() implies (#[trigger] entries@[a]).0@ != (#[trigger] entries@[b]).0@ by {
                        assert(old_entries[a].0@ != old_entries[b].0@);
                        if a == i {
                            assert(entries@[a].0@ == old_entries[a].0@);
                        }
                        if b == i {
                            assert(entries@[b].0@ == old_entries[b].0@);
                        }
                    }
                    lemma_map_of(entries@);
                    assert forall|x: Seq<char>| #[trigger] map_of(entries@).contains_key(x) <==> map_of(old_entries).insert(kv, v).contains_key(x) by {
                        if map_of(entries@).contains_key(x) {
                            let j = choose|j: int| 0 <= j < entries@.len() && entries@[j].0@ == x;
                            if j != i {
                                assert(entries@[j] == old_entries[j]);
                            }
                        }
                        if x == kv {
                            assert(entries@[i as int].0@ == kv);
                            assert(map_of(entries@).contains_key(entries@[i as int].0@));
                        }
                        if map_of(old_entries).contains_key(x) && x != kv {
                            let j = choose|j: int| 0 <= j < old_entries.len() && old_entries[j].0@ == x;
                            assert(j != i);
                            assert(entries@[j] == old_entries[j]);
                        }
                    }
                    assert forall|x: Seq<char>| #[trigger] map_of(entries@).contains_key(x) implies map_of(entries@)[x] == map_of(old_entries).insert(kv, v)[x] by {
                        let j = choose|j: int| 0 <= j < entries@.len() && entries@[j].0@ == x;
                        if j != i {
                            assert(entries@[j] == old_entries[j]);
                        }
                    }
                    assert(map_of(entries@) =~= map_of(old_entries).insert(kv, v));
                }
            },
            None => {
                entries.push((k, v));
                proof {
                    assert forall|a: int, b: int| 0 <= a < b < entries@.len() implies (#[trigger] entries@[a]).0@ != (#[trigger] entries@[b]).0@ by {
                        if b < old_entries.len() {
                            assert(entries@[a] == old_entries[a] && entries@[b] == old_entries[b]);
                        } else {
                            assert(entries@[a] == old_entries[a]);
                        }
                    }
                    assert(entries@.drop_last() =~= old_entries);
                }
            },
        }
        self.entries = entries;
    }

    /// Removes the entry of `k`, handing back its value.
    pub fn remove(&mut self, k: &str) -> (r: Option<V>)
        ensures
            final(self)@ == old(self)@.remove(k@),
            r == (if old(self)@.contains_key(k@) {
                Some(old(self)@[k@])
            } else {
                None::<V>
            }),
    {
        proof {
            use_type_invariant(&*self);
            lemma_map_of(self.entries@);
        }
        let ghost old_entries = self.entries@;
        match self.find(k) {
            Some(i) => {
                let mut entries: Vec<(String, V)> = Vec::new();
                std::mem::swap(&mut entries, &mut self.entries);
                let (_, v) = entries.remove(i);
                proof {
                    let e = entries@;
                    assert(e =~= old_entries.remove(i as int));
                    assert forall|a: int, b: int| 0 <= a < b < e.len() implies (#[trigger] e[a]).0@
                        != (#[trigger] e[b]).0@ by {
                        let pa = if a < i { a } else { a + 1 };
                        let pb = if b < i { b } else { b + 1 };
                        assert(e[a] == old_entries[pa] && e[b] == old_entries[pb]);
                    }
                    lemma_map_of(e);
                    assert forall|x: Seq<char>| #[trigger] map_of(e).contains_key(x) <==> map_of(
                        old_entries,
                    ).remove(k@).contains_key(x) by {
                        if map_of(e).contains_key(x) {
                            let j = choose|j: int| 0 <= j < e.len() && e[j].0@ == x;
                            let pj = if j < i { j } else { j + 1 };
                            assert(e[j] == old_entries[pj]);
                            assert(pj != i);
                            assert(old_entries[pj].0@ != old_entries[i as int].0@);
                        }
                        if map_of(old_entries).contains_key(x) && x != k@ {
                            let j = choose|j: int| 0 <= j < old_entries.len() && old_entries[j].0@
                                == x;
                            assert(j != i);
                            let q = if j < i { j } else { j - 1 };
                            assert(e[q] == old_entries[j]);
                        }
                    }
                    assert forall|x: Seq<char>| #[trigger] map_of(e).contains_key(x) implies map_of(
                        e,
                    )[x] == map_of(old_entries).remove(k@)[x] by {
                        let j = choose|j: int| 0 <= j < e.len() && e[j].0@ == x;
                        let pj = if j < i { j } else { j + 1 };
                        assert(e[j] == old_entries[pj]);
                        assert(pj != i);
                        assert(old_entries[pj].0@ != old_entries[i as int].0@);
                    }
                    assert(map_of(e) =~= map_of(old_entries).remove(k@));
                }
                self.entries = entries;
                Some(v)
            },
            None => {
                proof {
                    if map_of(old_entries).contains_key(k@) {
                        let j = choose|j: int| 0 <= j < old_entries.len() && old_entries[j].0@
                            == k@;
                    }
                    assert(map_of(old_entries).remove(k@) =~= map_of(old_entries));
                }
                None
            },
        }
    }

    /// The keys, in insertion order, each once.
    pub fn keys(&self) -> (r: Vec<String>)
        ensures
            crate::git::strings_view(r@).to_set() == self@.dom(),
            r@.len() == self@.len(),
    {
        proof {
            use_type_invariant(self);
            lemma_map_of(self.entries@);
        }
        let mut r: Vec<String> = Vec::new();
        let mut i: usize = 0;
        while i < self.entries.len()
            invariant
                i <= self.entries@.len(),
                r@.len() == i,
                forall|j: int| 0 <= j < i ==> (#[trigger] r@[j])@ == self.entries@[j].0@,
            decreases self.entries@.len() - i,
        {
            r.push(self.entries[i].0.clone());
            i += 1;
        }
        proof {
            let sv = crate::git::strings_view(r@);
            assert forall|k: Seq<char>| sv.to_set().contains(k) <==> self@.dom().contains(k) by {
                if sv.to_set().contains(k) {
                    let j = choose|j: int| 0 <= j < sv.len() && sv[j] == k;
                    assert(self@.contains_key(self.entries@[j].0@));
                }
                if self@.dom().contains(k) {
                    let j = choose|j: int| 0 <= j < self.entries@.len() && self.entries@[j].0@ == k;
                    assert(sv[j] == k);
                }
            }
            assert(sv.to_set() =~= self@.dom());
        }
        r
    }

    /// Drops every entry.
    pub fn clear(&mut self)
        ensures
            final(self)@ == Map::<Seq<char>, V>::empty(),
    {
        self.entries = Vec::new();
    }

    /// The number of entries.
    pub fn len(&self) -> (r: usize)
        ensures
            r == self@.len(),
    {
        proof {
            use_type_invariant(self);
            lemma_map_of(self.entries@);
        }
        self.entries.len()
    }
}

impl<V> Default for StrMap<V> {
    fn default() -> (r: StrMap<V>)
        ensures
            r@ == Map::<Seq<char>, V>::empty(),
    {
        StrMap::new()
    }
}

} // verus!
