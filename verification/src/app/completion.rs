//! Directory completion for the repository field: which directory names
//! match the fragment being typed, in what order, and what accepting one
//! writes into the field.

use crate::app::{App, Effect};
use crate::git::strings_view;
use crate::parse::starts_with;
use crate::sort::{stable_sort, TotalPreorder};
use crate::text::{
    chars_of, contains_at_any, has_prefix_at, lemma_seq_lt_irrefl, lemma_seq_lt_total,
    lemma_seq_lt_trans, push_char, seq_contains, seq_lt, string_of, string_of_all,
};
use vstd::prelude::*;

verus! {

broadcast use vstd::string::group_string_axioms;

/// `s` in lowercase, as `str::to_lowercase` maps it.
pub uninterp spec fn lowercase_of(s: Seq<char>) -> Seq<char>;

/// Calls `str::to_lowercase`; the contract names the result only.
#[verifier::external_body]
fn to_lowercase(s: &str) -> (r: String)
    ensures
        r@ == lowercase_of(s@),
{
    s.to_lowercase()
}

/// A directory name offered for completion, with whether its lowercase
/// form starts with the lowercase fragment.
#[derive(Debug)]
pub struct Completion {
    pub prefix: bool,
    pub name: String,
}

impl TotalPreorder for Completion {
    /// Prefix matches first, then by lowercase name.
    open spec fn key_le(self, other: Self) -> bool {
        (self.prefix && !other.prefix) || (self.prefix == other.prefix && !seq_lt(
            lowercase_of(other.name@),
            lowercase_of(self.name@),
        ))
    }

    fn key_le_exec(&self, other: &Self) -> (r: bool) {
        if self.prefix != other.prefix {
            self.prefix
        } else {
            let a = to_lowercase(self.name.as_str());
            let b = to_lowercase(other.name.as_str());
            let va = chars_of(a.as_str());
            let vb = chars_of(b.as_str());
            crate::text::compare_from(&vb, &va) != -1
        }
    }

    proof fn key_le_total(a: Self, b: Self) {
        let (la, lb) = (lowercase_of(a.name@), lowercase_of(b.name@));
        if seq_lt(la, lb) && seq_lt(lb, la) {
            lemma_seq_lt_trans(la, lb, la);
            lemma_seq_lt_irrefl(la);
        }
    }

    proof fn key_le_trans(a: Self, b: Self, c: Self) {
        let (la, lb, lc) = (lowercase_of(a.name@), lowercase_of(b.name@), lowercase_of(c.name@));
        lemma_seq_lt_total(la, lb);
        lemma_seq_lt_total(lb, lc);
        if seq_lt(lc, la) {
            if seq_lt(la, lb) {
                lemma_seq_lt_trans(lc, la, lb);
                if seq_lt(lb, lc) {
                    lemma_seq_lt_trans(lb, lc, lb);
                    lemma_seq_lt_irrefl(lb);
                }
            }
        }
    }
}

/// The last position of `c` in `s`.
pub open spec fn last_index_of(s: Seq<char>, c: char) -> Option<int>
    decreases s.len(),
{
    if s.len() == 0 {
        None
    } else if s.last() == c {
        Some(s.len() - 1)
    } else {
        last_index_of(s.drop_last(), c)
    }
}

/// The fragment being completed: the text after the last `/` (all of it
/// without one), and nothing for a bare `~`.
pub open spec fn fragment_of(buf: Seq<char>) -> Seq<char> {
    if buf == seq!['~'] {
        Seq::empty()
    } else {
        match last_index_of(buf, '/') {
            Some(i) => buf.skip(i + 1),
            None => buf,
        }
    }
}

/// A directory name is offered for a fragment: hidden names only when the
/// fragment starts with a dot, and names containing the fragment
/// case-insensitively.
pub open spec fn offered(frag: Seq<char>, name: Seq<char>) -> bool {
    &&& !(name.len() > 0 && name[0] == '.' && !(frag.len() > 0 && frag[0] == '.'))
    &&& (frag.len() == 0 || seq_contains(lowercase_of(name), lowercase_of(frag)))
}

/// The offered names, in listing order, with their prefix flags.
pub open spec fn candidates(frag: Seq<char>, names: Seq<String>) -> Seq<Completion>
    decreases names.len(),
{
    if names.len() == 0 {
        Seq::empty()
    } else {
        let rest = candidates(frag, names.drop_last());
        let n = names.last();
        if offered(frag, n@) {
            rest.push(
                Completion {
                    prefix: starts_with(lowercase_of(n@), lowercase_of(frag)),
                    name: n,
                },
            )
        } else {
            rest
        }
    }
}

/// The names of completions.
pub open spec fn completion_names(s: Seq<Completion>) -> Seq<Seq<char>> {
    s.map_values(|c: Completion| c.name@)
}

/// The field's text after accepting `cand`: the directory part of the
/// buffer, then `cand/`.
pub open spec fn accepted_buffer(buf: Seq<char>, cand: Seq<char>) -> Seq<char> {
    match last_index_of(buf, '/') {
        Some(i) => buf.take(i + 1) + cand + seq!['/'],
        None => if buf == seq!['~'] {
            seq!['~', '/'] + cand + seq!['/']
        } else {
            cand + seq!['/']
        },
    }
}


/// `b` is `a` after accepting the highlighted completion.
pub open spec fn completion_accepted(a: App, b: App) -> bool {
    if a.repo_completions@.len() == 0 {
        b == a
    } else {
        &&& b.repo_input.buffer@ == accepted_buffer(
            a.repo_input.buffer@,
            a.repo_completions@[a.repo_completion_index as int]@,
        )
        &&& b.repo_input.cursor == b.repo_input.buffer@.len()
        &&& b.effects@ == a.effects@.push(Effect::ScanRepoDir)
        &&& b == (App {
            repo_input: b.repo_input,
            repo_completion_index: 0,
            repo_dropdown_hidden: true,
            effects: b.effects,
            ..a
        })
    }
}

/// `b` is `a` with the completion highlight moved by `delta`, wrapping.
pub open spec fn completion_cycled(a: App, b: App, delta: int) -> bool {
    if a.repo_completions@.len() == 0 {
        b == a
    } else {
        b == (App {
            repo_completion_index: ((a.repo_completion_index + delta) % (a.repo_completions@.len() as int)) as usize,
            ..a
        })
    }
}

/// The last position of `c` in `v`.
pub fn find_last(v: &Vec<char>, c: char) -> (r: Option<usize>)
    ensures
        match r {
            Some(i) => i < v@.len() && last_index_of(v@, c) == Some(i as int),
            None => last_index_of(v@, c) == None::<int>,
        },
{
    let mut k: usize = v.len();
    assert(v@.take(k as int) =~= v@);
    while k > 0
        invariant
            k <= v@.len(),
            last_index_of(v@, c) == last_index_of(v@.take(k as int), c),
        decreases k,
    {
        assert(v@.take(k as int).drop_last() =~= v@.take(k - 1));
        if v[k - 1] == c {
            return Some(k - 1);
        }
        k -= 1;
    }
    None
}

/// The fragment of the field's text that completion filters on.
pub fn completion_fragment(buf: &str) -> (r: String)
    ensures
        r@ == fragment_of(buf@),
{
    let v = chars_of(buf);
    if v.len() == 1 && v[0] == '~' {
        assert(v@ =~= seq!['~']);
        return String::new();
    }
    assert(v@ != seq!['~']) by {
        if v@ == seq!['~'] {
            assert(v@.len() == 1 && v@[0] == '~');
        }
    }
    match find_last(&v, '/') {
        Some(i) => {
            let r = string_of(&v, i + 1, v.len());
            assert(r@ =~= v@.skip(i + 1));
            r
        },
        None => string_of_all(&v),
    }
}

impl App {
    /// Sets the completions from the directory names found for the field's
    /// parent directory (empty when it could not be listed): the offered
    /// names, prefix matches first, then by lowercase name, ties in listing
    /// order. The highlight resets to the top when it falls off the list.
    pub fn set_repo_completions(&mut self, dir_names: Vec<String>)
        ensures
            exists|s: Seq<Completion>|
                crate::sort::is_stable_sort_of(
                    candidates(fragment_of(old(self).repo_input.buffer@), dir_names@),
                    s,
                ) && strings_view(final(self).repo_completions@) == completion_names(s),
            final(self).repo_completion_index == (if old(self).repo_completion_index
                >= final(self).repo_completions@.len() {
                0
            } else {
                old(self).repo_completion_index
            }),
            *final(self) == (App {
                repo_completions: final(self).repo_completions,
                repo_completion_index: final(self).repo_completion_index,
                ..*old(self)
            }),
    {
        let frag = completion_fragment(self.repo_input.buffer.as_str());
        let ghost fragv = frag@;
        let fc = chars_of(frag.as_str());
        let frag_lower = to_lowercase(frag.as_str());
        let fl = chars_of(frag_lower.as_str());
        let frag_dot = fc.len() > 0 && fc[0] == '.';
        let mut cands: Vec<Completion> = Vec::new();
        let mut i: usize = 0;
        while i < dir_names.len()
            invariant
                i <= dir_names@.len(),
                fc@ == fragv,
                fl@ == lowercase_of(fragv),
                frag_dot == (fragv.len() > 0 && fragv[0] == '.'),
                cands@ == candidates(fragv, dir_names@.take(i as int)),
            decreases dir_names@.len() - i,
        {
            assert(dir_names@.take(i + 1).drop_last() =~= dir_names@.take(i as int));
            let name = &dir_names[i];
            let nc = chars_of(name.as_str());
            let hidden = nc.len() > 0 && nc[0] == '.';
            if !(hidden && !frag_dot) {
                let lower = to_lowercase(name.as_str());
                let lc = chars_of(lower.as_str());
                assert(lc@.subrange(0, lc@.len() as int) =~= lc@);
                if fc.len() == 0 || contains_at_any(&lc, 0, lc.len(), fl.as_slice()) {
                    let prefix = has_prefix_at(&lc, 0, fl.as_slice());
                    assert(prefix == starts_with(lc@, fl@)) by {
                        if fl@.len() <= lc@.len() {
                            assert(lc@.subrange(0, fl@.len() as int) =~= lc@.take(
                                fl@.len() as int,
                            ));
                        }
                    }
                    cands.push(Completion { prefix, name: name.clone() });
                }
            }
            i += 1;
        }
        assert(dir_names@.take(i as int) =~= dir_names@);
        let ghost unsorted = cands@;
        stable_sort(&mut cands);
        let mut names: Vec<String> = Vec::new();
        let mut k: usize = 0;
        while k < cands.len()
            invariant
                k <= cands@.len(),
                strings_view(names@) == completion_names(cands@).take(k as int),
            decreases cands@.len() - k,
        {
            let ghost before = names@;
            names.push(cands[k].name.clone());
            assert(strings_view(names@) =~= strings_view(before).push(cands@[k as int].name@));
            k += 1;
            assert(strings_view(names@) =~= completion_names(cands@).take(k as int));
        }
        assert(completion_names(cands@).take(k as int) =~= completion_names(cands@));
        self.repo_completions = names;
        if self.repo_completion_index >= self.repo_completions.len() {
            self.repo_completion_index = 0;
        }
    }

    /// Accepts the highlighted completion: the field becomes its directory
    /// part followed by the name and a slash, the cursor goes to the end,
    /// the dropdown hides and a rescan is requested.
    pub fn accept_repo_completion(&mut self)
        requires
            old(self).repo_completions@.len() > 0 ==> old(self).repo_completion_index < old(
                self,
            ).repo_completions@.len(),
        ensures
            completion_accepted(*old(self), *final(self)),
    {
        if self.repo_completions.len() == 0 {
            return;
        }
        let cand = chars_of(self.repo_completions[self.repo_completion_index].as_str());
        let buf = chars_of(self.repo_input.buffer.as_str());
        let bl = buf.len();
        let mut out = String::new();
        match find_last(&buf, '/') {
            Some(i) => {
                out = string_of(&buf, 0, i + 1);
                assert(out@ =~= buf@.take(i + 1));
            },
            None => {
                if buf.len() == 1 && buf[0] == '~' {
                    push_char(&mut out, '~');
                    push_char(&mut out, '/');
                    assert(buf@ =~= seq!['~']);
                } else {
                    assert(buf@ != seq!['~']) by {
                        if buf@ == seq!['~'] {
                            assert(buf@.len() == 1 && buf@[0] == '~');
                        }
                    }
                }
            },
        }
        let cs = string_of_all(&cand);
        crate::text::append_chars(&mut out, cs.as_str());
        push_char(&mut out, '/');
        assert(out@ =~= accepted_buffer(buf@, cand@));
        self.repo_input.buffer = out;
        self.repo_input.move_end();
        self.repo_completion_index = 0;
        self.update_repo_completions();
        self.repo_dropdown_hidden = true;
    }

    /// Moves the completion highlight by `delta`, wrapping around.
    pub fn cycle_repo_completion(&mut self, delta: i32)
        ensures
            completion_cycled(*old(self), *final(self), delta as int),
    {
        if self.repo_completions.len() == 0 {
            return;
        }
        let n = self.repo_completions.len() as i128;
        let s = self.repo_completion_index as i128 + delta as i128;
        let r: i128 = if s >= 0 {
            s % n
        } else {
            let m = (-s) % n;
            if m == 0 {
                0
            } else {
                n - m
            }
        };
        proof {
            let ni = n as int;
            let si = s as int;
            if si >= 0 {
            } else {
                let m = (-si) % ni;
                let q = (-si) / ni;
                vstd::arithmetic::div_mod::lemma_fundamental_div_mod(-si, ni);
                vstd::arithmetic::div_mod::lemma_mod_bound(-si, ni);
                assert(si == (-q) * ni - m) by (nonlinear_arith)
                    requires
                        -si == ni * q + m,
                ;
                if m == 0 {
                    vstd::arithmetic::div_mod::lemma_fundamental_div_mod_converse(si, ni, -q, 0);
                } else {
                    assert(si == (-q - 1) * ni + (ni - m)) by (nonlinear_arith)
                        requires
                            si == (-q) * ni - m,
                    ;
                    vstd::arithmetic::div_mod::lemma_fundamental_div_mod_converse(
                        si,
                        ni,
                        -q - 1,
                        ni - m,
                    );
                }
            }
            assert(r as int == si % ni);
        }
        self.repo_completion_index = r as usize;
    }
}

/// Moving the completion highlight by `delta` lands on the Euclidean
/// remainder of `index + delta` by the number of completions (so `-1` from
/// the first wraps to the last), always a valid index, and changes nothing
/// else; moving it by `-delta` afterwards brings it back to where it was.
pub proof fn lemma_cycle_round_trip(a: App, b: App, c: App, delta: int)
    requires
        a.repo_completions@.len() <= usize::MAX,
        a.repo_completion_index < a.repo_completions@.len(),
        completion_cycled(a, b, delta),
        completion_cycled(b, c, -delta),
    ensures
        b.repo_completion_index == (a.repo_completion_index + delta) % (a.repo_completions@.len() as int),
        b.repo_completion_index < a.repo_completions@.len(),
        b == (App { repo_completion_index: b.repo_completion_index, ..a }),
        c == a,
{
    let n = a.repo_completions@.len() as int;
    let i = a.repo_completion_index as int;
    let k = (i + delta) % n;
    vstd::arithmetic::div_mod::lemma_mod_bound(i + delta, n);
    assert(b.repo_completion_index as int == k);
    vstd::arithmetic::div_mod::lemma_add_mod_noop_right(-delta, i + delta, n);
    assert(-delta + (i + delta) == i);
    assert(k + (-delta) == -delta + k);
    vstd::arithmetic::div_mod::lemma_small_mod(i as nat, n as nat);
    assert((k + (-delta)) % n == i);
}

} // verus!
