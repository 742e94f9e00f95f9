//! A single-line text field with a cursor counted in characters.

use crate::text::{chars_of, push_char, string_of, string_of_all};
use vstd::prelude::*;

verus! {

broadcast use vstd::string::group_string_axioms;

#[derive(Debug, Clone, Default)]
pub struct TextInput {
    pub buffer: String,
    pub cursor: usize,
}

/// The character position the cursor stands at: past the end counts as the end.
pub open spec fn clamp(cursor: usize, len: nat) -> int {
    if cursor < len {
        cursor as int
    } else {
        len as int
    }
}

/// `s` with `c` inserted at `p`.
pub open spec fn insert_at(s: Seq<char>, p: int, c: char) -> Seq<char> {
    s.take(p) + seq![c] + s.skip(p)
}

/// `s` without the character at `p`.
pub open spec fn remove_at(s: Seq<char>, p: int) -> Seq<char> {
    s.take(p) + s.skip(p + 1)
}

/// The cursor's position within a text of `len` characters.
pub open spec fn position(cursor: nat, len: nat) -> nat {
    if cursor < len {
        cursor
    } else {
        len
    }
}

/// Text and cursor after typing `c`.
pub open spec fn inserted(text: Seq<char>, cursor: nat, c: char) -> (Seq<char>, nat) {
    (insert_at(text, position(cursor, text.len()) as int, c), cursor + 1)
}

/// Text and cursor after a backspace.
pub open spec fn backspaced(text: Seq<char>, cursor: nat) -> (Seq<char>, nat) {
    if cursor == 0 {
        (text, cursor)
    } else {
        let p = position(cursor, text.len());
        (if p > 0 {
            remove_at(text, p - 1)
        } else {
            text
        }, (cursor - 1) as nat)
    }
}

impl TextInput {
    /// A field holding `initial`, with the cursor at its end.
    pub fn new(initial: &str) -> (r: TextInput)
        ensures
            r.buffer@ == initial@,
            r.cursor == initial@.len(),
    {
        let v = chars_of(initial);
        TextInput { buffer: String::from_str(initial), cursor: v.len() }
    }

    /// Inserts `c` at the cursor and moves the cursor past it.
    pub fn insert(&mut self, c: char)
        requires
            old(self).cursor < usize::MAX,
        ensures
            final(self).buffer@ == insert_at(
                old(self).buffer@,
                clamp(old(self).cursor, old(self).buffer@.len()),
                c,
            ),
            final(self).cursor == old(self).cursor + 1,
            (final(self).buffer@, final(self).cursor as nat) == inserted(
                old(self).buffer@,
                old(self).cursor as nat,
                c,
            ),
    {
        let v = chars_of(self.buffer.as_str());
        let p = if self.cursor < v.len() {
            self.cursor
        } else {
            v.len()
        };
        let mut s = string_of(&v, 0, p);
        push_char(&mut s, c);
        let rest = string_of(&v, p, v.len());
        crate::text::append_chars(&mut s, rest.as_str());
        assert(s@ =~= insert_at(v@, p as int, c));
        self.buffer = s;
        self.cursor = self.cursor + 1;
    }

    /// Deletes the character before the cursor and moves the cursor back.
    pub fn backspace(&mut self)
        ensures
            old(self).cursor == 0 ==> *final(self) == *old(self),
            old(self).cursor > 0 ==> {
                let p = clamp(old(self).cursor, old(self).buffer@.len());
                &&& final(self).buffer@ == (if p > 0 {
                    remove_at(old(self).buffer@, p - 1)
                } else {
                    old(self).buffer@
                })
                &&& final(self).cursor == old(self).cursor - 1
            },
            (final(self).buffer@, final(self).cursor as nat) == backspaced(
                old(self).buffer@,
                old(self).cursor as nat,
            ),
    {
        if self.cursor == 0 {
            return;
        }
        let v = chars_of(self.buffer.as_str());
        let p = if self.cursor < v.len() {
            self.cursor
        } else {
            v.len()
        };
        if p > 0 {
            let mut s = string_of(&v, 0, p - 1);
            let rest = string_of(&v, p, v.len());
            crate::text::append_chars(&mut s, rest.as_str());
            assert(s@ =~= remove_at(v@, p - 1));
            self.buffer = s;
        }
        self.cursor = self.cursor - 1;
    }

    /// Deletes the character under the cursor; the cursor stays.
    pub fn delete(&mut self)
        ensures
            final(self).cursor == old(self).cursor,
            final(self).buffer@ == (if old(self).cursor < old(self).buffer@.len() {
                remove_at(old(self).buffer@, old(self).cursor as int)
            } else {
                old(self).buffer@
            }),
    {
        let v = chars_of(self.buffer.as_str());
        if self.cursor >= v.len() {
            return;
        }
        let p = self.cursor;
        let mut s = string_of(&v, 0, p);
        let rest = string_of(&v, p + 1, v.len());
        crate::text::append_chars(&mut s, rest.as_str());
        assert(s@ =~= remove_at(v@, p as int));
        self.buffer = s;
    }

    pub fn move_left(&mut self)
        ensures
            final(self).buffer == old(self).buffer,
            final(self).cursor == (if old(self).cursor > 0 {
                old(self).cursor - 1
            } else {
                0
            }),
    {
        if self.cursor > 0 {
            self.cursor -= 1;
        }
    }

    pub fn move_right(&mut self)
        ensures
            final(self).buffer == old(self).buffer,
            final(self).cursor == (if old(self).cursor < old(self).buffer@.len() {
                old(self).cursor + 1
            } else {
                old(self).cursor as int
            }),
    {
        let len = chars_of(self.buffer.as_str()).len();
        if self.cursor < len {
            self.cursor += 1;
        }
    }

    pub fn move_home(&mut self)
        ensures
            final(self).buffer == old(self).buffer,
            final(self).cursor == 0,
    {
        self.cursor = 0;
    }

    pub fn move_end(&mut self)
        ensures
            final(self).buffer == old(self).buffer,
            final(self).cursor == old(self).buffer@.len(),
    {
        self.cursor = chars_of(self.buffer.as_str()).len();
    }

    pub fn clear(&mut self)
        ensures
            final(self).buffer@ == Seq::<char>::empty(),
            final(self).cursor == 0,
    {
        self.buffer = String::new();
        self.cursor = 0;
    }

    /// A copy with the same text and cursor.
    pub fn duplicate(&self) -> (r: TextInput)
        ensures
            r.buffer@ == self.buffer@,
            r.cursor == self.cursor,
    {
        TextInput { buffer: self.buffer.clone(), cursor: self.cursor }
    }
}


/// Deleting the character just typed gives the text back.
pub proof fn lemma_insert_then_remove(s: Seq<char>, p: int, c: char)
    requires
        0 <= p <= s.len(),
    ensures
        remove_at(insert_at(s, p, c), p) == s,
        insert_at(s, p, c).len() == s.len() + 1,
        insert_at(s, p, c)[p] == c,
{
    assert(remove_at(insert_at(s, p, c), p) =~= s);
}

/// Typing a character and then pressing backspace gives back the same text
/// and cursor, wherever the cursor stood.
pub proof fn lemma_insert_then_backspace(text: Seq<char>, cursor: nat, c: char)
    ensures
        backspaced(inserted(text, cursor, c).0, inserted(text, cursor, c).1) == (text, cursor),
{
    let p = position(cursor, text.len());
    lemma_insert_then_remove(text, p as int, c);
    assert(position(cursor + 1, text.len() + 1) == p + 1);
}

} // verus!
