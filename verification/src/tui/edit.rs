//! A line of text with a cursor, which is kept as a byte offset.

use crate::text::{
    byte_len, char_bytes, char_len, chars_of, lemma_bytes_grow, string_of, text_bytes,
};
use vstd::prelude::*;

verus! {

/// Whether a byte offset lies between characters of text.
pub open spec fn is_boundary(s: Seq<char>, cursor: nat) -> bool {
    exists|k: int| 0 <= k <= s.len() && #[trigger] text_bytes(s.take(k)) == cursor
}

/// How many characters stand before a byte offset.
pub open spec fn chars_before(s: Seq<char>, cursor: nat) -> int {
    choose|k: int| 0 <= k <= s.len() && #[trigger] text_bytes(s.take(k)) == cursor
}

/// Text and how many of its characters stand before the cursor.
pub struct Edit {
    pub text: Seq<char>,
    pub at: int,
}

impl Edit {
    /// A character put in before the cursor.
    pub open spec fn typed(self, c: char) -> Edit {
        Edit { text: self.text.insert(self.at, c), at: self.at + 1 }
    }

    /// The character before the cursor taken out.
    pub open spec fn erased(self) -> Edit {
        if self.at > 0 {
            Edit { text: self.text.remove(self.at - 1), at: self.at - 1 }
        } else {
            self
        }
    }

    /// The character after the cursor taken out.
    pub open spec fn deleted(self) -> Edit {
        if self.at < self.text.len() {
            Edit { text: self.text.remove(self.at), at: self.at }
        } else {
            self
        }
    }

    /// The cursor one character to the left.
    pub open spec fn left(self) -> Edit {
        if self.at > 0 {
            Edit { text: self.text, at: self.at - 1 }
        } else {
            self
        }
    }

    /// The cursor one character to the right.
    pub open spec fn right(self) -> Edit {
        if self.at < self.text.len() {
            Edit { text: self.text, at: self.at + 1 }
        } else {
            self
        }
    }
}

/// What text and a cursor stand for.
pub open spec fn edit(s: Seq<char>, cursor: nat) -> Edit {
    Edit { text: s, at: chars_before(s, cursor) }
}

/// Longer starts have more bytes.
proof fn lemma_starts_grow(s: Seq<char>, i: int, j: int)
    requires
        0 <= i < j <= s.len(),
    ensures
        text_bytes(s.take(i)) < text_bytes(s.take(j)),
{
    let t = s.take(j);
    lemma_bytes_grow(t.drop_last(), i);
    assert(t.drop_last().take(i) =~= s.take(i));
}

/// A byte offset belongs to one place only.
pub proof fn lemma_boundary(s: Seq<char>, k: int, cursor: nat)
    requires
        0 <= k <= s.len(),
        text_bytes(s.take(k)) == cursor,
    ensures
        is_boundary(s, cursor),
        chars_before(s, cursor) == k,
{
    let c = chars_before(s, cursor);
    if c < k {
        lemma_starts_grow(s, c, k);
    } else if k < c {
        lemma_starts_grow(s, k, c);
    }
}

/// The place of the cursor among characters.
fn place(chars: &Vec<char>, cursor: usize) -> (r: usize)
    requires
        is_boundary(chars@, cursor as nat),
    ensures
        r <= chars@.len(),
        r == chars_before(chars@, cursor as nat),
        text_bytes(chars@.take(r as int)) == cursor,
{
    let ghost k = chars_before(chars@, cursor as nat);
    let mut i: usize = 0;
    let mut bytes: usize = 0;
    assert(chars@.take(0) =~= Seq::empty());
    while bytes < cursor
        invariant
            i <= k <= chars@.len(),
            text_bytes(chars@.take(k)) == cursor,
            bytes == text_bytes(chars@.take(i as int)),
        decreases chars@.len() - i,
    {
        proof {
            if i == k {
                assert(false);
            }
            assert(chars@.take(i + 1).drop_last() =~= chars@.take(i as int));
            if i + 1 < k {
                lemma_starts_grow(chars@, i + 1, k);
            }
        }
        assert(i < chars.len());
        bytes = bytes + char_len(chars[i]);
        i = i + 1;
    }
    proof {
        if i < k {
            lemma_starts_grow(chars@, i as int, k);
        }
    }
    i
}

/// Puts a character in before the cursor.
pub fn type_char(text: &mut String, cursor: &mut usize, c: char)
    requires
        is_boundary(old(text)@, *old(cursor) as nat),
        text_bytes(old(text)@) + 4 <= usize::MAX,
    ensures
        is_boundary(final(text)@, *final(cursor) as nat),
        edit(final(text)@, *final(cursor) as nat) == edit(
            old(text)@,
            *old(cursor) as nat,
        ).typed(c),
        *final(cursor) == *old(cursor) + char_bytes(c),
{
    let mut chars: Vec<char> = chars_of(text.as_str());
    let k: usize = place(&chars, *cursor);
    let ghost before = chars@;
    chars.insert(k, c);
    proof {
        lemma_bytes_grow(before, k as int);
        assert(chars@.take(k + 1).drop_last() =~= before.take(k as int));
        lemma_boundary(chars@, k + 1, (*cursor + char_bytes(c)) as nat);
    }
    *text = string_of(&chars);
    *cursor = *cursor + char_len(c);
}

/// Takes the character before the cursor out.
pub fn erase_char(text: &mut String, cursor: &mut usize)
    requires
        is_boundary(old(text)@, *old(cursor) as nat),
    ensures
        is_boundary(final(text)@, *final(cursor) as nat),
        edit(final(text)@, *final(cursor) as nat) == edit(old(text)@, *old(cursor) as nat).erased(),
{
    let mut chars: Vec<char> = chars_of(text.as_str());
    let k: usize = place(&chars, *cursor);
    let ghost before = chars@;
    if k > 0 {
        let size: usize = char_len(chars[k - 1]);
        proof {
            assert(before.take(k as int).drop_last() =~= before.take(k - 1));
        }
        chars.remove(k - 1);
        *cursor = *cursor - size;
        proof {
            assert(chars@.take(k - 1) =~= before.take(k - 1));
            lemma_boundary(chars@, k - 1, *cursor as nat);
        }
        *text = string_of(&chars);
    }
}

/// Takes the character after the cursor out.
pub fn delete_char(text: &mut String, cursor: &mut usize)
    requires
        is_boundary(old(text)@, *old(cursor) as nat),
    ensures
        is_boundary(final(text)@, *final(cursor) as nat),
        edit(final(text)@, *final(cursor) as nat) == edit(old(text)@, *old(cursor) as nat).deleted(),
        *final(cursor) == *old(cursor),
{
    let mut chars: Vec<char> = chars_of(text.as_str());
    let k: usize = place(&chars, *cursor);
    let ghost before = chars@;
    if k < chars.len() {
        chars.remove(k);
        proof {
            assert(chars@.take(k as int) =~= before.take(k as int));
            lemma_boundary(chars@, k as int, *cursor as nat);
        }
        *text = string_of(&chars);
    }
}

/// Moves the cursor one character to the left.
pub fn cursor_left(text: &String, cursor: &mut usize)
    requires
        is_boundary(text@, *old(cursor) as nat),
    ensures
        is_boundary(text@, *final(cursor) as nat),
        edit(text@, *final(cursor) as nat) == edit(text@, *old(cursor) as nat).left(),
{
    let chars: Vec<char> = chars_of(text.as_str());
    let k: usize = place(&chars, *cursor);
    if k > 0 {
        let size: usize = char_len(chars[k - 1]);
        proof {
            assert(chars@.take(k as int).drop_last() =~= chars@.take(k - 1));
            lemma_boundary(chars@, k - 1, (*cursor - size) as nat);
        }
        *cursor = *cursor - size;
    }
}

/// Moves the cursor one character to the right.
pub fn cursor_right(text: &String, cursor: &mut usize)
    requires
        is_boundary(text@, *old(cursor) as nat),
    ensures
        is_boundary(text@, *final(cursor) as nat),
        edit(text@, *final(cursor) as nat) == edit(text@, *old(cursor) as nat).right(),
{
    let chars: Vec<char> = chars_of(text.as_str());
    let k: usize = place(&chars, *cursor);
    if k < chars.len() {
        let size: usize = char_len(chars[k]);
        proof {
            assert(chars@.take(k + 1).drop_last() =~= chars@.take(k as int));
            lemma_bytes_grow(chars@, k + 1);
            crate::text::lemma_encoded_len(text@);
            lemma_boundary(chars@, k + 1, (*cursor + size) as nat);
        }
        let whole: usize = byte_len(text.as_str());
        assert(*cursor + size <= whole);
        *cursor = *cursor + size;
    }
}

/// The text before and after the cursor.
pub fn split(text: &String, cursor: usize) -> (r: (String, String))
    requires
        is_boundary(text@, cursor as nat),
    ensures
        r.0@ == text@.take(chars_before(text@, cursor as nat)),
        r.1@ == text@.skip(chars_before(text@, cursor as nat)),
{
    let chars: Vec<char> = chars_of(text.as_str());
    let k: usize = place(&chars, cursor);
    let before: Vec<char> = crate::fields::part(&chars, 0, k);
    let after: Vec<char> = crate::fields::part(&chars, k, chars.len());
    assert(before@ =~= text@.take(k as int));
    assert(after@ =~= text@.skip(k as int));
    (string_of(&before), string_of(&after))
}

/// The end of text is a place for the cursor.
pub proof fn lemma_end_is_boundary(s: Seq<char>)
    ensures
        is_boundary(s, text_bytes(s)),
        chars_before(s, text_bytes(s)) == s.len(),
        is_boundary(s, 0),
        chars_before(s, 0) == 0,
{
    assert(s.take(s.len() as int) =~= s);
    lemma_boundary(s, s.len() as int, text_bytes(s));
    assert(s.take(0) =~= Seq::empty());
    lemma_boundary(s, 0, 0);
}

/// The place among the characters gives the byte offset back.
pub proof fn lemma_cursor_of_edit(s: Seq<char>, cursor: nat)
    requires
        is_boundary(s, cursor),
    ensures
        0 <= edit(s, cursor).at <= s.len(),
        text_bytes(s.take(edit(s, cursor).at)) == cursor,
{
}

/// Erasing what was just typed restores text and cursor.
pub proof fn law_erase_undoes_typing(e: Edit, c: char)
    requires
        0 <= e.at <= e.text.len(),
    ensures
        e.typed(c).erased() == e,
{
    assert(e.text.insert(e.at, c).remove(e.at) =~= e.text);
}

/// Moving left and deleting is the same as erasing.
pub proof fn law_erase_is_left_and_delete(e: Edit)
    requires
        0 < e.at <= e.text.len(),
    ensures
        e.left().deleted() == e.erased(),
{
}

/// Moving the cursor there and back changes nothing.
pub proof fn law_moves_undo(e: Edit)
    requires
        0 <= e.at <= e.text.len(),
    ensures
        e.at > 0 ==> e.left().right() == e,
        e.at < e.text.len() ==> e.right().left() == e,
{
}

} // verus!
