//! A single-line editable text field: text, a cursor and an optional selection.
//!
//! Good for search boxes and filters. The cursor and the selection are byte
//! offsets into the text and always lie on character boundaries.
pub mod keys;
pub mod laws;
pub mod model;
pub mod render;
pub mod status;
pub mod token;

pub use keys::{KeyCode, KeyEvent, KeyModifiers};
pub use model::FieldState;
pub use status::Status;
pub use token::arg_range_at;

use crate::text_field::model::{run_end, run_start};
use crate::text_field::token::lemma_token_range_bounds;
use crate::utils::classes::should_jump;
use crate::utils::edit::{insert_char, lemma_spliced_offsets, remove_char, splice};
use crate::utils::encoding::{
    byte_len, char_before, char_count, char_from, index_at, lemma_boundary_index,
    lemma_byte_len_concat, lemma_index_at, lemma_offset_ends, lemma_offset_step, offset_of,
    on_boundary, slice, str_len,
};
use vstd::prelude::*;

verus! {

/// Single line input field.
pub struct TextField {
    text: String,
    cursor: usize,
    select: Option<(usize, usize)>,
}

impl View for TextField {
    type V = FieldState;

    closed spec fn view(&self) -> FieldState {
        FieldState {
            text: self.text@,
            cursor: self.cursor as int,
            select: match self.select {
                Some((f, t)) => Some((f as int, t as int)),
                None => None,
            },
        }
    }
}

impl Default for TextField {
    fn default() -> (field: Self)
        ensures
            field@ == FieldState::new(Seq::empty()),
            field@.wf(),
    {
        let field = TextField { text: String::new(), cursor: 0, select: None };
        proof {
            lemma_offset_ends(field.text@);
        }
        field
    }
}

impl TextField {
    /// A field around `text`, with the cursor at its end.
    pub fn new(text: String) -> (field: Self)
        ensures
            field@ == FieldState::new(text@),
            field@.wf(),
    {
        let cursor = str_len(text.as_str());
        proof {
            lemma_offset_ends(text@);
        }
        Self { cursor, text, select: None }
    }

    /// Byte offset of the cursor.
    pub fn cursor(&self) -> (at: usize)
        ensures
            at == self@.cursor,
    {
        self.cursor
    }

    /// The selection, smaller end first.
    pub fn select(&self) -> (range: Option<(usize, usize)>)
        ensures
            match range {
                Some((f, t)) => self@.range() == Some((f as int, t as int)),
                None => self@.range() is None,
            },
    {
        match self.select {
            Some((f, t)) => if f > t {
                Some((t, f))
            } else {
                Some((f, t))
            },
            None => None,
        }
    }

    /// The selection as it was made: the anchor first, then the moving end.
    pub fn selection(&self) -> (range: Option<(usize, usize)>)
        ensures
            match range {
                Some((f, t)) => self@.select == Some((f as int, t as int)),
                None => self@.select is None,
            },
    {
        self.select
    }

    /// Forgets the selection.
    pub fn select_drop(&mut self) -> (status: Status)
        ensures
            (final(self)@, status) == old(self)@.select_drop(),
            old(self)@.sound() ==> final(self)@.wf(),
    {
        match self.select {
            Some(_) => {
                self.select = None;
                Status::UpdatedCursor
            },
            None => Status::Skipped,
        }
    }

    /// The text.
    pub fn as_str(&self) -> (text: &str)
        ensures
            text@ == self@.text,
    {
        self.text.as_str()
    }

    /// Length of the text in bytes.
    pub fn len(&self) -> (n: usize)
        ensures
            n == self@.end(),
    {
        str_len(self.text.as_str())
    }

    /// Whether the text is empty.
    pub fn is_empty(&self) -> (r: bool)
        ensures
            r == (self@.text.len() == 0),
    {
        proof {
            crate::utils::encoding::lemma_byte_len_bounds(self.text@);
        }
        self.len() == 0
    }

    /// Number of characters in the text.
    pub fn char_len(&self) -> (n: usize)
        ensures
            n == self@.text.len(),
    {
        char_count(self.text.as_str())
    }

    /// Replaces the text; the cursor goes to its end and the selection is forgotten.
    pub fn text_set(&mut self, text: String)
        ensures
            final(self)@ == FieldState::new(text@),
            final(self)@.wf(),
    {
        proof {
            lemma_offset_ends(text@);
        }
        self.select = None;
        self.cursor = str_len(text.as_str());
        self.text = text;
    }

    /// Puts the cursor at byte offset `new_char`, or at the end of the text
    /// if that lies behind it, and forgets the selection.
    pub fn cursor_set(&mut self, new_char: usize) -> (status: Status)
        requires
            old(self)@.wf(),
            on_boundary(old(self)@.text, new_char as int) || new_char >= old(self)@.end(),
        ensures
            (final(self)@, status) == old(self)@.cursor_set(new_char as int),
            final(self)@.wf(),
    {
        proof {
            lemma_offset_ends(self.text@);
        }
        let dropped = self.select_drop();
        let n = self.len();
        let moved = if n < new_char {
            if self.cursor == n {
                Status::Skipped
            } else {
                self.cursor = n;
                Status::UpdatedCursor
            }
        } else if new_char == self.cursor {
            Status::Skipped
        } else {
            self.cursor = new_char;
            Status::UpdatedCursor
        };
        dropped.merge(moved)
    }

    /// Takes the text out and leaves the field empty.
    pub fn text_take(&mut self) -> (text: String)
        ensures
            text@ == old(self)@.text,
            final(self)@ == FieldState::new(Seq::empty()),
            final(self)@.wf(),
    {
        self.cursor = 0;
        self.select = None;
        let mut text = String::new();
        core::mem::swap(&mut self.text, &mut text);
        proof {
            lemma_offset_ends(self.text@);
        }
        text
    }

    /// Selects the token at the cursor and puts the cursor at its end.
    pub fn select_token_at_cursor(&mut self) -> (status: Status)
        requires
            old(self)@.wf(),
        ensures
            (final(self)@, status) == old(self)@.select_token_at_cursor(),
            final(self)@.wf(),
    {
        proof {
            lemma_token_range_bounds(self.text@, self.cursor as int);
        }
        let token_range = arg_range_at(self.text.as_str(), self.cursor);
        if token_range.start >= token_range.end {
            return Status::Skipped;
        }
        let same = match self.select {
            Some((f, t)) => f == token_range.start && t == token_range.end,
            None => false,
        };
        if same && self.cursor == token_range.end {
            return Status::Skipped;
        }
        self.select = Some((token_range.start, token_range.end));
        self.cursor = token_range.end;
        Status::UpdatedCursor
    }

    /// The token at the cursor.
    pub fn get_token_at_cursor(&self) -> (token: Option<&str>)
        requires
            self@.wf(),
        ensures
            token is Some,
            token->0@ == self@.text.subrange(
                index_at(self@.text, self@.token().0),
                index_at(self@.text, self@.token().1),
            ),
    {
        proof {
            lemma_token_range_bounds(self.text@, self.cursor as int);
        }
        let token_range = arg_range_at(self.text.as_str(), self.cursor);
        Some(slice(self.text.as_str(), token_range.start, token_range.end))
    }

    /// Replaces the token at the cursor by `new` and puts the cursor behind it.
    pub fn replace_token(&mut self, new: &str)
        requires
            old(self)@.wf(),
        ensures
            final(self)@ == old(self)@.replace_token(new@),
            final(self)@.wf(),
    {
        proof {
            lemma_token_range_bounds(self.text@, self.cursor as int);
        }
        let ghost before = self.text@;
        let token_range = arg_range_at(self.text.as_str(), self.cursor);
        let ghost f = index_at(before, token_range.start as int);
        let ghost t = index_at(before, token_range.end as int);
        proof {
            lemma_boundary_index(before, token_range.start as int);
            lemma_boundary_index(before, token_range.end as int);
            if t < f {
                crate::utils::encoding::lemma_offset_monotone(before, t, f);
            }
            lemma_spliced_offsets(before, f, t, new@);
        }
        splice(&mut self.text, token_range.start, token_range.end, new);
        // the new text was measured: its length fits a `usize`
        let _ = str_len(self.text.as_str());
        proof {
            lemma_index_at(self.text@, f + new@.len());
            crate::utils::encoding::lemma_offset_monotone(
                self.text@,
                f + new@.len(),
                self.text@.len() as int,
            );
            lemma_offset_ends(self.text@);
        }
        self.cursor = str_len(new) + token_range.start;
        self.select = None;
    }
}


/// Whether `c` occurs in `text`.
pub fn contains_char(text: &str, c: char) -> (r: bool)
    ensures
        r == text@.contains(c),
{
    let n = str_len(text);
    let mut at: usize = 0;
    let ghost mut k: int = 0;
    proof {
        lemma_offset_ends(text@);
    }
    while at < n
        invariant
            n == byte_len(text@),
            0 <= k <= text@.len(),
            at == offset_of(text@, k),
            at <= n,
            forall|j: int| 0 <= j < k ==> text@[j] != c,
        decreases n - at,
    {
        proof {
            lemma_index_at(text@, k);
        }
        let (ch, next) = char_from(text, at);
        if ch == c {
            return true;
        }
        at = next;
        proof {
            k = k + 1;
        }
    }
    proof {
        lemma_index_at(text@, k);
        lemma_index_at(text@, text@.len() as int);
    }
    false
}

impl TextField {
    fn init_select(&mut self) -> (status: Status)
        requires
            old(self)@.sound(),
        ensures
            (final(self)@, status) == old(self)@.init_select(),
            final(self)@.sound(),
    {
        if self.select.is_some() {
            return Status::Skipped;
        }
        self.select = Some((self.cursor, self.cursor));
        Status::UpdatedCursor
    }

    fn push_select(&mut self) -> (status: Status)
        requires
            old(self)@.sound(),
        ensures
            (final(self)@, status) == old(self)@.push_select(),
            final(self)@.wf(),
    {
        match self.select {
            Some((from, to)) => if to != self.cursor {
                self.select = Some((from, self.cursor));
                Status::UpdatedCursor
            } else {
                Status::Skipped
            },
            None => Status::Skipped,
        }
    }

    fn next_char(&mut self) -> (status: Status)
        requires
            old(self)@.sound(),
        ensures
            (final(self)@, status) == old(self)@.next_char(),
            final(self)@.sound(),
    {
        if self.cursor < self.len() {
            let (_, next) = char_from(self.text.as_str(), self.cursor);
            self.cursor = next;
            Status::UpdatedCursor
        } else {
            Status::Skipped
        }
    }

    fn prev_char(&mut self) -> (status: Status)
        requires
            old(self)@.sound(),
        ensures
            (final(self)@, status) == old(self)@.prev_char(),
            final(self)@.sound(),
    {
        if self.cursor > 0 {
            let (_, prev) = char_before(self.text.as_str(), self.cursor);
            self.cursor = prev;
            Status::UpdatedCursor
        } else {
            Status::Skipped
        }
    }

    fn jump_left_move(&mut self) -> (status: Status)
        requires
            old(self)@.sound(),
        ensures
            (final(self)@, status) == old(self)@.jump_left_move(),
            final(self)@.sound(),
    {
        let mut new_char = self.cursor;
        let mut go = true;
        let ghost k0 = self@.index();
        let ghost mut k = k0;
        proof {
            lemma_boundary_index(self.text@, self.cursor as int);
        }
        while go && new_char > 0
            invariant
                0 <= k <= k0 <= self.text@.len(),
                new_char == offset_of(self.text@, k),
                run_start(self.text@, k0) == run_start(self.text@, k),
                !go ==> run_start(self.text@, k) == k,
            decreases new_char + if go { 1int } else { 0int },
        {
            proof {
                lemma_index_at(self.text@, k);
                lemma_offset_ends(self.text@);
            }
            let (ch, prev) = char_before(self.text.as_str(), new_char);
            if should_jump(ch) {
                new_char = prev;
                proof {
                    k = k - 1;
                }
            } else {
                go = false;
            }
        }
        proof {
            lemma_index_at(self.text@, k);
            lemma_offset_ends(self.text@);
            if new_char == 0 && k != 0 {
                crate::utils::encoding::lemma_offset_monotone(self.text@, 0, k);
            }
        }
        if new_char == self.cursor {
            return Status::Skipped;
        }
        self.cursor = new_char;
        Status::UpdatedCursor
    }

    fn jump_right_move(&mut self) -> (status: Status)
        requires
            old(self)@.sound(),
        ensures
            (final(self)@, status) == old(self)@.jump_right_move(),
            final(self)@.sound(),
    {
        let n = self.len();
        let mut at = self.cursor;
        let ghost k0 = self@.index();
        let ghost mut k = k0;
        proof {
            lemma_boundary_index(self.text@, self.cursor as int);
            lemma_offset_ends(self.text@);
        }
        while at < n
            invariant
                n == byte_len(self.text@),
                0 <= k0 <= k <= self.text@.len(),
                at == offset_of(self.text@, k),
                at <= n,
                self.cursor == offset_of(self.text@, k0),
                self.cursor <= at,
                run_end(self.text@, k0) == run_end(self.text@, k),
                self@ == old(self)@,
                self@.sound(),
                k0 == self@.index(),
            decreases n - at,
        {
            proof {
                lemma_index_at(self.text@, k);
            }
            let (ch, next) = char_from(self.text.as_str(), at);
            if !should_jump(ch) {
                self.cursor = at;
                return Status::UpdatedCursor;
            }
            at = next;
            proof {
                k = k + 1;
            }
        }
        proof {
            lemma_index_at(self.text@, k);
            lemma_index_at(self.text@, self.text@.len() as int);
        }
        if self.cursor == n {
            return Status::Skipped;
        }
        self.cursor = n;
        Status::UpdatedCursor
    }

    fn get_selected(&self) -> (clip: Option<String>)
        requires
            self@.sound(),
        ensures
            match clip {
                Some(text) => self@.copy() == Some(text@),
                None => self@.copy() is None,
            },
    {
        match self.select() {
            Some((from, to)) => {
                if from == to {
                    return None;
                }
                Some(slice(self.text.as_str(), from, to).to_owned())
            },
            None => None,
        }
    }

    fn take_selected(&mut self) -> (clip: Option<String>)
        requires
            old(self)@.sound(),
        ensures
            final(self)@ == old(self)@.take_selected().0,
            match clip {
                Some(text) => old(self)@.take_selected().1 == Some(text@),
                None => old(self)@.take_selected().1 is None,
            },
            final(self)@.wf(),
            final(self)@.select is None,
    {
        let range = self.select();
        self.select = None;
        match range {
            Some((from, to)) => {
                if from == to {
                    return None;
                }
                let ghost before = self.text@;
                let ghost f = index_at(before, from as int);
                let ghost t = index_at(before, to as int);
                proof {
                    lemma_boundary_index(before, from as int);
                    lemma_boundary_index(before, to as int);
                    if t < f {
                        crate::utils::encoding::lemma_offset_monotone(before, t, f);
                    }
                    lemma_spliced_offsets(before, f, t, Seq::empty());
                }
                let clip = slice(self.text.as_str(), from, to).to_owned();
                splice(&mut self.text, from, to, "");
                proof {
                    reveal_strlit("");
                    assert(""@ =~= Seq::<char>::empty());
                    lemma_index_at(self.text@, f);
                }
                self.cursor = from;
                Some(clip)
            },
            None => None,
        }
    }

    /// Inserts `clip` at the cursor, replacing the selection; refuses text
    /// with a line break.
    pub fn paste_passthrough(&mut self, clip: String) -> (status: Status)
        requires
            old(self)@.wf(),
        ensures
            (final(self)@, status) == old(self)@.paste(clip@),
            final(self)@.wf(),
    {
        if contains_char(clip.as_str(), '\n') {
            return Status::Skipped;
        }
        self.take_selected();
        let ghost mid = self.text@;
        let ghost k = index_at(mid, self.cursor as int);
        proof {
            lemma_boundary_index(mid, self.cursor as int);
            lemma_spliced_offsets(mid, k, k, clip@);
        }
        splice(&mut self.text, self.cursor, self.cursor, clip.as_str());
        // the new text was measured: its length fits a `usize`
        let _ = str_len(self.text.as_str());
        proof {
            lemma_index_at(self.text@, k + clip@.len());
            crate::utils::encoding::lemma_offset_monotone(
                self.text@,
                k + clip@.len(),
                self.text@.len() as int,
            );
            lemma_offset_ends(self.text@);
        }
        self.cursor = self.cursor + str_len(clip.as_str());
        Status::Updated
    }

    /// The selected text, if any.
    pub fn copy(&mut self) -> (clip: Option<String>)
        requires
            old(self)@.wf(),
        ensures
            final(self)@ == old(self)@,
            match clip {
                Some(text) => old(self)@.copy() == Some(text@),
                None => old(self)@.copy() is None,
            },
    {
        self.get_selected()
    }

    /// Removes the selected text, if any, and returns it.
    pub fn cut(&mut self) -> (clip: Option<String>)
        requires
            old(self)@.wf(),
        ensures
            final(self)@ == old(self)@.take_selected().0,
            match clip {
                Some(text) => old(self)@.take_selected().1 == Some(text@),
                None => old(self)@.take_selected().1 is None,
            },
            final(self)@.wf(),
    {
        self.take_selected()
    }

    /// Selects the whole text, with the cursor at its end.
    pub fn select_all(&mut self) -> (status: Status)
        requires
            old(self)@.wf(),
        ensures
            (final(self)@, status) == old(self)@.select_all(),
            final(self)@.wf(),
    {
        proof {
            lemma_offset_ends(self.text@);
        }
        if self.is_empty() {
            return Status::Skipped;
        }
        let n = self.len();
        let same = match self.select {
            Some((f, t)) => f == 0 && t == n,
            None => false,
        };
        if self.cursor == n && same {
            return Status::Skipped;
        }
        self.select = Some((0, n));
        self.cursor = n;
        Status::UpdatedCursor
    }

    /// Moves the cursor to the start of the text and forgets the selection.
    pub fn start_of_line(&mut self) -> (status: Status)
        requires
            old(self)@.wf(),
        ensures
            (final(self)@, status) == old(self)@.start_of_line(),
            final(self)@.wf(),
    {
        proof {
            lemma_offset_ends(self.text@);
        }
        if self.cursor == 0 && self.select.is_none() {
            return Status::Skipped;
        }
        self.cursor = 0;
        self.select = None;
        Status::UpdatedCursor
    }

    /// Moves the cursor to the end of the text and forgets the selection.
    pub fn end_of_line(&mut self) -> (status: Status)
        requires
            old(self)@.wf(),
        ensures
            (final(self)@, status) == old(self)@.end_of_line(),
            final(self)@.wf(),
    {
        proof {
            lemma_offset_ends(self.text@);
        }
        let n = self.len();
        if self.cursor == n && self.select.is_none() {
            return Status::Skipped;
        }
        self.cursor = n;
        self.select = None;
        Status::UpdatedCursor
    }

    /// Types `ch`: it replaces the selection, or goes in at the cursor.
    pub fn push_char(&mut self, ch: char) -> (status: Status)
        requires
            old(self)@.wf(),
        ensures
            (final(self)@, status) == old(self)@.push_char(ch),
            final(self)@.wf(),
    {
        self.take_selected();
        let ghost mid = self.text@;
        let ghost k = index_at(mid, self.cursor as int);
        proof {
            lemma_boundary_index(mid, self.cursor as int);
            lemma_spliced_offsets(mid, k, k, seq![ch]);
            crate::utils::encoding::lemma_encode_single(ch);
            assert(crate::utils::edit::spliced(mid, k, k, seq![ch]) =~= mid.insert(k, ch));
        }
        insert_char(&mut self.text, self.cursor, ch);
        // the new text was measured: its length fits a `usize`
        let _ = str_len(self.text.as_str());
        proof {
            lemma_index_at(self.text@, k + 1);
            crate::utils::encoding::lemma_offset_monotone(
                self.text@,
                k + 1,
                self.text@.len() as int,
            );
            lemma_offset_ends(self.text@);
        }
        self.cursor = self.cursor + crate::utils::encoding::len_utf8(ch);
        Status::Updated
    }

    /// Deletes the selection, or else the character the cursor stands on.
    pub fn del(&mut self) -> (status: Status)
        requires
            old(self)@.wf(),
        ensures
            (final(self)@, status) == old(self)@.del(),
            final(self)@.wf(),
    {
        if self.take_selected().is_some() {
            Status::Updated
        } else if self.cursor < self.len() {
            self.remove_at_cursor();
            Status::Updated
        } else {
            Status::Skipped
        }
    }

    /// Deletes the selection, or else the character in front of the cursor.
    pub fn backspace(&mut self) -> (status: Status)
        requires
            old(self)@.wf(),
        ensures
            (final(self)@, status) == old(self)@.backspace(),
            final(self)@.wf(),
    {
        if self.take_selected().is_some() {
            Status::Updated
        } else if self.cursor > 0 {
            proof {
                lemma_boundary_index(self.text@, self.cursor as int);
                lemma_offset_ends(self.text@);
                lemma_offset_step(self.text@, self@.index() - 1);
            }
            self.prev_char();
            self.remove_at_cursor();
            Status::Updated
        } else {
            Status::Skipped
        }
    }

    fn remove_at_cursor(&mut self)
        requires
            old(self)@.wf(),
            old(self)@.select is None,
            old(self)@.cursor < old(self)@.end(),
        ensures
            final(self)@ == (FieldState {
                text: old(self)@.text.remove(old(self)@.index()),
                ..old(self)@
            }),
            final(self)@.wf(),
    {
        let ghost before = self.text@;
        let ghost k = index_at(before, self.cursor as int);
        proof {
            lemma_boundary_index(before, self.cursor as int);
        }
        remove_char(&mut self.text, self.cursor);
        proof {
            assert(self.text@.take(k) =~= before.take(k));
            lemma_index_at(self.text@, k);
        }
    }

    /// Moves one character to the left and forgets the selection.
    pub fn go_left(&mut self) -> (status: Status)
        requires
            old(self)@.wf(),
        ensures
            (final(self)@, status) == old(self)@.go_left(),
            final(self)@.wf(),
    {
        let s1 = self.select_drop();
        let s2 = self.prev_char();
        s1.merge(s2)
    }

    /// Extends the selection one character to the left.
    pub fn select_left(&mut self) -> (status: Status)
        requires
            old(self)@.wf(),
        ensures
            (final(self)@, status) == old(self)@.select_left(),
            final(self)@.wf(),
    {
        let s1 = self.init_select();
        let s2 = self.prev_char();
        let s3 = self.push_select();
        s1.merge(s2).merge(s3)
    }

    /// Moves one character to the left and on to the start of the word there.
    pub fn jump_left(&mut self) -> (status: Status)
        requires
            old(self)@.wf(),
        ensures
            (final(self)@, status) == old(self)@.jump_left(),
            final(self)@.wf(),
    {
        let s1 = self.select_drop();
        let s2 = self.prev_char();
        let s3 = self.jump_left_move();
        s1.merge(s2).merge(s3)
    }

    /// Extends the selection one character to the left and on to the start of the word there.
    pub fn select_jump_left(&mut self) -> (status: Status)
        requires
            old(self)@.wf(),
        ensures
            (final(self)@, status) == old(self)@.select_jump_left(),
            final(self)@.wf(),
    {
        let s1 = self.init_select();
        let s2 = self.prev_char();
        let s3 = self.jump_left_move();
        let s4 = self.push_select();
        s1.merge(s2).merge(s3).merge(s4)
    }

    /// Moves one character to the right and forgets the selection.
    pub fn go_right(&mut self) -> (status: Status)
        requires
            old(self)@.wf(),
        ensures
            (final(self)@, status) == old(self)@.go_right(),
            final(self)@.wf(),
    {
        let s1 = self.select_drop();
        let s2 = self.next_char();
        s1.merge(s2)
    }

    /// Extends the selection one character to the right.
    pub fn select_right(&mut self) -> (status: Status)
        requires
            old(self)@.wf(),
        ensures
            (final(self)@, status) == old(self)@.select_right(),
            final(self)@.wf(),
    {
        let s1 = self.init_select();
        let s2 = self.next_char();
        let s3 = self.push_select();
        s1.merge(s2).merge(s3)
    }

    /// Moves one character to the right and on to the end of the word there.
    pub fn jump_right(&mut self) -> (status: Status)
        requires
            old(self)@.wf(),
        ensures
            (final(self)@, status) == old(self)@.jump_right(),
            final(self)@.wf(),
    {
        let s1 = self.select_drop();
        let s2 = self.next_char();
        let s3 = self.jump_right_move();
        s1.merge(s2).merge(s3)
    }

    /// Extends the selection one character to the right and on to the end of the word there.
    pub fn select_jump_right(&mut self) -> (status: Status)
        requires
            old(self)@.wf(),
        ensures
            (final(self)@, status) == old(self)@.select_jump_right(),
            final(self)@.wf(),
    {
        let s1 = self.init_select();
        let s2 = self.next_char();
        let s3 = self.jump_right_move();
        let s4 = self.push_select();
        s1.merge(s2).merge(s3).merge(s4)
    }
}

} // verus!
