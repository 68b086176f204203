//! The text field as a state machine over plain values.
//!
//! A state holds the text as characters and the cursor and selection as byte
//! offsets into its UTF-8 encoding. Every operation is a function from a
//! state to the next state and a result.
use crate::text_field::status::Status;
use crate::text_field::token::token_range;
use crate::utils::classes::is_word_char;
use crate::utils::edit::spliced;
use crate::utils::encoding::{byte_len, index_at, offset_of, on_boundary, utf8_len};
use vstd::prelude::*;

verus! {

/// What a text field holds.
pub struct FieldState {
    /// The characters of the text.
    pub text: Seq<char>,
    /// Byte offset of the cursor.
    pub cursor: int,
    /// Anchor and moving end of the selection, as byte offsets, in the order
    /// in which the selection was made.
    pub select: Option<(int, int)>,
}

/// Index behind the run of word characters of `s` that starts at index `k`.
pub open spec fn run_end(s: Seq<char>, k: int) -> int
    decreases s.len() - k,
{
    if 0 <= k < s.len() && is_word_char(s[k]) {
        run_end(s, k + 1)
    } else {
        k
    }
}

/// Index at which the run of word characters of `s` that ends in front of index `k` starts.
pub open spec fn run_start(s: Seq<char>, k: int) -> int
    decreases k,
{
    if 0 < k <= s.len() && is_word_char(s[k - 1]) {
        run_start(s, k - 1)
    } else {
        k
    }
}

impl FieldState {
    /// The cursor and both ends of the selection lie on character boundaries of the text.
    pub open spec fn sound(self) -> bool {
        &&& on_boundary(self.text, self.cursor)
        &&& match self.select {
            Some((a, b)) => on_boundary(self.text, a) && on_boundary(self.text, b),
            None => true,
        }
    }

    /// The state is sound, and the moving end of the selection is where the
    /// cursor is. This holds between any two operations of the field.
    pub open spec fn wf(self) -> bool {
        &&& self.sound()
        &&& match self.select {
            Some((_, b)) => b == self.cursor,
            None => true,
        }
    }

    /// Length of the text in bytes.
    pub open spec fn end(self) -> int {
        byte_len(self.text) as int
    }

    /// Number of characters in front of the cursor.
    pub open spec fn index(self) -> int {
        index_at(self.text, self.cursor)
    }

    /// The selection with the smaller end first.
    pub open spec fn range(self) -> Option<(int, int)> {
        match self.select {
            Some((f, t)) => if f > t {
                Some((t, f))
            } else {
                Some((f, t))
            },
            None => None,
        }
    }

    /// Byte offset at which the selection starts; the cursor without a selection.
    pub open spec fn low(self) -> int {
        match self.range() {
            Some((f, _)) => f,
            None => self.cursor,
        }
    }

    /// Byte offset at which the selection ends; the cursor without a selection.
    pub open spec fn high(self) -> int {
        match self.range() {
            Some((_, t)) => t,
            None => self.cursor,
        }
    }

    /// Whether a selection exists that holds at least one character.
    pub open spec fn has_selection(self) -> bool {
        match self.select {
            Some((f, t)) => f != t,
            None => false,
        }
    }

    /// The selected characters; empty without a selection.
    pub open spec fn selected(self) -> Seq<char> {
        match self.range() {
            Some((f, t)) => self.text.subrange(index_at(self.text, f), index_at(self.text, t)),
            None => Seq::empty(),
        }
    }

    /// The same state with the cursor at `cursor`.
    pub open spec fn at(self, cursor: int) -> FieldState {
        FieldState { cursor, ..self }
    }

    /// A new field around `text`: the cursor at its end, nothing selected.
    pub open spec fn new(text: Seq<char>) -> FieldState {
        FieldState { text, cursor: byte_len(text) as int, select: None }
    }

    /// Forgets the selection.
    pub open spec fn select_drop(self) -> (FieldState, Status) {
        (FieldState { select: None, ..self }, Status::cursor_if(self.select is Some))
    }

    /// Starts a selection at the cursor unless one exists.
    pub open spec fn init_select(self) -> (FieldState, Status) {
        if self.select is Some {
            (self, Status::Skipped)
        } else {
            (FieldState { select: Some((self.cursor, self.cursor)), ..self }, Status::UpdatedCursor)
        }
    }

    /// Moves the moving end of the selection to the cursor.
    pub open spec fn push_select(self) -> (FieldState, Status) {
        match self.select {
            Some((from, to)) => if to != self.cursor {
                (FieldState { select: Some((from, self.cursor)), ..self }, Status::UpdatedCursor)
            } else {
                (self, Status::Skipped)
            },
            None => (self, Status::Skipped),
        }
    }

    /// Moves the cursor behind the character it stands on.
    pub open spec fn next_char(self) -> (FieldState, Status) {
        if self.cursor < self.end() {
            (self.at(self.cursor + utf8_len(self.text[self.index()])), Status::UpdatedCursor)
        } else {
            (self, Status::Skipped)
        }
    }

    /// Moves the cursor in front of the character before it.
    pub open spec fn prev_char(self) -> (FieldState, Status) {
        if self.cursor > 0 {
            (self.at(offset_of(self.text, self.index() - 1) as int), Status::UpdatedCursor)
        } else {
            (self, Status::Skipped)
        }
    }

    /// Moves the cursor to the start of the run of word characters in front of it.
    pub open spec fn jump_left_move(self) -> (FieldState, Status) {
        let to = offset_of(self.text, run_start(self.text, self.index())) as int;
        (self.at(to), Status::cursor_if(to != self.cursor))
    }

    /// Moves the cursor behind the run of word characters it stands on.
    pub open spec fn jump_right_move(self) -> (FieldState, Status) {
        let to = offset_of(self.text, run_end(self.text, self.index())) as int;
        (self.at(to), Status::cursor_if(self.cursor != self.end()))
    }

    /// Removes the selected characters, if any, and puts the cursor where
    /// they stood; forgets the selection in any case.
    pub open spec fn take_selected(self) -> (FieldState, Option<Seq<char>>) {
        match self.range() {
            Some((f, t)) => if f != t {
                (
                    FieldState {
                        text: spliced(
                            self.text,
                            index_at(self.text, f),
                            index_at(self.text, t),
                            Seq::empty(),
                        ),
                        cursor: f,
                        select: None,
                    },
                    Some(self.selected()),
                )
            } else {
                (FieldState { select: None, ..self }, None)
            },
            None => (self, None),
        }
    }

    /// The selected characters, if any.
    pub open spec fn copy(self) -> Option<Seq<char>> {
        if self.has_selection() {
            Some(self.selected())
        } else {
            None
        }
    }

    /// Inserts `clip` at the cursor and moves the cursor behind it.
    pub open spec fn insert(self, clip: Seq<char>) -> FieldState {
        FieldState {
            text: spliced(self.text, self.index(), self.index(), clip),
            cursor: self.cursor + byte_len(clip),
            select: self.select,
        }
    }

    /// Replaces the selection by `clip`, or inserts `clip` at the cursor;
    /// text with a line break is refused.
    pub open spec fn paste(self, clip: Seq<char>) -> (FieldState, Status) {
        if clip.contains('\n') {
            (self, Status::Skipped)
        } else {
            (self.take_selected().0.insert(clip), Status::Updated)
        }
    }

    /// Replaces the selection by `ch`, or inserts `ch` at the cursor.
    pub open spec fn push_char(self, ch: char) -> (FieldState, Status) {
        (self.take_selected().0.insert(seq![ch]), Status::Updated)
    }

    /// Deletes the selection, or else the character the cursor stands on.
    pub open spec fn del(self) -> (FieldState, Status) {
        let (taken, clip) = self.take_selected();
        if clip is Some {
            (taken, Status::Updated)
        } else if taken.cursor < taken.end() {
            (FieldState { text: taken.text.remove(taken.index()), ..taken }, Status::Updated)
        } else {
            (taken, Status::Skipped)
        }
    }

    /// Deletes the selection, or else the character in front of the cursor.
    pub open spec fn backspace(self) -> (FieldState, Status) {
        let (taken, clip) = self.take_selected();
        if clip is Some {
            (taken, Status::Updated)
        } else if taken.cursor > 0 {
            let back = taken.prev_char().0;
            (FieldState { text: back.text.remove(back.index()), ..back }, Status::Updated)
        } else {
            (taken, Status::Skipped)
        }
    }

    /// Moves one character to the left and forgets the selection.
    pub open spec fn go_left(self) -> (FieldState, Status) {
        let (a, s1) = self.select_drop();
        let (b, s2) = a.prev_char();
        (b, s1.combine(s2))
    }

    /// Extends the selection one character to the left.
    pub open spec fn select_left(self) -> (FieldState, Status) {
        let (a, s1) = self.init_select();
        let (b, s2) = a.prev_char();
        let (c, s3) = b.push_select();
        (c, s1.combine(s2).combine(s3))
    }

    /// Moves one character to the left and on to the start of the word there.
    pub open spec fn jump_left(self) -> (FieldState, Status) {
        let (a, s1) = self.select_drop();
        let (b, s2) = a.prev_char();
        let (c, s3) = b.jump_left_move();
        (c, s1.combine(s2).combine(s3))
    }

    /// Extends the selection one character to the left and on to the start of the word there.
    pub open spec fn select_jump_left(self) -> (FieldState, Status) {
        let (a, s1) = self.init_select();
        let (b, s2) = a.prev_char();
        let (c, s3) = b.jump_left_move();
        let (d, s4) = c.push_select();
        (d, s1.combine(s2).combine(s3).combine(s4))
    }

    /// Moves one character to the right and forgets the selection.
    pub open spec fn go_right(self) -> (FieldState, Status) {
        let (a, s1) = self.select_drop();
        let (b, s2) = a.next_char();
        (b, s1.combine(s2))
    }

    /// Extends the selection one character to the right.
    pub open spec fn select_right(self) -> (FieldState, Status) {
        let (a, s1) = self.init_select();
        let (b, s2) = a.next_char();
        let (c, s3) = b.push_select();
        (c, s1.combine(s2).combine(s3))
    }

    /// Moves one character to the right and on to the end of the word there.
    pub open spec fn jump_right(self) -> (FieldState, Status) {
        let (a, s1) = self.select_drop();
        let (b, s2) = a.next_char();
        let (c, s3) = b.jump_right_move();
        (c, s1.combine(s2).combine(s3))
    }

    /// Extends the selection one character to the right and on to the end of the word there.
    pub open spec fn select_jump_right(self) -> (FieldState, Status) {
        let (a, s1) = self.init_select();
        let (b, s2) = a.next_char();
        let (c, s3) = b.jump_right_move();
        let (d, s4) = c.push_select();
        (d, s1.combine(s2).combine(s3).combine(s4))
    }

    /// Moves the cursor to the start of the text and forgets the selection.
    pub open spec fn start_of_line(self) -> (FieldState, Status) {
        (
            FieldState { cursor: 0, select: None, ..self },
            Status::cursor_if(!(self.cursor == 0 && self.select is None)),
        )
    }

    /// Moves the cursor to the end of the text and forgets the selection.
    pub open spec fn end_of_line(self) -> (FieldState, Status) {
        (
            FieldState { cursor: self.end(), select: None, ..self },
            Status::cursor_if(!(self.cursor == self.end() && self.select is None)),
        )
    }

    /// Selects the whole text, with the cursor at its end.
    pub open spec fn select_all(self) -> (FieldState, Status) {
        let all = FieldState { cursor: self.end(), select: Some((0int, self.end())), ..self };
        if self.text.len() == 0 || self == all {
            (self, Status::Skipped)
        } else {
            (all, Status::UpdatedCursor)
        }
    }

    /// Puts the cursor at byte offset `to`, or at the end of the text if `to`
    /// lies behind it, and forgets the selection.
    pub open spec fn cursor_set(self, to: int) -> (FieldState, Status) {
        let target = if self.end() < to {
            self.end()
        } else {
            to
        };
        (
            FieldState { cursor: target, select: None, ..self },
            Status::cursor_if(self.select is Some || target != self.cursor),
        )
    }

    /// The byte range of the token at the cursor.
    pub open spec fn token(self) -> (int, int) {
        token_range(self.text, self.cursor)
    }

    /// Selects the token at the cursor and puts the cursor at its end.
    pub open spec fn select_token_at_cursor(self) -> (FieldState, Status) {
        let (start, end) = self.token();
        let picked = FieldState { cursor: end, select: Some((start, end)), ..self };
        if start >= end || self == picked {
            (self, Status::Skipped)
        } else {
            (picked, Status::UpdatedCursor)
        }
    }

    /// Replaces the token at the cursor by `new` and puts the cursor behind it.
    pub open spec fn replace_token(self, new: Seq<char>) -> FieldState {
        let (start, end) = self.token();
        FieldState {
            text: spliced(
                self.text,
                index_at(self.text, start),
                index_at(self.text, end),
                new,
            ),
            cursor: start + byte_len(new),
            select: None,
        }
    }
}

} // verus!
