//! Key events and what the text field does on them.
use crate::text_field::model::FieldState;
use crate::text_field::status::Status;
use crate::text_field::TextField;
use vstd::prelude::*;
use vstd::std_specs::ops::BitOrSpecImpl;

verus! {

/// The key that was pressed, as far as the text field tells keys apart.
#[derive(Debug, Clone, Copy, PartialEq, Eq)]
pub enum KeyCode {
    /// A character key.
    Char(char),
    Delete,
    Backspace,
    Home,
    End,
    Left,
    Right,
    /// Any other key.
    Other,
}

/// The modifier keys held down with a key.
#[derive(Debug, Clone, Copy, PartialEq, Eq)]
pub struct KeyModifiers {
    pub shift: bool,
    pub control: bool,
    /// Any modifier but shift and control.
    pub other: bool,
}

impl KeyModifiers {
    /// No modifier.
    pub fn empty() -> (mods: Self)
        ensures
            mods == (KeyModifiers { shift: false, control: false, other: false }),
    {
        KeyModifiers { shift: false, control: false, other: false }
    }

    /// Shift alone.
    pub fn shift() -> (mods: Self)
        ensures
            mods == (KeyModifiers { shift: true, control: false, other: false }),
    {
        KeyModifiers { shift: true, control: false, other: false }
    }

    /// Control alone.
    pub fn control() -> (mods: Self)
        ensures
            mods == (KeyModifiers { shift: false, control: true, other: false }),
    {
        KeyModifiers { shift: false, control: true, other: false }
    }

    /// Both sets of modifiers together.
    pub open spec fn union(self, rhs: KeyModifiers) -> KeyModifiers {
        KeyModifiers {
            shift: self.shift || rhs.shift,
            control: self.control || rhs.control,
            other: self.other || rhs.other,
        }
    }

    /// Control and nothing else.
    pub open spec fn is_control_only(self) -> bool {
        self.control && !self.shift && !self.other
    }
}

impl core::ops::BitOr for KeyModifiers {
    type Output = KeyModifiers;

    fn bitor(self, rhs: KeyModifiers) -> (mods: KeyModifiers) {
        KeyModifiers {
            shift: self.shift || rhs.shift,
            control: self.control || rhs.control,
            other: self.other || rhs.other,
        }
    }
}

impl BitOrSpecImpl for KeyModifiers {
    open spec fn obeys_bitor_spec() -> bool {
        true
    }

    open spec fn bitor_req(self, rhs: KeyModifiers) -> bool {
        true
    }

    open spec fn bitor_spec(self, rhs: KeyModifiers) -> KeyModifiers {
        self.union(rhs)
    }
}

/// A key press: the key and the modifiers held with it.
#[derive(Debug, Clone, Copy, PartialEq, Eq)]
pub struct KeyEvent {
    pub code: KeyCode,
    pub modifiers: KeyModifiers,
}

impl KeyEvent {
    /// The press of `code` with `modifiers`.
    pub fn new(code: KeyCode, modifiers: KeyModifiers) -> (key: Self)
        ensures
            key == (KeyEvent { code, modifiers }),
    {
        KeyEvent { code, modifiers }
    }
}

impl FieldState {
    /// A move to the left: shift extends the selection, control jumps over a word.
    pub open spec fn move_left(self, mods: KeyModifiers) -> (FieldState, Status) {
        if mods.shift {
            if mods.control {
                self.select_jump_left()
            } else {
                self.select_left()
            }
        } else if mods.control {
            self.jump_left()
        } else {
            self.go_left()
        }
    }

    /// A move to the right: shift extends the selection, control jumps over a word.
    pub open spec fn move_right(self, mods: KeyModifiers) -> (FieldState, Status) {
        if mods.shift {
            if mods.control {
                self.select_jump_right()
            } else {
                self.select_right()
            }
        } else if mods.control {
            self.jump_right()
        } else {
            self.go_right()
        }
    }

    /// What a key press does; `None` for a key that the field does not handle.
    pub open spec fn map(self, key: KeyEvent) -> Option<(FieldState, Status)> {
        match key.code {
            KeyCode::Char(ch) => if (ch == 'a' || ch == 'A') && key.modifiers.is_control_only() {
                Some(self.select_all())
            } else if !key.modifiers.control {
                Some(self.push_char(ch))
            } else {
                None
            },
            KeyCode::Delete => Some(self.del()),
            KeyCode::Backspace => Some(self.backspace()),
            KeyCode::Home => Some(self.start_of_line()),
            KeyCode::End => Some(self.end_of_line()),
            KeyCode::Left => Some(self.move_left(key.modifiers)),
            KeyCode::Right => Some(self.move_right(key.modifiers)),
            KeyCode::Other => None,
        }
    }
}

impl TextField {
    /// Maps a key press to an edit or a move. Returns `None`, and changes
    /// nothing, for a key that is not mapped: copy, cut and paste are left
    /// to the caller.
    pub fn map(&mut self, key: KeyEvent) -> (r: Option<Status>)
        requires
            old(self)@.wf(),
        ensures
            match r {
                Some(status) => old(self)@.map(key) == Some((final(self)@, status)),
                None => old(self)@.map(key) is None && final(self)@ == old(self)@,
            },
            final(self)@.wf(),
    {
        match key.code {
            KeyCode::Char(ch) => {
                let mods = key.modifiers;
                if (ch == 'a' || ch == 'A') && mods.control && !mods.shift && !mods.other {
                    Some(self.select_all())
                } else if !mods.control {
                    Some(self.push_char(ch))
                } else {
                    None
                }
            },
            KeyCode::Delete => Some(self.del()),
            KeyCode::Backspace => Some(self.backspace()),
            KeyCode::Home => Some(self.start_of_line()),
            KeyCode::End => Some(self.end_of_line()),
            KeyCode::Left => Some(self.move_left(key.modifiers)),
            KeyCode::Right => Some(self.move_right(key.modifiers)),
            KeyCode::Other => None,
        }
    }

    fn move_left(&mut self, mods: KeyModifiers) -> (status: Status)
        requires
            old(self)@.wf(),
        ensures
            (final(self)@, status) == old(self)@.move_left(mods),
            final(self)@.wf(),
    {
        let should_select = mods.shift;
        let mut status = if should_select {
            self.init_select()
        } else {
            self.select_drop()
        };
        status = status.merge(self.prev_char());
        if mods.control {
            status = status.merge(self.jump_left_move());
        }
        if should_select {
            status = status.merge(self.push_select());
        }
        status
    }

    fn move_right(&mut self, mods: KeyModifiers) -> (status: Status)
        requires
            old(self)@.wf(),
        ensures
            (final(self)@, status) == old(self)@.move_right(mods),
            final(self)@.wf(),
    {
        let should_select = mods.shift;
        let mut status = if should_select {
            self.init_select()
        } else {
            self.select_drop()
        };
        status = status.merge(self.next_char());
        if mods.control {
            // where the cursor did not move it stands at the end, and the jump changes nothing
            proof {
                crate::utils::encoding::lemma_boundary_index(self@.text, self@.cursor);
            }
            self.jump_right_move();
        }
        if should_select {
            status = status.merge(self.push_select());
        }
        status
    }
}

} // verus!
