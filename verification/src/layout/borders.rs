//! The sides of a rectangle that carry a border, and the characters to draw them with.
use vstd::prelude::*;
use vstd::std_specs::ops::BitOrSpecImpl;

verus! {

/// A set of sides of a rectangle.
#[derive(Clone, Copy, Debug, PartialEq, Eq)]
pub struct Borders {
    pub top: bool,
    pub right: bool,
    pub bottom: bool,
    pub left: bool,
}

impl Default for Borders {
    fn default() -> (set: Self)
        ensures
            set == Borders::none(),
    {
        Borders { top: false, right: false, bottom: false, left: false }
    }
}

impl Borders {
    /// No side.
    pub open spec fn none() -> Borders {
        Borders { top: false, right: false, bottom: false, left: false }
    }

    /// All four sides.
    pub open spec fn every() -> Borders {
        Borders { top: true, right: true, bottom: true, left: true }
    }

    /// The sides of both sets.
    pub open spec fn union(self, other: Borders) -> Borders {
        Borders {
            top: self.top || other.top,
            right: self.right || other.right,
            bottom: self.bottom || other.bottom,
            left: self.left || other.left,
        }
    }

    /// Whether every side of `other` is in `self`.
    pub open spec fn includes(self, other: Borders) -> bool {
        &&& other.top ==> self.top
        &&& other.right ==> self.right
        &&& other.bottom ==> self.bottom
        &&& other.left ==> self.left
    }

    /// No side.
    pub fn empty() -> (set: Self)
        ensures
            set == Borders::none(),
    {
        Borders { top: false, right: false, bottom: false, left: false }
    }

    /// All four sides.
    pub fn all() -> (set: Self)
        ensures
            set == Borders::every(),
    {
        Borders { top: true, right: true, bottom: true, left: true }
    }

    /// The top side alone.
    pub fn top() -> (set: Self)
        ensures
            set == (Borders { top: true, ..Borders::none() }),
    {
        Borders { top: true, right: false, bottom: false, left: false }
    }

    /// The right side alone.
    pub fn right() -> (set: Self)
        ensures
            set == (Borders { right: true, ..Borders::none() }),
    {
        Borders { top: false, right: true, bottom: false, left: false }
    }

    /// The bottom side alone.
    pub fn bottom() -> (set: Self)
        ensures
            set == (Borders { bottom: true, ..Borders::none() }),
    {
        Borders { top: false, right: false, bottom: true, left: false }
    }

    /// The left side alone.
    pub fn left() -> (set: Self)
        ensures
            set == (Borders { left: true, ..Borders::none() }),
    {
        Borders { top: false, right: false, bottom: false, left: true }
    }

    /// Adds the sides of `other`.
    pub fn insert(&mut self, other: Borders)
        ensures
            *final(self) == old(self).union(other),
    {
        self.top = self.top || other.top;
        self.right = self.right || other.right;
        self.bottom = self.bottom || other.bottom;
        self.left = self.left || other.left;
    }

    /// Whether every side of `other` is in the set.
    pub fn contains(&self, other: Borders) -> (r: bool)
        ensures
            r == self.includes(other),
    {
        (!other.top || self.top) && (!other.right || self.right) && (!other.bottom || self.bottom)
            && (!other.left || self.left)
    }
}

impl core::ops::BitOr for Borders {
    type Output = Borders;

    fn bitor(self, rhs: Borders) -> (set: Borders) {
        Borders {
            top: self.top || rhs.top,
            right: self.right || rhs.right,
            bottom: self.bottom || rhs.bottom,
            left: self.left || rhs.left,
        }
    }
}

impl BitOrSpecImpl for Borders {
    open spec fn obeys_bitor_spec() -> bool {
        true
    }

    open spec fn bitor_req(self, rhs: Borders) -> bool {
        true
    }

    open spec fn bitor_spec(self, rhs: Borders) -> Borders {
        self.union(rhs)
    }
}

/// The pieces that a border is drawn with.
#[derive(Clone, Copy, Debug, PartialEq, Eq)]
pub struct BorderSet {
    pub top_left_qorner: &'static str,
    pub top_right_qorner: &'static str,
    pub bot_left_qorner: &'static str,
    pub bot_right_qorner: &'static str,
    pub vertical_left: &'static str,
    pub vertical_right: &'static str,
    pub horizontal_top: &'static str,
    pub horizontal_bot: &'static str,
}

impl BorderSet {
    /// Thin lines with square corners.
    pub open spec fn thin() -> BorderSet {
        BorderSet {
            top_left_qorner: "┌",
            top_right_qorner: "┐",
            bot_left_qorner: "└",
            bot_right_qorner: "┘",
            vertical_left: "│",
            vertical_right: "│",
            horizontal_top: "─",
            horizontal_bot: "─",
        }
    }

    /// Thin lines with square corners: the set that is drawn where none is given.
    pub fn borders() -> (set: Self)
        ensures
            set == BorderSet::thin(),
    {
        BorderSet {
            top_left_qorner: "┌",
            top_right_qorner: "┐",
            bot_left_qorner: "└",
            bot_right_qorner: "┘",
            vertical_left: "│",
            vertical_right: "│",
            horizontal_top: "─",
            horizontal_bot: "─",
        }
    }
}

} // verus!
