//! The signal that every editing operation returns.
use vstd::prelude::*;
use vstd::std_specs::ops::AddSpecImpl;

verus! {

/// What an operation changed: nothing, the cursor or selection only, or the text.
#[derive(Default, PartialEq, Eq, PartialOrd, Ord, Debug, Clone, Copy)]
pub enum Status {
    #[default]
    Skipped,
    UpdatedCursor,
    Updated,
}

impl Status {
    /// Position in the order `Skipped < UpdatedCursor < Updated`.
    pub open spec fn rank(self) -> nat {
        match self {
            Status::Skipped => 0,
            Status::UpdatedCursor => 1,
            Status::Updated => 2,
        }
    }

    /// The greater of two signals.
    pub open spec fn combine(self, rhs: Status) -> Status {
        if self.rank() >= rhs.rank() {
            self
        } else {
            rhs
        }
    }

    /// `UpdatedCursor` if `moved`, else `Skipped`.
    pub open spec fn cursor_if(moved: bool) -> Status {
        if moved {
            Status::UpdatedCursor
        } else {
            Status::Skipped
        }
    }

    /// Whether anything changed, the cursor included.
    pub fn is_updated(&self) -> (r: bool)
        ensures
            r == (self.rank() >= 1),
    {
        match self {
            Self::Updated | Self::UpdatedCursor => true,
            Self::Skipped => false,
        }
    }

    /// Whether the text changed.
    pub fn is_text_updated(&self) -> (r: bool)
        ensures
            r == (*self == Status::Updated),
    {
        match self {
            Self::Updated => true,
            Self::UpdatedCursor | Self::Skipped => false,
        }
    }

    /// The greater of two signals, in executable code.
    pub fn merge(self, rhs: Status) -> (r: Status)
        ensures
            r == self.combine(rhs),
    {
        match (self, rhs) {
            (Status::Updated, _) => Status::Updated,
            (Status::UpdatedCursor, Status::Updated) => Status::Updated,
            (Status::UpdatedCursor, _) => Status::UpdatedCursor,
            (Status::Skipped, _) => rhs,
        }
    }
}

impl core::ops::Add for Status {
    type Output = Status;

    fn add(self, rhs: Status) -> (r: Status) {
        self.merge(rhs)
    }
}

impl AddSpecImpl for Status {
    open spec fn obeys_add_spec() -> bool {
        true
    }

    open spec fn add_req(self, rhs: Status) -> bool {
        true
    }

    open spec fn add_spec(self, rhs: Status) -> Status {
        self.combine(rhs)
    }
}

impl core::ops::AddAssign for Status {
    fn add_assign(&mut self, rhs: Status)
        ensures
            *final(self) == old(self).combine(rhs),
    {
        *self = self.merge(rhs);
    }
}

/// Combining is taking the maximum: it is commutative, associative and
/// idempotent, and `Skipped` changes nothing.
pub proof fn lemma_combine_is_max(a: Status, b: Status, c: Status)
    ensures
        a.combine(b).rank() == if a.rank() >= b.rank() {
            a.rank()
        } else {
            b.rank()
        },
        a.combine(b) == b.combine(a),
        a.combine(b).combine(c) == a.combine(b.combine(c)),
        a.combine(a) == a,
        a.combine(Status::Skipped) == a,
{
}

} // verus!
