//! Terminal UI primitives: UTF-8 and display-width safe string helpers, a
//! line/rectangle layout algebra, a rendering backend abstraction with a
//! recording implementation, styled text widgets and a single-line text field.
pub mod backend;
pub mod layout;
pub mod text_field;
pub mod utils;
pub mod widgets;

pub use backend::Backend;
pub use utils::{UTFSafe, UTFSafeStringExt};

use crate::utils::decimal::{decimal, push_decimal};
use vstd::prelude::*;

verus! {

/// How a count is shown in three columns: right-aligned up to 99, "99+" beyond.
pub open spec fn count_text(len: usize) -> Seq<char> {
    if len < 10 {
        "  "@ + decimal(len as nat)
    } else if len < 100 {
        " "@ + decimal(len as nat)
    } else {
        "99+"@
    }
}

/// A count in three columns: right-aligned up to 99, "99+" beyond.
pub fn count_as_string(len: usize) -> (text: String)
    ensures
        text@ == count_text(len),
{
    if len < 10 {
        let mut text = "  ".to_owned();
        push_decimal(&mut text, len);
        text
    } else if len < 100 {
        let mut text = " ".to_owned();
        push_decimal(&mut text, len);
        text
    } else {
        "99+".to_owned()
    }
}

/// A cell of the screen.
#[derive(PartialEq, Eq, PartialOrd, Ord, Clone, Copy, Debug)]
pub struct Position {
    pub row: u16,
    pub col: u16,
}

} // verus!
