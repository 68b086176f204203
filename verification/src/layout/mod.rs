//! Lines and rectangles of terminal cells.
pub mod borders;
pub mod frame;
pub mod iter;
pub mod line;
pub mod rect;

pub use borders::{BorderSet, Borders};
pub use iter::{DoublePaddedRectIter, IterLines, RectIter};
pub use line::{Line, LineBuilder, LineBuilderRev};
pub use rect::Rect;
