//! Styled text and lists on top of lines and rectangles.
pub mod flow;
pub mod state;
pub mod styled_line;
pub mod text;
pub mod wrap;
pub mod writable;

pub use state::{LineWriter, PlainText, State};
pub use styled_line::StyledLine;
pub use text::Text;
pub use writable::Writable;
