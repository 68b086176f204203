//! The rendering backend: what the widgets ask of a terminal.
//!
//! A backend takes a sequence of instructions: move the cursor, print text,
//! pad with blanks, change the style. The contracts of everything that renders
//! say which instructions the backend receives, in which order.
pub mod background;
pub mod color;
pub mod json;
pub mod mock;
pub mod style;

pub use background::{background_rgb, parse_colorfgbg, parse_osc_rgb, serialize_rgb};
pub use color::{
    from_str, object_to_u8, parse_color, parse_raw_rgb, pull_color, Color, ParseColorError,
};
pub use json::JsonValue;
pub use mock::{MockedBackend, MockedStyle};
pub use style::StyleExt;

use crate::layout::Rect;
use vstd::prelude::*;

verus! {

/// Message for a failed write to the terminal.
pub const ERR_MSG: &'static str = "Rendering (Stdout) Err:";

/// `std::io::Error`, which a backend reports when the terminal cannot be set
/// up or asked; it is handed on as it is, and nothing is known of what it holds.
#[verifier::external_type_specification]
#[verifier::external_body]
pub struct ExIoError(std::io::Error);

/// One instruction that a backend received.
pub enum Op<S, C> {
    /// Move the cursor.
    GoTo { row: u16, col: u16 },
    /// Print text in the style that is set.
    Print(Seq<char>),
    /// Print text in a style of its own; the style that is set stays.
    PrintStyled(Seq<char>, S),
    /// Print blanks in the style that is set.
    Pad(usize),
    /// Print blanks in a style of their own.
    PadStyled(usize, S),
    /// Set the style for what is printed from now on.
    SetStyle(S),
    /// Update the style that is set by another.
    UpdateStyle(S),
    /// Send the style that is set again.
    ToSetStyle,
    /// Go back to the terminal's own style.
    ResetStyle,
    /// Set the foreground of the style that is set, or take it away.
    SetFg(Option<C>),
    /// Set the background of the style that is set, or take it away.
    SetBg(Option<C>),
    /// Remember where the cursor is.
    SaveCursor,
    /// Put the cursor back where it was remembered.
    RestoreCursor,
    /// Show the cursor at a place.
    RenderCursorAt { row: u16, col: u16 },
    /// Show the cursor.
    ShowCursor,
    /// Hide the cursor.
    HideCursor,
    /// Hold updates back.
    Freeze,
    /// Let updates through.
    Unfreeze,
    /// Send what is buffered.
    FlushBuf,
    /// Clear from the cursor to the end of the line.
    ClearToEol,
    /// Clear the line of the cursor.
    ClearLine,
    /// Clear the screen.
    ClearAll,
}

/// The instructions that a backend of type `B` receives.
pub type Trace<B> = Seq<Op<<B as Backend>::Style, <B as Backend>::Color>>;

/// A terminal to render on. Writing to it is taken to succeed: a backend
/// that cannot write stops the program.
///
/// Every method says how the record of the instructions grows. The recording
/// backend of this crate is proved to keep its record that way; of any other
/// backend the library takes it for granted.
pub trait Backend: Sized {
    /// How text looks.
    type Style: Copy;

    /// A colour of a style.
    type Color: Copy;

    /// The instructions received so far.
    spec fn trace(&self) -> Seq<Op<Self::Style, Self::Color>>;

    /// The style that is set: the one that `print` and `pad` use.
    spec fn style(&self) -> Self::Style;

    /// What `merge_style` makes of two styles.
    spec fn merged(left: Self::Style, right: Self::Style) -> Self::Style;

    /// The style that `reversed_style` returns.
    spec fn reversed() -> Self::Style;

    /// Sets the terminal up.
    fn init() -> Self;

    /// Gives the terminal back.
    fn exit() -> Result<(), std::io::Error>;

    /// The whole screen.
    fn screen() -> Result<Rect, std::io::Error>;

    /// Holds updates back while a frame is built.
    fn freeze(&mut self)
        ensures
            final(self).trace() == old(self).trace().push(Op::Freeze),
            final(self).style() == old(self).style(),
    ;

    /// Lets the frame through.
    fn unfreeze(&mut self)
        ensures
            final(self).trace() == old(self).trace().push(Op::Unfreeze),
            final(self).style() == old(self).style(),
    ;

    /// Sends what is buffered.
    fn flush_buf(&mut self)
        ensures
            final(self).trace() == old(self).trace().push(Op::FlushBuf),
            final(self).style() == old(self).style(),
    ;

    /// Clears from the cursor to the end of the line.
    fn clear_to_eol(&mut self)
        ensures
            final(self).trace() == old(self).trace().push(Op::ClearToEol),
            final(self).style() == old(self).style(),
    ;

    /// Clears the line of the cursor.
    fn clear_line(&mut self)
        ensures
            final(self).trace() == old(self).trace().push(Op::ClearLine),
            final(self).style() == old(self).style(),
    ;

    /// Clears the screen.
    fn clear_all(&mut self)
        ensures
            final(self).trace() == old(self).trace().push(Op::ClearAll),
            final(self).style() == old(self).style(),
    ;

    /// Remembers where the cursor is.
    fn save_cursor(&mut self)
        ensures
            final(self).trace() == old(self).trace().push(Op::SaveCursor),
            final(self).style() == old(self).style(),
    ;

    /// Puts the cursor back where `save_cursor` found it.
    fn restore_cursor(&mut self)
        ensures
            final(self).trace() == old(self).trace().push(Op::RestoreCursor),
            final(self).style() == old(self).style(),
    ;

    /// Sets the style for `print` and `pad`.
    fn set_style(&mut self, style: Self::Style)
        ensures
            final(self).trace() == old(self).trace().push(Op::SetStyle(style)),
            final(self).style() == style,
    ;

    /// The style that is set.
    fn get_style(&mut self) -> (style: Self::Style)
        ensures
            style == old(self).style(),
            final(self).trace() == old(self).trace(),
            final(self).style() == old(self).style(),
    ;

    /// Sends the style that is set to the terminal again.
    fn to_set_style(&mut self)
        ensures
            final(self).trace() == old(self).trace().push(Op::ToSetStyle),
            final(self).style() == old(self).style(),
    ;

    /// Updates the style that is set by `style`.
    fn update_style(&mut self, style: Self::Style)
        ensures
            final(self).trace() == old(self).trace().push(Op::UpdateStyle(style)),
    ;

    /// Sets the foreground of the style that is set.
    fn set_fg(&mut self, color: Option<Self::Color>)
        ensures
            final(self).trace() == old(self).trace().push(Op::SetFg(color)),
    ;

    /// Sets the background of the style that is set.
    fn set_bg(&mut self, color: Option<Self::Color>)
        ensures
            final(self).trace() == old(self).trace().push(Op::SetBg(color)),
    ;

    /// Goes back to the terminal's own style.
    fn reset_style(&mut self)
        ensures
            final(self).trace() == old(self).trace().push(Op::ResetStyle),
    ;

    /// Moves the cursor.
    fn go_to(&mut self, row: u16, col: u16)
        ensures
            final(self).trace() == old(self).trace().push(Op::GoTo { row, col }),
            final(self).style() == old(self).style(),
    ;

    /// Shows the cursor at a place.
    fn render_cursor_at(&mut self, row: u16, col: u16)
        ensures
            final(self).trace() == old(self).trace().push(Op::RenderCursorAt { row, col }),
            final(self).style() == old(self).style(),
    ;

    /// Shows the cursor.
    fn show_cursor(&mut self)
        ensures
            final(self).trace() == old(self).trace().push(Op::ShowCursor),
            final(self).style() == old(self).style(),
    ;

    /// Hides the cursor.
    fn hide_cursor(&mut self)
        ensures
            final(self).trace() == old(self).trace().push(Op::HideCursor),
            final(self).style() == old(self).style(),
    ;

    /// Prints `text` at the cursor in the style that is set.
    fn print(&mut self, text: &str)
        ensures
            final(self).trace() == old(self).trace().push(Op::Print(text@)),
            final(self).style() == old(self).style(),
    ;

    /// Moves the cursor and prints `text` there.
    fn print_at(&mut self, row: u16, col: u16, text: &str)
        ensures
            final(self).trace() == old(self).trace().push(Op::GoTo { row, col }).push(
                Op::Print(text@),
            ),
            final(self).style() == old(self).style(),
    ;

    /// Prints `text` in `style`; the style that is set stays as it is.
    fn print_styled(&mut self, text: &str, style: Self::Style)
        ensures
            final(self).trace() == old(self).trace().push(Op::PrintStyled(text@, style)),
            final(self).style() == old(self).style(),
    ;

    /// Moves the cursor and prints `text` there in `style`.
    fn print_styled_at(&mut self, row: u16, col: u16, text: &str, style: Self::Style)
        ensures
            final(self).trace() == old(self).trace().push(Op::GoTo { row, col }).push(
                Op::PrintStyled(text@, style),
            ),
            final(self).style() == old(self).style(),
    ;

    /// Prints `width` blanks.
    fn pad(&mut self, width: usize)
        ensures
            final(self).trace() == old(self).trace().push(Op::Pad(width)),
            final(self).style() == old(self).style(),
    ;

    /// Prints `width` blanks in `style`.
    fn pad_styled(&mut self, width: usize, style: Self::Style)
        ensures
            final(self).trace() == old(self).trace().push(Op::PadStyled(width, style)),
            final(self).style() == old(self).style(),
    ;

    /// `left`, updated by `right`.
    fn merge_style(left: Self::Style, right: Self::Style) -> (style: Self::Style)
        ensures
            style == Self::merged(left, right),
    ;

    /// The style that swaps foreground and background.
    fn reversed_style() -> (style: Self::Style)
        ensures
            style == Self::reversed(),
    ;

    /// A style that is bold and nothing else.
    fn bold_style() -> Self::Style;

    /// A style that is italic and nothing else.
    fn ital_style() -> Self::Style;

    /// A style that blinks slowly and nothing else.
    fn slow_blink_style() -> Self::Style;

    /// A style that underlines, in `color` if one is given.
    fn underline_style(color: Option<Self::Color>) -> Self::Style;

    /// A style that underlines with a curled line, in `color` if one is given.
    fn undercurle_style(color: Option<Self::Color>) -> Self::Style;

    /// A style with `color` as foreground and nothing else.
    fn fg_style(color: Self::Color) -> Self::Style;

    /// A style with `color` as background and nothing else.
    fn bg_style(color: Self::Color) -> Self::Style;
}

} // verus!
