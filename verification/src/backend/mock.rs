//! A backend that records what it is asked to do, for tests.
use crate::backend::style::StyleExt;
use crate::backend::{Backend, Op};
use crate::layout::Rect;
use crate::utils::decimal::{decimal, label1, label2, push_decimal};
use vstd::string::StringExecFns;
use vstd::prelude::*;

verus! {

/// The style of the recording backend: two colors and six attributes.
#[derive(Debug, Clone, Copy, PartialEq)]
pub struct MockedStyle {
    pub fg: Option<usize>,
    pub bg: Option<usize>,
    pub bold: bool,
    pub ital: bool,
    pub reverse: bool,
    pub slowblink: bool,
    pub undercurle: bool,
    pub underline: bool,
}

impl MockedStyle {
    /// The style without colors and attributes.
    pub open spec fn plain() -> MockedStyle {
        MockedStyle {
            fg: None,
            bg: None,
            bold: false,
            ital: false,
            reverse: false,
            slowblink: false,
            undercurle: false,
            underline: false,
        }
    }

    /// `self` with the attribute numbered `attr` switched on or off; the
    /// attributes are numbered from 1: bold, italic, reverse, slow blink,
    /// undercurl, underline.
    pub open spec fn with_attr(self, attr: isize, on: bool) -> MockedStyle {
        if attr == 1 {
            MockedStyle { bold: on, ..self }
        } else if attr == 2 {
            MockedStyle { ital: on, ..self }
        } else if attr == 3 {
            MockedStyle { reverse: on, ..self }
        } else if attr == 4 {
            MockedStyle { slowblink: on, ..self }
        } else if attr == 5 {
            MockedStyle { undercurle: on, ..self }
        } else if attr == 6 {
            MockedStyle { underline: on, ..self }
        } else {
            self
        }
    }

    /// `self` with the colors of `rhs` and with the attributes of both.
    pub open spec fn updated(self, rhs: MockedStyle) -> MockedStyle {
        MockedStyle {
            fg: rhs.fg,
            bg: rhs.bg,
            bold: self.bold || rhs.bold,
            ital: self.ital || rhs.ital,
            reverse: self.reverse || rhs.reverse,
            slowblink: self.slowblink || rhs.slowblink,
            undercurle: self.undercurle || rhs.undercurle,
            underline: self.underline || rhs.underline,
        }
    }
}

impl Default for MockedStyle {
    fn default() -> (style: Self)
        ensures
            style == MockedStyle::plain(),
    {
        MockedStyle {
            fg: None,
            bg: None,
            bold: false,
            ital: false,
            reverse: false,
            slowblink: false,
            undercurle: false,
            underline: false,
        }
    }
}

impl StyleExt for MockedStyle {
    type Attribute = isize;

    type Color = usize;

    fn add_bold(&mut self)
        ensures
            *final(self) == old(self).with_attr(1, true),
    {
        self.bold = true;
    }

    fn add_ital(&mut self)
        ensures
            *final(self) == old(self).with_attr(2, true),
    {
        self.ital = true;
    }

    fn add_reverse(&mut self)
        ensures
            *final(self) == old(self).with_attr(3, true),
    {
        self.reverse = true;
    }

    fn add_slowblink(&mut self)
        ensures
            *final(self) == old(self).with_attr(4, true),
    {
        self.slowblink = true;
    }

    fn bg(color: usize) -> (style: Self)
        ensures
            style == (MockedStyle { bg: Some(color), ..MockedStyle::plain() }),
    {
        let mut style = MockedStyle::default();
        style.bg = Some(color);
        style
    }

    fn bold() -> (style: Self)
        ensures
            style == MockedStyle::plain().with_attr(1, true),
    {
        let mut style = MockedStyle::default();
        style.bold = true;
        style
    }

    fn drop_bg(&mut self)
        ensures
            *final(self) == (MockedStyle { bg: None, ..*old(self) }),
    {
        self.bg = None;
    }

    fn fg(color: usize) -> (style: Self)
        ensures
            style == (MockedStyle { fg: Some(color), ..MockedStyle::plain() }),
    {
        let mut style = MockedStyle::default();
        style.fg = Some(color);
        style
    }

    fn ital() -> (style: Self)
        ensures
            style == MockedStyle::plain().with_attr(2, true),
    {
        let mut style = MockedStyle::default();
        style.ital = true;
        style
    }

    fn reset_mods(&mut self)
        ensures
            *final(self) == (MockedStyle { fg: old(self).fg, bg: old(self).bg, ..MockedStyle::plain() }),
    {
        self.bold = false;
        self.ital = false;
        self.reverse = false;
        self.slowblink = false;
        self.undercurle = false;
        self.underline = false;
    }

    fn reversed() -> (style: Self)
        ensures
            style == MockedStyle::plain().with_attr(3, true),
    {
        let mut style = MockedStyle::default();
        style.reverse = true;
        style
    }

    fn set_attr(&mut self, attr: isize)
        ensures
            *final(self) == old(self).with_attr(attr, true),
    {
        self.switch(attr, true);
    }

    fn set_bg(&mut self, color: Option<usize>)
        ensures
            *final(self) == (MockedStyle { bg: color, ..*old(self) }),
    {
        self.bg = color;
    }

    fn set_fg(&mut self, color: Option<usize>)
        ensures
            *final(self) == (MockedStyle { fg: color, ..*old(self) }),
    {
        self.fg = color;
    }

    fn slowblink() -> (style: Self)
        ensures
            style == MockedStyle::plain().with_attr(4, true),
    {
        let mut style = MockedStyle::default();
        style.slowblink = true;
        style
    }

    fn undercurle(&mut self, _color: Option<usize>)
        ensures
            *final(self) == old(self).with_attr(5, true),
    {
        self.undercurle = true;
    }

    fn undercurled(_color: Option<usize>) -> (style: Self)
        ensures
            style == MockedStyle::plain().with_attr(5, true),
    {
        let mut style = MockedStyle::default();
        style.undercurle = true;
        style
    }

    fn underline(&mut self, _color: Option<usize>)
        ensures
            *final(self) == old(self).with_attr(6, true),
    {
        self.underline = true;
    }

    fn underlined(_color: Option<usize>) -> (style: Self)
        ensures
            style == MockedStyle::plain().with_attr(6, true),
    {
        let mut style = MockedStyle::default();
        style.underline = true;
        style
    }

    fn unset_attr(&mut self, attr: isize)
        ensures
            *final(self) == old(self).with_attr(attr, false),
    {
        self.switch(attr, false);
    }

    fn update(&mut self, rhs: Self)
        ensures
            *final(self) == old(self).updated(rhs),
    {
        self.bg = rhs.bg;
        self.fg = rhs.fg;
        self.bold = self.bold || rhs.bold;
        self.ital = self.ital || rhs.ital;
        self.reverse = self.reverse || rhs.reverse;
        self.slowblink = self.slowblink || rhs.slowblink;
        self.undercurle = self.undercurle || rhs.undercurle;
        self.underline = self.underline || rhs.underline;
    }

    fn with_bg(self, color: usize) -> (style: Self)
        ensures
            style == (MockedStyle { bg: Some(color), ..MockedStyle::plain() }),
    {
        MockedStyle::bg(color)
    }

    fn with_fg(self, color: usize) -> (style: Self)
        ensures
            style == (MockedStyle { fg: Some(color), ..MockedStyle::plain() }),
    {
        MockedStyle::fg(color)
    }
}

impl MockedStyle {
    fn switch(&mut self, attr: isize, on: bool)
        ensures
            *final(self) == old(self).with_attr(attr, on),
    {
        if attr == 1 {
            self.bold = on;
        } else if attr == 2 {
            self.ital = on;
        } else if attr == 3 {
            self.reverse = on;
        } else if attr == 4 {
            self.slowblink = on;
        } else if attr == 5 {
            self.undercurle = on;
        } else if attr == 6 {
            self.underline = on;
        }
    }
}


/// How a color of a style is written: `None`, or `Some` with the number.
pub open spec fn color_form(color: Option<usize>) -> Seq<char> {
    match color {
        Some(c) => "Some("@ + decimal(c as nat) + ")"@,
        None => "None"@,
    }
}

/// How an attribute of a style is written.
pub open spec fn flag_form(on: bool) -> Seq<char> {
    if on {
        "true"@
    } else {
        "false"@
    }
}

/// How a style is written in the record: the name of the type and every
/// field with its value, as `Debug` writes a struct.
pub open spec fn style_form(style: MockedStyle) -> Seq<char> {
    "MockedStyle { fg: "@ + color_form(style.fg) + ", bg: "@ + color_form(style.bg) + ", bold: "@
        + flag_form(style.bold) + ", ital: "@ + flag_form(style.ital) + ", reverse: "@ + flag_form(
        style.reverse,
    ) + ", slowblink: "@ + flag_form(style.slowblink) + ", undercurle: "@ + flag_form(
        style.undercurle,
    ) + ", underline: "@ + flag_form(style.underline) + " }"@
}

/// Appends a color to `out` as it is written in the record.
fn push_color(out: &mut String, color: Option<usize>)
    ensures
        final(out)@ == old(out)@ + color_form(color),
{
    match color {
        Some(c) => {
            out.append("Some(");
            push_decimal(out, c);
            out.append(")");
            proof {
                assert(out@ =~= old(out)@ + color_form(color));
            }
        },
        None => {
            out.append("None");
        },
    }
}

/// Appends an attribute to `out` as it is written in the record.
fn push_flag(out: &mut String, on: bool)
    ensures
        final(out)@ == old(out)@ + flag_form(on),
{
    if on {
        out.append("true");
    } else {
        out.append("false");
    }
}

impl MockedStyle {
    /// The style as it is written in the record.
    pub fn describe(&self) -> (text: String)
        ensures
            text@ == style_form(*self),
    {
        let mut text = "MockedStyle { fg: ".to_owned();
        push_color(&mut text, self.fg);
        text.append(", bg: ");
        push_color(&mut text, self.bg);
        text.append(", bold: ");
        push_flag(&mut text, self.bold);
        text.append(", ital: ");
        push_flag(&mut text, self.ital);
        text.append(", reverse: ");
        push_flag(&mut text, self.reverse);
        text.append(", slowblink: ");
        push_flag(&mut text, self.slowblink);
        text.append(", undercurle: ");
        push_flag(&mut text, self.undercurle);
        text.append(", underline: ");
        push_flag(&mut text, self.underline);
        text.append(" }");
        text
    }
}

/// What the recording backend notes for a move of the cursor.
pub open spec fn go_to_text(row: u16, col: u16) -> Seq<char> {
    "<<go to row: "@ + decimal(row as nat) + " col: "@ + decimal(col as nat) + ">>"@
}

/// What the recording backend notes for padding.
pub open spec fn pad_text(width: usize) -> Seq<char> {
    "<<padding: "@ + decimal(width as nat) + ">>"@
}

/// What the recording backend notes for padding in a style.
pub open spec fn pad_styled_text(width: usize, style: MockedStyle) -> Seq<char> {
    "<<padding: "@ + decimal(width as nat) + ", styled: "@ + style_form(style) + ">>"@
}

/// What the recording backend notes when the cursor is shown at a place.
pub open spec fn draw_cursor_text(row: u16, col: u16) -> Seq<char> {
    "<<draw cursor row: "@ + decimal(row as nat) + " col: "@ + decimal(col as nat) + ">>"@
}

/// What the recording backend notes for a new foreground (`head` tells which).
pub open spec fn color_text(head: Seq<char>, color: Option<usize>) -> Seq<char> {
    match color {
        Some(c) => head + "Some("@ + decimal(c as nat) + ")>>"@,
        None => head + "None>>"@,
    }
}

/// One entry of the record: the style in use and the text.
pub type Entry = (MockedStyle, Seq<char>);

/// A backend that prints nothing and keeps a record of the requests.
pub struct MockedBackend {
    data: Vec<(MockedStyle, String)>,
    default_style: MockedStyle,
    seen: Ghost<Seq<Op<MockedStyle, usize>>>,
}

impl MockedBackend {
    /// The record: one entry for each request that shows on the screen.
    pub closed spec fn entries(&self) -> Seq<Entry> {
        Seq::new(self.data@.len(), |i: int| (self.data@[i].0, self.data@[i].1@))
    }

    fn note(&mut self, style: MockedStyle, text: String, Ghost(op): Ghost<Op<MockedStyle, usize>>)
        ensures
            final(self).entries() == old(self).entries().push((style, text@)),
            final(self).trace() == old(self).trace().push(op),
            final(self).style() == old(self).style(),
    {
        self.data.push((style, text));
        self.seen = Ghost(self.seen@.push(op));
        proof {
            assert(self.entries() =~= old(self).entries().push((style, text@)));
        }
    }

    fn note_op(&mut self, Ghost(op): Ghost<Op<MockedStyle, usize>>)
        ensures
            final(self).entries() == old(self).entries(),
            final(self).trace() == old(self).trace().push(op),
            final(self).style() == old(self).style(),
    {
        self.seen = Ghost(self.seen@.push(op));
        proof {
            assert(self.entries() =~= old(self).entries());
        }
    }

    /// Hands the record out.
    pub fn unwrap(self) -> (data: Vec<(MockedStyle, String)>)
        ensures
            data@.len() == self.entries().len(),
            forall|i: int|
                0 <= i < data@.len() ==> (#[trigger] data@[i]).0 == self.entries()[i].0
                    && data@[i].1@ == self.entries()[i].1,
    {
        self.data
    }

    /// Hands the record out and starts a new one.
    pub fn drain(&mut self) -> (data: Vec<(MockedStyle, String)>)
        ensures
            data@.len() == old(self).entries().len(),
            forall|i: int|
                0 <= i < data@.len() ==> (#[trigger] data@[i]).0 == old(self).entries()[i].0
                    && data@[i].1@ == old(self).entries()[i].1,
            final(self).entries() == Seq::<Entry>::empty(),
            final(self).trace() == old(self).trace(),
            final(self).style() == old(self).style(),
    {
        let mut data = Vec::new();
        core::mem::swap(&mut self.data, &mut data);
        proof {
            assert(self.entries() =~= Seq::<Entry>::empty());
        }
        data
    }

    /// Hides the cursor without a backend at hand: nothing to record.
    pub fn detached_hide_cursor() {
    }

    /// Shows the cursor without a backend at hand: nothing to record.
    pub fn detached_show_cursor() {
    }
}

impl Backend for MockedBackend {
    type Style = MockedStyle;

    type Color = usize;

    closed spec fn trace(&self) -> Seq<Op<MockedStyle, usize>> {
        self.seen@
    }

    closed spec fn style(&self) -> MockedStyle {
        self.default_style
    }

    open spec fn merged(left: MockedStyle, right: MockedStyle) -> MockedStyle {
        left.updated(right)
    }

    open spec fn reversed() -> MockedStyle {
        MockedStyle::plain().with_attr(3, true)
    }

    fn init() -> (backend: Self)
        ensures
            backend.entries() == Seq::<Entry>::empty(),
            backend.trace() == Seq::<Op<MockedStyle, usize>>::empty(),
            backend.style() == MockedStyle::plain(),
    {
        let backend = Self {
            data: Vec::new(),
            default_style: MockedStyle::default(),
            seen: Ghost(Seq::empty()),
        };
        proof {
            assert(backend.entries() =~= Seq::<Entry>::empty());
        }
        backend
    }

    fn exit() -> (r: Result<(), std::io::Error>)
        ensures
            r is Ok,
    {
        Ok(())
    }

    fn screen() -> (r: Result<Rect, std::io::Error>)
        ensures
            r is Ok,
            r->Ok_0 == Rect::new_spec(0, 0, 120, 60),
    {
        Ok(Rect::new(0, 0, 120, 60))
    }

    fn freeze(&mut self)
        ensures
            final(self).entries() == old(self).entries().push(
                (MockedStyle::plain(), "<<freeze>>"@),
            ),
    {
        self.note(MockedStyle::default(), "<<freeze>>".to_owned(), Ghost(Op::Freeze));
    }

    fn unfreeze(&mut self)
        ensures
            final(self).entries() == old(self).entries().push(
                (MockedStyle::plain(), "<<unfreeze>>"@),
            ),
    {
        self.note(MockedStyle::default(), "<<unfreeze>>".to_owned(), Ghost(Op::Unfreeze));
    }

    fn flush_buf(&mut self)
        ensures
            final(self).entries() == old(self).entries(),
    {
        self.note_op(Ghost(Op::FlushBuf));
    }

    fn clear_all(&mut self)
        ensures
            final(self).entries() == old(self).entries().push(
                (MockedStyle::plain(), "<<clear all>>"@),
            ),
    {
        self.note(MockedStyle::default(), "<<clear all>>".to_owned(), Ghost(Op::ClearAll));
    }

    fn clear_line(&mut self)
        ensures
            final(self).entries() == old(self).entries().push(
                (MockedStyle::plain(), "<<clear line>>"@),
            ),
    {
        self.note(MockedStyle::default(), "<<clear line>>".to_owned(), Ghost(Op::ClearLine));
    }

    fn clear_to_eol(&mut self)
        ensures
            final(self).entries() == old(self).entries().push(
                (MockedStyle::plain(), "<<clear EOL>>"@),
            ),
    {
        self.note(MockedStyle::default(), "<<clear EOL>>".to_owned(), Ghost(Op::ClearToEol));
    }

    fn get_style(&mut self) -> (style: MockedStyle)
        ensures
            final(self).entries() == old(self).entries(),
    {
        proof {
            assert(self.entries() =~= old(self).entries());
        }
        self.default_style
    }

    fn go_to(&mut self, row: u16, col: u16)
        ensures
            final(self).entries() == old(self).entries().push(
                (MockedStyle::plain(), go_to_text(row, col)),
            ),
    {
        let text = label2("<<go to row: ", row as usize, " col: ", col as usize, ">>");
        self.note(MockedStyle::default(), text, Ghost(Op::GoTo { row, col }));
    }

    fn hide_cursor(&mut self)
        ensures
            final(self).entries() == old(self).entries(),
    {
        self.note_op(Ghost(Op::HideCursor));
    }

    fn print(&mut self, text: &str)
        ensures
            final(self).entries() == old(self).entries().push((old(self).style(), text@)),
    {
        self.note(self.default_style, text.to_owned(), Ghost(Op::Print(text@)));
    }

    fn print_at(&mut self, row: u16, col: u16, text: &str)
        ensures
            final(self).entries() == old(self).entries().push(
                (MockedStyle::plain(), go_to_text(row, col)),
            ).push((old(self).style(), text@)),
    {
        self.go_to(row, col);
        self.print(text)
    }

    fn print_styled(&mut self, text: &str, style: MockedStyle)
        ensures
            final(self).entries() == old(self).entries().push((style, text@)),
    {
        self.note(style, text.to_owned(), Ghost(Op::PrintStyled(text@, style)));
    }

    fn print_styled_at(&mut self, row: u16, col: u16, text: &str, style: MockedStyle)
        ensures
            final(self).entries() == old(self).entries().push(
                (MockedStyle::plain(), go_to_text(row, col)),
            ).push((style, text@)),
    {
        self.go_to(row, col);
        self.print_styled(text, style);
    }

    fn render_cursor_at(&mut self, row: u16, col: u16)
        ensures
            final(self).entries() == old(self).entries().push(
                (old(self).style(), draw_cursor_text(row, col)),
            ),
    {
        let text = label2("<<draw cursor row: ", row as usize, " col: ", col as usize, ">>");
        self.note(self.default_style, text, Ghost(Op::RenderCursorAt { row, col }));
    }

    fn reset_style(&mut self)
        ensures
            final(self).style() == MockedStyle::plain(),
            final(self).entries() == old(self).entries().push(
                (MockedStyle::plain(), "<<reset style>>"@),
            ),
    {
        self.default_style = MockedStyle::default();
        proof {
            assert(self.entries() =~= old(self).entries());
        }
        self.note(self.default_style, "<<reset style>>".to_owned(), Ghost(Op::ResetStyle));
    }

    fn restore_cursor(&mut self)
        ensures
            final(self).entries() == old(self).entries().push(
                (old(self).style(), "<<restored cursor>>"@),
            ),
    {
        self.note(
            self.default_style,
            "<<restored cursor>>".to_owned(),
            Ghost(Op::RestoreCursor),
        );
    }

    fn save_cursor(&mut self)
        ensures
            final(self).entries() == old(self).entries().push(
                (old(self).style(), "<<saved cursor>>"@),
            ),
    {
        self.note(self.default_style, "<<saved cursor>>".to_owned(), Ghost(Op::SaveCursor));
    }

    fn set_bg(&mut self, color: Option<usize>)
        ensures
            final(self).style() == (MockedStyle { bg: color, ..old(self).style() }),
            final(self).entries() == old(self).entries().push(
                (final(self).style(), color_text("<<set bg "@, color)),
            ),
    {
        self.default_style.set_bg(color);
        proof {
            assert(self.entries() =~= old(self).entries());
        }
        let text = match color {
            Some(c) => label1("<<set bg Some(", c, ")>>"),
            None => "<<set bg None>>".to_owned(),
        };
        proof {
            reveal_strlit("<<set bg ");
            reveal_strlit("Some(");
            reveal_strlit("None>>");
            reveal_strlit("<<set bg Some(");
            reveal_strlit("<<set bg None>>");
            assert(text@ =~= color_text("<<set bg "@, color));
        }
        self.note(self.default_style, text, Ghost(Op::SetBg(color)));
    }

    fn set_fg(&mut self, color: Option<usize>)
        ensures
            final(self).style() == (MockedStyle { fg: color, ..old(self).style() }),
            final(self).entries() == old(self).entries().push(
                (final(self).style(), color_text("<<set fg "@, color)),
            ),
    {
        self.default_style.set_fg(color);
        proof {
            assert(self.entries() =~= old(self).entries());
        }
        let text = match color {
            Some(c) => label1("<<set fg Some(", c, ")>>"),
            None => "<<set fg None>>".to_owned(),
        };
        proof {
            reveal_strlit("<<set fg ");
            reveal_strlit("Some(");
            reveal_strlit("None>>");
            reveal_strlit("<<set fg Some(");
            reveal_strlit("<<set fg None>>");
            assert(text@ =~= color_text("<<set fg "@, color));
        }
        self.note(self.default_style, text, Ghost(Op::SetFg(color)));
    }

    fn set_style(&mut self, style: MockedStyle)
        ensures
            final(self).entries() == old(self).entries().push((style, "<<set style>>"@)),
    {
        self.default_style = style;
        proof {
            assert(self.entries() =~= old(self).entries());
        }
        self.data.push((style, "<<set style>>".to_owned()));
        self.seen = Ghost(self.seen@.push(Op::SetStyle(style)));
        proof {
            assert(self.entries() =~= old(self).entries().push((style, "<<set style>>"@)));
        }
    }

    fn show_cursor(&mut self)
        ensures
            final(self).entries() == old(self).entries(),
    {
        self.note_op(Ghost(Op::ShowCursor));
    }

    fn to_set_style(&mut self)
        ensures
            final(self).entries() == old(self).entries().push(
                (old(self).style(), "<<set style>>"@),
            ),
    {
        self.note(self.default_style, "<<set style>>".to_owned(), Ghost(Op::ToSetStyle));
    }

    fn update_style(&mut self, style: MockedStyle)
        ensures
            final(self).style() == old(self).style().updated(style),
            final(self).entries() == old(self).entries().push(
                (final(self).style(), "<<updated style>>"@),
            ),
    {
        self.default_style.update(style);
        proof {
            assert(self.entries() =~= old(self).entries());
        }
        self.data.push((self.default_style, "<<updated style>>".to_owned()));
        self.seen = Ghost(self.seen@.push(Op::UpdateStyle(style)));
        proof {
            assert(self.entries() =~= old(self).entries().push(
                (self.default_style, "<<updated style>>"@),
            ));
        }
    }

    fn pad(&mut self, width: usize)
        ensures
            final(self).entries() == old(self).entries().push((old(self).style(), pad_text(width))),
    {
        let text = label1("<<padding: ", width, ">>");
        self.note(self.default_style, text, Ghost(Op::Pad(width)));
    }

    fn pad_styled(&mut self, width: usize, style: MockedStyle)
        ensures
            final(self).entries() == old(self).entries().push(
                (old(self).style(), pad_styled_text(width, style)),
            ),
    {
        let mut text = label1("<<padding: ", width, ", styled: ");
        let looks = style.describe();
        text.append(looks.as_str());
        text.append(">>");
        self.note(self.default_style, text, Ghost(Op::PadStyled(width, style)));
    }

    fn merge_style(left: MockedStyle, right: MockedStyle) -> (style: MockedStyle) {
        let mut left = left;
        left.update(right);
        left
    }

    fn reversed_style() -> (style: MockedStyle) {
        MockedStyle::reversed()
    }

    fn bold_style() -> (style: MockedStyle)
        ensures
            style == MockedStyle::plain().with_attr(1, true),
    {
        MockedStyle::bold()
    }

    fn slow_blink_style() -> (style: MockedStyle)
        ensures
            style == MockedStyle::plain().with_attr(4, true),
    {
        MockedStyle::slowblink()
    }

    fn ital_style() -> (style: MockedStyle)
        ensures
            style == MockedStyle::plain().with_attr(2, true),
    {
        MockedStyle::ital()
    }

    fn undercurle_style(color: Option<usize>) -> (style: MockedStyle)
        ensures
            style == MockedStyle::plain().with_attr(5, true),
    {
        MockedStyle::undercurled(color)
    }

    fn underline_style(color: Option<usize>) -> (style: MockedStyle)
        ensures
            style == MockedStyle::plain().with_attr(6, true),
    {
        MockedStyle::underlined(color)
    }

    fn bg_style(color: usize) -> (style: MockedStyle)
        ensures
            style == (MockedStyle { bg: Some(color), ..MockedStyle::plain() }),
    {
        MockedStyle::bg(color)
    }

    fn fg_style(color: usize) -> (style: MockedStyle)
        ensures
            style == (MockedStyle { fg: Some(color), ..MockedStyle::plain() }),
    {
        MockedStyle::fg(color)
    }
}

} // verus!
