//! One row of terminal cells, and builders that fill it piece by piece.
use crate::backend::{Backend, Op};
use crate::utils::width::{cols, fit_len, fit_len_back};
use crate::utils::UTFSafe;
use crate::widgets::writable::Writable;
use vstd::prelude::*;

verus! {

/// A run of cells in one row: `width` cells from column `col` on.
#[derive(Debug, Clone, Copy, PartialEq)]
pub struct Line {
    pub row: u16,
    pub col: u16,
    pub width: usize,
}

impl Default for Line {
    fn default() -> (line: Self)
        ensures
            line == (Line { row: 0, col: 0, width: 0 }),
    {
        Line { row: 0, col: 0, width: 0 }
    }
}

/// The longest prefix of `text` that fits into `width` columns.
pub open spec fn head_fit(text: Seq<char>, width: usize) -> Seq<char> {
    text.take(fit_len(text, width as nat) as int)
}

/// The longest suffix of `text` that fits into `width` columns.
pub open spec fn tail_fit(text: Seq<char>, width: usize) -> Seq<char> {
    text.skip(text.len() - fit_len_back(text, width as nat))
}

/// `ops`, and padding behind it unless `pad` is 0.
pub open spec fn then_pad<S, C>(ops: Seq<Op<S, C>>, pad: int) -> Seq<Op<S, C>> {
    if pad != 0 {
        ops.push(Op::Pad(pad as usize))
    } else {
        ops
    }
}

/// `text` repeated: `width` times the character `symbol`.
pub open spec fn repeated(symbol: char, width: usize) -> Seq<char> {
    Seq::new(width as nat, |i: int| symbol)
}

impl Line {
    /// The line ends within the columns that a `u16` can number.
    pub open spec fn in_range(self) -> bool {
        self.col + self.width <= u16::MAX
    }

    /// The empty line at the origin.
    pub fn empty() -> (line: Self)
        ensures
            line == (Line { row: 0, col: 0, width: 0 }),
    {
        Line { row: 0, col: 0, width: 0 }
    }

    /// What `render_centered` prints behind the move of the cursor: `text`
    /// cut to the line, with the padding shared between both sides, the
    /// greater half in front.
    pub open spec fn centered_ops<S, C>(self, text: Seq<char>) -> Seq<Op<S, C>> {
        let fit = head_fit(text, self.width);
        let pad = self.width - cols(fit);
        if pad == 0 {
            seq![Op::Print(fit)]
        } else if pad == 1 {
            seq![Op::Print(fit), Op::Pad(1)]
        } else {
            seq![Op::Pad((pad / 2 + pad % 2) as usize), Op::Print(fit), Op::Pad((pad / 2) as usize)]
        }
    }

    /// What `render` sends to the backend: the move to the line, `text` cut to
    /// the line, and the padding of what is left.
    pub open spec fn render_ops<S, C>(self, text: Seq<char>) -> Seq<Op<S, C>> {
        then_pad(
            seq![Op::GoTo { row: self.row, col: self.col }, Op::Print(head_fit(text, self.width))],
            self.width - cols(head_fit(text, self.width)),
        )
    }

    /// What `render_styled` sends to the backend: as `render`, between
    /// setting `style` and setting the style `restore` again.
    pub open spec fn render_styled_ops<S, C>(self, text: Seq<char>, style: S, restore: S) -> Seq<
        Op<S, C>,
    > {
        then_pad(
            seq![
                Op::SetStyle(style),
                Op::GoTo { row: self.row, col: self.col },
                Op::Print(head_fit(text, self.width)),
            ],
            self.width - cols(head_fit(text, self.width)),
        ).push(Op::SetStyle(restore))
    }

    /// What `render_empty` sends to the backend.
    pub open spec fn empty_ops<S, C>(self) -> Seq<Op<S, C>> {
        seq![Op::GoTo { row: self.row, col: self.col }, Op::Pad(self.width)]
    }

    /// Fills the line with `symbol`.
    pub fn fill<B: Backend>(self, symbol: char, backend: &mut B)
        ensures
            final(backend).trace() == old(backend).trace().push(
                Op::GoTo { row: self.row, col: self.col },
            ).push(Op::Print(repeated(symbol, self.width))),
            final(backend).style() == old(backend).style(),
    {
        let text = repeat_char(symbol, self.width);
        backend.print_at(self.row, self.col, text.as_str());
    }

    /// Fills the line with `symbol` in `style`.
    pub fn fill_styled<B: Backend>(self, symbol: char, style: B::Style, backend: &mut B)
        ensures
            final(backend).trace() == old(backend).trace().push(
                Op::GoTo { row: self.row, col: self.col },
            ).push(Op::PrintStyled(repeated(symbol, self.width), style)),
            final(backend).style() == old(backend).style(),
    {
        let text = repeat_char(symbol, self.width);
        backend.print_styled_at(self.row, self.col, text.as_str(), style);
    }

    /// Prints `text` in the middle of the line, cut at the end if it is too wide.
    pub fn render_centered<B: Backend>(self, text: &str, backend: &mut B)
        ensures
            final(backend).trace() == old(backend).trace().push(
                Op::GoTo { row: self.row, col: self.col },
            ) + self.centered_ops(text@),
            final(backend).style() == old(backend).style(),
    {
        let (remaining_width, cut) = text.truncate_width(self.width);
        backend.go_to(self.row, self.col);
        let ghost start = backend.trace();
        if remaining_width == 0 {
            backend.print(cut);
        } else if remaining_width == 1 {
            backend.print(cut);
            backend.pad(1);
        } else {
            let right_pad = remaining_width / 2;
            backend.pad(right_pad + (remaining_width % 2));
            backend.print(cut);
            backend.pad(right_pad);
        }
        proof {
            assert(backend.trace() =~= start + self.centered_ops::<B::Style, B::Color>(text@));
        }
    }

    /// Prints `text` in `style` in the middle of the line; the style that was
    /// set is set again afterwards.
    pub fn render_centered_styled<B: Backend>(self, text: &str, style: B::Style, backend: &mut B)
        ensures
            final(backend).trace() == (old(backend).trace().push(Op::SetStyle(style)).push(
                Op::GoTo { row: self.row, col: self.col },
            ) + self.centered_ops(text@)).push(Op::SetStyle(old(backend).style())),
            final(backend).style() == old(backend).style(),
    {
        let (remaining_width, cut) = text.truncate_width(self.width);
        let restore_style = backend.get_style();
        backend.set_style(style);
        backend.go_to(self.row, self.col);
        let ghost start = backend.trace();
        if remaining_width == 0 {
            backend.print(cut);
        } else if remaining_width == 1 {
            backend.print(cut);
            backend.pad(1);
        } else {
            let right_pad = remaining_width / 2;
            backend.pad(right_pad + (remaining_width % 2));
            backend.print(cut);
            backend.pad(right_pad);
        }
        proof {
            assert(backend.trace() =~= start + self.centered_ops::<B::Style, B::Color>(text@));
        }
        backend.set_style(restore_style);
    }

    /// Prints `text` at the right end of the line, cut at the start if it is too wide.
    pub fn render_left<B: Backend>(self, text: &str, backend: &mut B)
        ensures
            final(backend).trace() == then_pad(
                old(backend).trace().push(Op::GoTo { row: self.row, col: self.col }),
                self.width - cols(tail_fit(text@, self.width)),
            ).push(Op::Print(tail_fit(text@, self.width))),
            final(backend).style() == old(backend).style(),
    {
        let (pad_width, text) = text.truncate_width_start(self.width);
        backend.go_to(self.row, self.col);
        if pad_width != 0 {
            backend.pad(pad_width);
        }
        backend.print(text);
    }

    /// Prints `text` in `style` at the right end of the line.
    pub fn render_left_styled<B: Backend>(self, text: &str, style: B::Style, backend: &mut B)
        ensures
            final(backend).trace() == then_pad(
                old(backend).trace().push(Op::GoTo { row: self.row, col: self.col }),
                self.width - cols(tail_fit(text@, self.width)),
            ).push(Op::PrintStyled(tail_fit(text@, self.width), style)),
            final(backend).style() == old(backend).style(),
    {
        let (pad_width, text) = text.truncate_width_start(self.width);
        backend.go_to(self.row, self.col);
        if pad_width != 0 {
            backend.pad(pad_width);
        }
        backend.print_styled(text, style);
    }

    /// Blanks the line.
    pub fn render_empty<B: Backend>(self, backend: &mut B)
        ensures
            final(backend).trace() == old(backend).trace() + self.empty_ops(),
            final(backend).style() == old(backend).style(),
    {
        backend.go_to(self.row, self.col);
        backend.pad(self.width);
        proof {
            assert(backend.trace() =~= old(backend).trace() + self.empty_ops::<
                B::Style,
                B::Color,
            >());
        }
    }

    /// Prints `text` from the start of the line, cut at the end if it is too
    /// wide, and pads the rest.
    pub fn render<B: Backend>(self, text: &str, backend: &mut B)
        ensures
            final(backend).trace() == old(backend).trace() + self.render_ops(text@),
            final(backend).style() == old(backend).style(),
    {
        let Line { width, row, col } = self;
        let (pad_width, cut) = text.truncate_width(width);
        backend.go_to(row, col);
        backend.print(cut);
        if pad_width != 0 {
            backend.pad(pad_width);
        }
        proof {
            assert(backend.trace() =~= old(backend).trace() + self.render_ops::<
                B::Style,
                B::Color,
            >(text@));
        }
    }

    /// Prints `text` in `style` from the start of the line and pads the rest;
    /// the style that was set is set again afterwards.
    pub fn render_styled<B: Backend>(self, text: &str, style: B::Style, backend: &mut B)
        ensures
            final(backend).trace() == old(backend).trace() + self.render_styled_ops(
                text@,
                style,
                old(backend).style(),
            ),
            final(backend).style() == old(backend).style(),
    {
        let Line { width, row, col } = self;
        let (pad_width, cut) = text.truncate_width(width);
        let reset_style = backend.get_style();
        backend.set_style(style);
        backend.go_to(row, col);
        backend.print(cut);
        if pad_width != 0 {
            backend.pad(pad_width);
        }
        backend.set_style(reset_style);
        proof {
            assert(backend.trace() =~= old(backend).trace() + self.render_styled_ops::<
                B::Style,
                B::Color,
            >(text@, style, old(backend).style()));
        }
    }

    /// Splits the line behind its first `idx` cells; behind the end the second part is empty.
    pub fn split_rel(self, idx: usize) -> (parts: (Self, Self))
        requires
            self.in_range(),
        ensures
            parts.0 == (Line { width: if idx < self.width { idx } else { self.width }, ..self }),
            parts.1 == (Line {
                row: self.row,
                col: (self.col + parts.0.width) as u16,
                width: (self.width - parts.0.width) as usize,
            }),
            parts.0.in_range(),
            parts.1.in_range(),
    {
        let mut first = self;
        let new = if idx < self.width {
            let remaining_width = self.width - idx;
            first.width = idx;
            Self { row: self.row, col: first.width as u16 + self.col, width: remaining_width }
        } else {
            Self { row: self.row, col: self.col + self.width as u16, width: 0 }
        };
        (first, new)
    }

    /// Whether the cell at `row` and `column` belongs to the line.
    pub fn contains_position(&self, row: u16, column: u16) -> (r: bool)
        requires
            self.in_range(),
        ensures
            r == (self.row == row && self.col <= column < self.col + self.width),
    {
        self.row == row && self.col <= column && column < self.col + self.width as u16
    }

    /// Moves the cursor to the start of the line and returns a builder for it.
    /// The caller pads the rest of the line with `pad` when all is pushed.
    pub fn unsafe_builder<B: Backend>(self, backend: &mut B) -> (builder: LineBuilder)
        ensures
            final(backend).trace() == old(backend).trace().push(
                Op::GoTo { row: self.row, col: self.col },
            ),
            final(backend).style() == old(backend).style(),
            builder@ == self,
    {
        backend.go_to(self.row, self.col);
        LineBuilder { row: self.row, col: self.col, remaining: self.width }
    }

    /// Blanks the line and returns a builder that fills it from its end.
    pub fn unsafe_builder_rev<B: Backend>(self, backend: &mut B) -> (builder: LineBuilderRev)
        requires
            self.in_range(),
        ensures
            final(backend).trace() == old(backend).trace() + self.empty_ops(),
            final(backend).style() == old(backend).style(),
            builder@ == self,
    {
        let remaining = self.width;
        let col = self.col;
        let row = self.row;
        self.render_empty(backend);
        LineBuilderRev { remaining, row, col }
    }

    /// Moves the start of the line `rhs` cells to the right, at most to its end.
    pub fn skip_cells(&mut self, rhs: usize)
        requires
            old(self).in_range(),
        ensures
            final(self).row == old(self).row,
            final(self).width == old(self).width - at_most_usize(rhs, old(self).width),
            final(self).col == old(self).col + at_most_usize(rhs, old(self).width),
            final(self).in_range(),
    {
        let offset = if rhs < self.width {
            rhs
        } else {
            self.width
        };
        self.width -= offset;
        self.col += offset as u16;
    }

    /// Moves the start of the line `rhs` cells to the left, at most to column 0.
    pub fn unskip_cells(&mut self, rhs: usize)
        requires
            old(self).in_range(),
        ensures
            final(self).row == old(self).row,
            final(self).width == old(self).width + at_most_usize(rhs, old(self).col as usize),
            final(self).col == old(self).col - at_most_usize(rhs, old(self).col as usize),
            final(self).in_range(),
    {
        let offset = if rhs < self.col as usize {
            rhs
        } else {
            self.col as usize
        };
        self.width += offset;
        self.col -= offset as u16;
    }
}

impl core::ops::AddAssign<usize> for Line {
    /// Moves the start of the line `rhs` cells to the right, at most to its end.
    fn add_assign(&mut self, rhs: usize)
        requires
            old(self).in_range(),
        ensures
            final(self).row == old(self).row,
            final(self).width == old(self).width - at_most_usize(rhs, old(self).width),
            final(self).col == old(self).col + at_most_usize(rhs, old(self).width),
            final(self).in_range(),
    {
        self.skip_cells(rhs);
    }
}

impl core::ops::AddAssign<u16> for Line {
    /// Moves the start of the line `rhs` cells to the right, at most to its end.
    fn add_assign(&mut self, rhs: u16)
        requires
            old(self).in_range(),
        ensures
            final(self).row == old(self).row,
            final(self).width == old(self).width - at_most_usize(rhs as usize, old(self).width),
            final(self).col == old(self).col + at_most_usize(rhs as usize, old(self).width),
            final(self).in_range(),
    {
        self.skip_cells(rhs as usize);
    }
}

impl core::ops::SubAssign<usize> for Line {
    /// Moves the start of the line `rhs` cells to the left, at most to column 0.
    fn sub_assign(&mut self, rhs: usize)
        requires
            old(self).in_range(),
        ensures
            final(self).row == old(self).row,
            final(self).width == old(self).width + at_most_usize(rhs, old(self).col as usize),
            final(self).col == old(self).col - at_most_usize(rhs, old(self).col as usize),
            final(self).in_range(),
    {
        self.unskip_cells(rhs);
    }
}

impl core::ops::SubAssign<u16> for Line {
    /// Moves the start of the line `rhs` cells to the left, at most to column 0.
    fn sub_assign(&mut self, rhs: u16)
        requires
            old(self).in_range(),
        ensures
            final(self).row == old(self).row,
            final(self).width == old(self).width + at_most_usize(
                rhs as usize,
                old(self).col as usize,
            ),
            final(self).col == old(self).col - at_most_usize(rhs as usize, old(self).col as usize),
            final(self).in_range(),
    {
        self.unskip_cells(rhs as usize);
    }
}

/// The smaller of two numbers.
pub open spec fn at_most_usize(a: usize, b: usize) -> usize {
    if a < b {
        a
    } else {
        b
    }
}

/// A string of `width` times the character `symbol`.
pub fn repeat_char(symbol: char, width: usize) -> (text: String)
    ensures
        text@ == repeated(symbol, width),
{
    let mut text = String::new();
    let mut i: usize = 0;
    while i < width
        invariant
            i <= width,
            text@ == repeated(symbol, i),
        decreases width - i,
    {
        text.push(symbol);
        i = i + 1;
        proof {
            assert(text@ =~= repeated(symbol, i));
        }
    }
    text
}

/// Fills a line from left to right within the width that is left.
pub struct LineBuilder {
    row: u16,
    col: u16,
    remaining: usize,
}

impl View for LineBuilder {
    type V = Line;

    /// The line the builder was made for, with the width that is left.
    closed spec fn view(&self) -> Line {
        Line { row: self.row, col: self.col, width: self.remaining }
    }
}

/// What is left of a width after text that takes `taken` columns went in.
pub open spec fn left_after(width: usize, taken: nat) -> usize {
    if taken > width {
        0
    } else {
        (width - taken) as usize
    }
}

impl LineBuilder {
    /// Prints as much of `text` as the width that is left takes. Returns
    /// whether all of it went in.
    pub fn push<B: Backend>(&mut self, text: &str, backend: &mut B) -> (fits: bool)
        ensures
            final(backend).trace() == old(backend).trace().push(
                Op::Print(head_fit(text@, old(self)@.width)),
            ),
            final(backend).style() == old(backend).style(),
            fits == (cols(text@) <= old(self)@.width),
            final(self)@ == (Line { width: left_after(old(self)@.width, cols(text@)), ..old(self)@ }),
    {
        match text.truncate_if_wider(self.remaining) {
            Ok(truncated_text) => {
                backend.print(truncated_text);
                self.remaining = 0;
                false
            },
            Err(width) => {
                proof {
                    assert(text@.take(text@.len() as int) =~= text@);
                }
                self.remaining -= width;
                backend.print(text);
                true
            },
        }
    }

    /// `push` with a style.
    pub fn push_styled<B: Backend>(&mut self, text: &str, style: B::Style, backend: &mut B) -> (fits:
        bool)
        ensures
            final(backend).trace() == old(backend).trace().push(
                Op::PrintStyled(head_fit(text@, old(self)@.width), style),
            ),
            final(backend).style() == old(backend).style(),
            fits == (cols(text@) <= old(self)@.width),
            final(self)@ == (Line { width: left_after(old(self)@.width, cols(text@)), ..old(self)@ }),
    {
        match text.truncate_if_wider(self.remaining) {
            Ok(truncated_text) => {
                backend.print_styled(truncated_text, style);
                self.remaining = 0;
                false
            },
            Err(width) => {
                proof {
                    assert(text@.take(text@.len() as int) =~= text@);
                }
                self.remaining -= width;
                backend.print_styled(text, style);
                true
            },
        }
    }

    /// Pads what is left of the line.
    pub fn pad<B: Backend>(&mut self, backend: &mut B)
        ensures
            final(backend).trace() == then_pad(old(backend).trace(), old(self)@.width as int),
            final(backend).style() == old(backend).style(),
            final(self)@ == (Line { width: 0, ..old(self)@ }),
    {
        if self.remaining == 0 {
            return ;
        }
        backend.pad(self.remaining);
        self.remaining = 0;
    }

    /// Pads what is left of the line in `style`.
    pub fn pad_styled<B: Backend>(&mut self, style: B::Style, backend: &mut B)
        ensures
            final(backend).trace() == if old(self)@.width == 0 {
                old(backend).trace()
            } else {
                old(backend).trace().push(Op::PadStyled(old(self)@.width, style))
            },
            final(backend).style() == old(backend).style(),
            final(self)@ == (Line { width: 0, ..old(self)@ }),
    {
        if self.remaining == 0 {
            return ;
        }
        backend.pad_styled(self.remaining, style);
        self.remaining = 0;
    }

    /// The width that is left.
    pub fn width(&self) -> (w: usize)
        ensures
            w == self@.width,
    {
        self.remaining
    }

    /// The builder's line, with the width that is left.
    pub fn into_line(self) -> (line: Line)
        ensures
            line == self@,
    {
        Line { row: self.row, col: self.col, width: self.remaining }
    }
}

/// Fills a line from right to left within the width that is left.
pub struct LineBuilderRev {
    row: u16,
    col: u16,
    remaining: usize,
}

impl View for LineBuilderRev {
    type V = Line;

    /// The line the builder was made for, with the width that is left.
    closed spec fn view(&self) -> Line {
        Line { row: self.row, col: self.col, width: self.remaining }
    }
}

impl LineBuilderRev {
    /// Prints `text` so that it ends where the free part of the line ends; of
    /// text that is too wide only the end is printed. Returns whether all of
    /// it went in.
    pub fn push<B: Backend>(&mut self, text: &str, backend: &mut B) -> (fits: bool)
        requires
            old(self)@.in_range(),
        ensures
            final(backend).trace() == old(backend).trace().push(
                Op::GoTo { row: old(self)@.row, col: (old(self)@.col + final(self)@.width) as u16 },
            ).push(Op::Print(tail_fit(text@, old(self)@.width))),
            final(backend).style() == old(backend).style(),
            fits == (cols(text@) <= old(self)@.width),
            final(self)@ == (Line { width: left_after(old(self)@.width, cols(text@)), ..old(self)@ }),
            final(self)@.in_range(),
    {
        match text.truncate_if_wider_start(self.remaining) {
            Ok(truncated_text) => {
                self.remaining = 0;
                backend.print_at(self.row, self.col, truncated_text);
                false
            },
            Err(width) => {
                proof {
                    assert(text@.skip(0) =~= text@);
                }
                self.remaining -= width;
                backend.print_at(self.row, self.col + self.remaining as u16, text);
                true
            },
        }
    }

    /// `push` with a style.
    pub fn push_styled<B: Backend>(&mut self, text: &str, style: B::Style, backend: &mut B) -> (fits:
        bool)
        requires
            old(self)@.in_range(),
        ensures
            final(backend).trace() == old(backend).trace().push(
                Op::GoTo { row: old(self)@.row, col: (old(self)@.col + final(self)@.width) as u16 },
            ).push(Op::PrintStyled(tail_fit(text@, old(self)@.width), style)),
            final(backend).style() == old(backend).style(),
            fits == (cols(text@) <= old(self)@.width),
            final(self)@ == (Line { width: left_after(old(self)@.width, cols(text@)), ..old(self)@ }),
            final(self)@.in_range(),
    {
        match text.truncate_if_wider_start(self.remaining) {
            Ok(truncated_text) => {
                self.remaining = 0;
                backend.print_styled_at(self.row, self.col, truncated_text, style);
                false
            },
            Err(width) => {
                proof {
                    assert(text@.skip(0) =~= text@);
                }
                self.remaining -= width;
                backend.print_styled_at(self.row, self.col + self.remaining as u16, text, style);
                true
            },
        }
    }

    /// What `push_text` sends to the backend: `text` at the end of the free
    /// part of the line if it fits, and else the end of `text` over all of it.
    pub open spec fn push_text_ops<B: Backend, W: Writable<B>>(line: Line, text: W) -> Seq<
        Op<B::Style, B::Color>,
    > {
        if line.width >= text.cells() {
            seq![
                Op::GoTo { row: line.row, col: (line.col + line.width - text.cells()) as u16 },
            ] + text.ops()
        } else {
            seq![Op::GoTo { row: line.row, col: line.col }] + text.cut_start_ops(line.width)
        }
    }

    /// Prints `text` so that it ends where the free part of the line ends.
    /// Of a text that is too wide the end is printed, and the number of
    /// columns that were left out is returned.
    pub fn push_text<B: Backend, W: Writable<B>>(&mut self, text: W, backend: &mut B) -> (skipped:
        Option<usize>)
        requires
            old(self)@.in_range(),
            text.wf(),
        ensures
            final(backend).trace() == old(backend).trace() + LineBuilderRev::push_text_ops(
                old(self)@,
                text,
            ),
            final(backend).style() == old(backend).style(),
            skipped == if old(self)@.width >= text.cells() {
                None
            } else {
                Some((text.cells() - old(self)@.width) as usize)
            },
            final(self)@ == (Line {
                width: if old(self)@.width >= text.cells() {
                    (old(self)@.width - text.cells()) as usize
                } else {
                    0
                },
                ..old(self)@
            }),
            final(self)@.in_range(),
    {
        let ghost start = backend.trace();
        if self.remaining >= text.width() {
            self.remaining -= text.width();
            backend.go_to(self.row, self.col + self.remaining as u16);
            text.print(backend);
            proof {
                assert(backend.trace() =~= start + LineBuilderRev::push_text_ops(old(self)@, text));
            }
            None
        } else {
            backend.go_to(self.row, self.col);
            text.print_truncated_start(self.remaining, backend);
            let skipped = text.width() - self.remaining;
            self.remaining = 0;
            proof {
                assert(backend.trace() =~= start + LineBuilderRev::push_text_ops(old(self)@, text));
            }
            Some(skipped)
        }
    }

    /// Blanks what is left of the line.
    pub fn pad<B: Backend>(&mut self, backend: &mut B)
        ensures
            final(backend).trace() == if old(self)@.width == 0 {
                old(backend).trace()
            } else {
                old(backend).trace().push(
                    Op::GoTo { row: old(self)@.row, col: old(self)@.col },
                ).push(Op::Pad(old(self)@.width))
            },
            final(backend).style() == old(backend).style(),
            final(self)@ == (Line { width: 0, ..old(self)@ }),
    {
        if self.remaining != 0 {
            backend.go_to(self.row, self.col);
            backend.pad(self.remaining);
            self.remaining = 0;
        }
    }

    /// The width that is left.
    pub fn width(&self) -> (w: usize)
        ensures
            w == self@.width,
    {
        self.remaining
    }

    /// The builder's line, with the width that is left.
    pub fn into_line(self) -> (line: Line)
        ensures
            line == self@,
    {
        Line { row: self.row, col: self.col, width: self.remaining }
    }
}

} // verus!
