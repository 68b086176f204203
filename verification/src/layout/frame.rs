//! Drawing the border of a rectangle and the titles on it.
use crate::backend::{Backend, Op};
use crate::layout::borders::{BorderSet, Borders};
use crate::layout::line::{head_fit, tail_fit};
use crate::layout::rect::Rect;
use crate::utils::width::cols;
use crate::utils::UTFSafe;
use vstd::prelude::*;

verus! {

/// The instructions that print `piece` in row `row` at every column from `from` up to `to`.
pub open spec fn row_run<S, C>(row: u16, from: int, to: int, piece: Seq<char>) -> Seq<Op<S, C>>
    decreases to - from,
{
    if to <= from {
        Seq::empty()
    } else {
        row_run(row, from, to - 1, piece).push(Op::GoTo { row, col: (to - 1) as u16 }).push(
            Op::Print(piece),
        )
    }
}

/// The instructions that print `piece` in column `col` at every row from `from` up to `to`.
pub open spec fn col_run<S, C>(col: u16, from: int, to: int, piece: Seq<char>) -> Seq<Op<S, C>>
    decreases to - from,
{
    if to <= from {
        Seq::empty()
    } else {
        col_run(col, from, to - 1, piece).push(Op::GoTo { row: (to - 1) as u16, col }).push(
            Op::Print(piece),
        )
    }
}

/// `ops` if `on`, else nothing.
pub open spec fn when<S, C>(on: bool, ops: Seq<Op<S, C>>) -> Seq<Op<S, C>> {
    if on {
        ops
    } else {
        Seq::empty()
    }
}

/// The instructions that print `piece` at one cell.
pub open spec fn at_cell<S, C>(row: int, col: int, piece: Seq<char>) -> Seq<Op<S, C>> {
    seq![Op::GoTo { row: row as u16, col: col as u16 }, Op::Print(piece)]
}

impl Rect {
    /// The rectangle lies in range, with a free cell outside it on every side
    /// that carries a border.
    pub open spec fn framed(self) -> bool {
        &&& self.in_range()
        &&& self.borders.top ==> self.row >= 1
        &&& self.borders.left ==> self.col >= 1
        &&& self.borders.bottom ==> self.row + self.height < u16::MAX
        &&& self.borders.right ==> self.col + self.width < u16::MAX
    }

    /// Row of the top border, or of the first row without one.
    pub open spec fn frame_top(self) -> int {
        if self.borders.top {
            self.row - 1
        } else {
            self.row as int
        }
    }

    /// Column of the left border, or of the first column without one.
    pub open spec fn frame_left(self) -> int {
        if self.borders.left {
            self.col - 1
        } else {
            self.col as int
        }
    }

    /// What `draw_borders` sends to the backend: the four sides as far as the
    /// rectangle has them, then the corners where two sides meet, between
    /// saving the cursor and, with a color, resetting the style.
    pub open spec fn border_ops<S, C>(self, set: BorderSet, fg: Option<C>) -> Seq<Op<S, C>> {
        let b = self.borders;
        let row = self.frame_top();
        let col = self.frame_left();
        let last_row = self.row + self.height;
        let last_col = self.col + self.width;
        seq![Op::SaveCursor] + when(fg is Some, seq![Op::SetFg(fg)]) + when(
            b.top,
            row_run(row as u16, col, last_col, set.horizontal_top@),
        ) + when(b.bottom, row_run(last_row as u16, col, last_col, set.horizontal_bot@)) + when(
            b.left,
            col_run(col as u16, row, last_row, set.vertical_left@),
        ) + when(b.right, col_run(last_col as u16, row, last_row, set.vertical_right@)) + when(
            b.top && b.left,
            at_cell(row, col, set.top_left_qorner@),
        ) + when(b.top && b.right, at_cell(row, last_col, set.top_right_qorner@)) + when(
            b.bottom && b.left,
            at_cell(last_row, col, set.bot_left_qorner@),
        ) + when(b.bottom && b.right, at_cell(last_row, last_col, set.bot_right_qorner@)) + when(
            fg is Some,
            seq![Op::ResetStyle],
        )
    }

    /// Prints `text` on the top border, cut to the width of the rectangle.
    /// Without a top border nothing is printed.
    pub fn border_title<B: Backend>(&self, text: &str, backend: &mut B)
        requires
            self.framed(),
        ensures
            final(backend).trace() == old(backend).trace() + when(
                self.borders.top,
                at_cell(self.row - 1, self.col as int, head_fit(text@, self.width)),
            ),
            final(backend).style() == old(backend).style(),
    {
        if !self.borders.contains(Borders::top()) {
            proof {
                assert(backend.trace() =~= old(backend).trace() + Seq::empty());
            }
            return ;
        }
        backend.print_at(self.row - 1, self.col, text.truncate_width(self.width).1);
        proof {
            assert(backend.trace() =~= old(backend).trace() + at_cell::<B::Style, B::Color>(
                self.row - 1,
                self.col as int,
                head_fit(text@, self.width),
            ));
        }
    }

    /// What is printed behind the start of a title of two parts: the end of
    /// `suffix` in the columns that the start left, behind two dots where
    /// more than 3 columns are left.
    pub open spec fn suffix_ops<S, C>(self, prefix: Seq<char>, suffix: Seq<char>) -> Seq<Op<S, C>> {
        let remaining = self.width - cols(head_fit(prefix, self.width));
        if remaining > 3 {
            seq![Op::Print(".."@), Op::Print(tail_fit(suffix, (remaining - 2) as usize))]
        } else {
            seq![Op::Print(tail_fit(suffix, remaining as usize))]
        }
    }

    /// Prints a title of two parts on the top border: the start of `prefix`
    /// and, in what is left, the end of `suffix`.
    pub fn border_title_prefixed<B: Backend>(&self, prefix: &str, suffix: &str, backend: &mut B)
        requires
            self.framed(),
        ensures
            final(backend).trace() == old(backend).trace() + when(
                self.borders.top,
                at_cell(self.row - 1, self.col as int, head_fit(prefix@, self.width))
                    + self.suffix_ops(prefix@, suffix@),
            ),
            final(backend).style() == old(backend).style(),
    {
        if !self.borders.contains(Borders::top()) {
            proof {
                assert(backend.trace() =~= old(backend).trace() + Seq::empty());
            }
            return ;
        }
        let (remaining, text) = prefix.truncate_width(self.width);
        backend.print_at(self.row - 1, self.col, text);
        if remaining > 3 {
            backend.print("..");
            backend.print(suffix.truncate_width_start(remaining - 2).1)
        } else {
            backend.print(suffix.truncate_width_start(remaining).1)
        }
        proof {
            assert(backend.trace() =~= old(backend).trace() + (at_cell::<B::Style, B::Color>(
                self.row - 1,
                self.col as int,
                head_fit(prefix@, self.width),
            ) + self.suffix_ops(prefix@, suffix@)));
        }
    }

    /// Prints `text` in `style` on the top border.
    pub fn border_title_styled<B: Backend>(&self, text: &str, style: B::Style, backend: &mut B)
        requires
            self.framed(),
        ensures
            final(backend).trace() == old(backend).trace() + when(
                self.borders.top,
                seq![
                    Op::GoTo { row: (self.row - 1) as u16, col: self.col },
                    Op::PrintStyled(head_fit(text@, self.width), style),
                ],
            ),
            final(backend).style() == old(backend).style(),
    {
        if self.borders.contains(Borders::top()) {
            backend.print_styled_at(
                self.row - 1,
                self.col,
                text.truncate_width(self.width).1,
                style,
            );
        }
        proof {
            assert(backend.trace() =~= old(backend).trace() + when(
                self.borders.top,
                seq![
                    Op::<B::Style, B::Color>::GoTo { row: (self.row - 1) as u16, col: self.col },
                    Op::<B::Style, B::Color>::PrintStyled(head_fit(text@, self.width), style),
                ],
            ));
        }
    }

    /// Prints `text` on the bottom border.
    pub fn border_title_bot<B: Backend>(&self, text: &str, backend: &mut B)
        requires
            self.framed(),
        ensures
            final(backend).trace() == old(backend).trace() + when(
                self.borders.bottom,
                at_cell(
                    self.row + self.height + 1,
                    self.col as int,
                    head_fit(text@, self.width),
                ),
            ),
            final(backend).style() == old(backend).style(),
    {
        if self.borders.contains(Borders::bottom()) {
            backend.print_at(
                self.row + self.height + 1,
                self.col,
                text.truncate_width(self.width).1,
            );
        }
        proof {
            assert(backend.trace() =~= old(backend).trace() + when(
                self.borders.bottom,
                at_cell::<B::Style, B::Color>(
                    self.row + self.height + 1,
                    self.col as int,
                    head_fit(text@, self.width),
                ),
            ));
        }
    }

    /// Prints `text` in `style` on the bottom border.
    pub fn border_title_bot_styled<B: Backend>(&self, text: &str, style: B::Style, backend: &mut B)
        requires
            self.framed(),
        ensures
            final(backend).trace() == old(backend).trace() + when(
                self.borders.bottom,
                seq![
                    Op::GoTo { row: (self.row + self.height + 1) as u16, col: self.col },
                    Op::PrintStyled(head_fit(text@, self.width), style),
                ],
            ),
            final(backend).style() == old(backend).style(),
    {
        if self.borders.contains(Borders::bottom()) {
            backend.print_styled_at(
                self.row + self.height + 1,
                self.col,
                text.truncate_width(self.width).1,
                style,
            )
        }
        proof {
            assert(backend.trace() =~= old(backend).trace() + when(
                self.borders.bottom,
                seq![
                    Op::<B::Style, B::Color>::GoTo {
                        row: (self.row + self.height + 1) as u16,
                        col: self.col,
                    },
                    Op::<B::Style, B::Color>::PrintStyled(head_fit(text@, self.width), style),
                ],
            ));
        }
    }
}

/// Appending in two steps is appending the whole.
proof fn lemma_append<T>(start: Seq<T>, acc: Seq<T>, part: Seq<T>)
    ensures
        (start + acc) + part == start + (acc + part),
{
    assert((start + acc) + part =~= start + (acc + part));
}

/// If `on`: prints `piece` in row `row` at every column from `from` up to `to`.
fn draw_row_run<B: Backend>(backend: &mut B, on: bool, row: u16, from: u16, to: u16, piece: &str)
    ensures
        final(backend).trace() == old(backend).trace() + when(
            on,
            row_run(row, from as int, to as int, piece@),
        ),
        final(backend).style() == old(backend).style(),
{
    let ghost start = backend.trace();
    proof {
        assert(start =~= start + Seq::empty());
    }
    if !on || to <= from {
        return ;
    }
    let mut col_idx = from;
    while col_idx < to
        invariant
            from <= col_idx <= to,
            backend.trace() == start + row_run::<B::Style, B::Color>(
                row,
                from as int,
                col_idx as int,
                piece@,
            ),
            backend.style() == old(backend).style(),
        decreases to - col_idx,
    {
        let ghost before = row_run::<B::Style, B::Color>(row, from as int, col_idx as int, piece@);
        backend.go_to(row, col_idx);
        backend.print(piece);
        col_idx += 1;
        proof {
            let tail = seq![
                Op::<B::Style, B::Color>::GoTo { row, col: (col_idx - 1) as u16 },
                Op::<B::Style, B::Color>::Print(piece@),
            ];
            assert(backend.trace() =~= (start + before) + tail);
            lemma_append(start, before, tail);
            assert(before + tail =~= row_run::<B::Style, B::Color>(
                row,
                from as int,
                col_idx as int,
                piece@,
            ));
        }
    }
}

/// If `on`: prints `piece` in column `col` at every row from `from` up to `to`.
fn draw_col_run<B: Backend>(backend: &mut B, on: bool, col: u16, from: u16, to: u16, piece: &str)
    ensures
        final(backend).trace() == old(backend).trace() + when(
            on,
            col_run(col, from as int, to as int, piece@),
        ),
        final(backend).style() == old(backend).style(),
{
    let ghost start = backend.trace();
    proof {
        assert(start =~= start + Seq::empty());
    }
    if !on || to <= from {
        return ;
    }
    let mut row_idx = from;
    while row_idx < to
        invariant
            from <= row_idx <= to,
            backend.trace() == start + col_run::<B::Style, B::Color>(
                col,
                from as int,
                row_idx as int,
                piece@,
            ),
            backend.style() == old(backend).style(),
        decreases to - row_idx,
    {
        let ghost before = col_run::<B::Style, B::Color>(col, from as int, row_idx as int, piece@);
        backend.go_to(row_idx, col);
        backend.print(piece);
        row_idx += 1;
        proof {
            let tail = seq![
                Op::<B::Style, B::Color>::GoTo { row: (row_idx - 1) as u16, col },
                Op::<B::Style, B::Color>::Print(piece@),
            ];
            assert(backend.trace() =~= (start + before) + tail);
            lemma_append(start, before, tail);
            assert(before + tail =~= col_run::<B::Style, B::Color>(
                col,
                from as int,
                row_idx as int,
                piece@,
            ));
        }
    }
}

/// If `on`: prints `piece` at one cell.
fn draw_cell<B: Backend>(backend: &mut B, on: bool, row: u16, col: u16, piece: &str)
    ensures
        final(backend).trace() == old(backend).trace() + when(
            on,
            at_cell(row as int, col as int, piece@),
        ),
        final(backend).style() == old(backend).style(),
{
    if on {
        backend.go_to(row, col);
        backend.print(piece);
    }
    proof {
        assert(backend.trace() =~= old(backend).trace() + when(
            on,
            at_cell::<B::Style, B::Color>(row as int, col as int, piece@),
        ));
    }
}

/// Saves the cursor and, if a color is given, sets it as the foreground.
fn begin_frame<B: Backend>(backend: &mut B, fg: Option<B::Color>)
    ensures
        final(backend).trace() == old(backend).trace() + (seq![Op::SaveCursor] + when(
            fg is Some,
            seq![Op::SetFg(fg)],
        )),
{
    backend.save_cursor();
    if let Some(color) = fg {
        backend.set_fg(Some(color));
    }
    proof {
        assert(backend.trace() =~= old(backend).trace() + (seq![
            Op::<B::Style, B::Color>::SaveCursor,
        ] + when(fg is Some, seq![Op::<B::Style, B::Color>::SetFg(fg)])));
    }
}

/// If `on`: resets the style.
fn end_frame<B: Backend>(backend: &mut B, on: bool)
    ensures
        final(backend).trace() == old(backend).trace() + when(on, seq![Op::ResetStyle]),
{
    if on {
        backend.reset_style();
    }
    proof {
        assert(backend.trace() =~= old(backend).trace() + when(
            on,
            seq![Op::<B::Style, B::Color>::ResetStyle],
        ));
    }
}

impl Rect {
    /// Draws the border on the sides that the rectangle has one, with `set`
    /// or else with thin lines, in the color `fg` if one is given.
    pub fn draw_borders<B: Backend>(
        &self,
        set: Option<BorderSet>,
        fg: Option<B::Color>,
        backend: &mut B,
    )
        requires
            self.framed(),
        ensures
            final(backend).trace() == old(backend).trace() + self.border_ops(
                match set {
                    Some(set) => set,
                    None => BorderSet::thin(),
                },
                fg,
            ),
    {
        let top = self.borders.contains(Borders::top());
        let bot = self.borders.contains(Borders::bottom());
        let left = self.borders.contains(Borders::left());
        let right = self.borders.contains(Borders::right());

        let mut row = self.row;
        let mut col = self.col;
        let last_row = self.row + self.height;
        let last_col = self.col + self.width as u16;

        if top {
            row -= 1;
        }
        if left {
            col -= 1;
        }
        let set = match set {
            Some(set) => set,
            None => BorderSet::borders(),
        };
        let ghost start = backend.trace();
        let ghost opening = seq![Op::<B::Style, B::Color>::SaveCursor] + when(
            fg is Some,
            seq![Op::<B::Style, B::Color>::SetFg(fg)],
        );
        let ghost top_side = when(
            top,
            row_run::<B::Style, B::Color>(row, col as int, last_col as int, set.horizontal_top@),
        );
        let ghost bottom_side = when(
            bot,
            row_run::<B::Style, B::Color>(
                last_row,
                col as int,
                last_col as int,
                set.horizontal_bot@,
            ),
        );
        let ghost left_side = when(
            left,
            col_run::<B::Style, B::Color>(col, row as int, last_row as int, set.vertical_left@),
        );
        let ghost right_side = when(
            right,
            col_run::<B::Style, B::Color>(
                last_col,
                row as int,
                last_row as int,
                set.vertical_right@,
            ),
        );
        let ghost top_left = when(
            top && left,
            at_cell::<B::Style, B::Color>(row as int, col as int, set.top_left_qorner@),
        );
        let ghost top_right = when(
            top && right,
            at_cell::<B::Style, B::Color>(row as int, last_col as int, set.top_right_qorner@),
        );
        let ghost bottom_left = when(
            bot && left,
            at_cell::<B::Style, B::Color>(last_row as int, col as int, set.bot_left_qorner@),
        );
        let ghost bottom_right = when(
            bot && right,
            at_cell::<B::Style, B::Color>(last_row as int, last_col as int, set.bot_right_qorner@),
        );
        let ghost closing = when(fg is Some, seq![Op::<B::Style, B::Color>::ResetStyle]);
        begin_frame(backend, fg);
        draw_row_run(backend, top, row, col, last_col, set.horizontal_top);
        proof {
            lemma_append(start, opening, top_side);
        }
        draw_row_run(backend, bot, last_row, col, last_col, set.horizontal_bot);
        proof {
            lemma_append(start, opening + top_side, bottom_side);
        }
        draw_col_run(backend, left, col, row, last_row, set.vertical_left);
        proof {
            lemma_append(start, opening + top_side + bottom_side, left_side);
        }
        draw_col_run(backend, right, last_col, row, last_row, set.vertical_right);
        proof {
            lemma_append(start, opening + top_side + bottom_side + left_side, right_side);
        }
        draw_cell(
            backend,
            self.borders.contains(Borders::top() | Borders::left()),
            row,
            col,
            set.top_left_qorner,
        );
        proof {
            lemma_append(start, opening + top_side + bottom_side + left_side + right_side, top_left);
        }
        draw_cell(
            backend,
            self.borders.contains(Borders::top() | Borders::right()),
            row,
            last_col,
            set.top_right_qorner,
        );
        proof {
            lemma_append(start, opening + top_side + bottom_side + left_side + right_side + top_left, top_right);
        }
        draw_cell(
            backend,
            self.borders.contains(Borders::bottom() | Borders::left()),
            last_row,
            col,
            set.bot_left_qorner,
        );
        proof {
            lemma_append(start, opening + top_side + bottom_side + left_side + right_side + top_left + top_right, bottom_left);
        }
        draw_cell(
            backend,
            self.borders.contains(Borders::bottom() | Borders::right()),
            last_row,
            last_col,
            set.bot_right_qorner,
        );
        proof {
            lemma_append(start, opening + top_side + bottom_side + left_side + right_side + top_left + top_right + bottom_left, bottom_right);
        }
        end_frame(backend, fg.is_some());
        proof {
            lemma_append(start, opening + top_side + bottom_side + left_side + right_side + top_left + top_right + bottom_left + bottom_right, closing);
        }
    }
}

} // verus!
