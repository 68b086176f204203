//! Walking the lines of a rectangle from top to bottom.
use crate::backend::{Backend, Op};
use crate::layout::line::Line;
use crate::layout::rect::Rect;
use vstd::prelude::*;

verus! {

/// A source of lines to print on, one below the other.
pub trait IterLines: Sized {
    /// The lines that are left, the next one first.
    spec fn lines(&self) -> Seq<Line>;

    /// What holds of every source that is handed around.
    spec fn wf(&self) -> bool;

    /// Width of the lines.
    spec fn line_width(&self) -> usize;

    /// Width of the lines.
    fn width(&self) -> (w: usize)
        requires
            self.wf(),
        ensures
            w == self.line_width(),
            forall|i: int| 0 <= i < self.lines().len() ==> (#[trigger] self.lines()[i]).width == w,
    ;

    /// Number of lines that are left.
    fn len(&self) -> (n: usize)
        requires
            self.wf(),
        ensures
            n == self.lines().len(),
    ;

    /// Whether no line is left.
    fn is_finished(&self) -> (r: bool)
        requires
            self.wf(),
        ensures
            r == (self.lines().len() == 0),
    ;

    /// Takes the next line.
    fn next_line(&mut self) -> (line: Option<Line>)
        requires
            old(self).wf(),
        ensures
            final(self).wf(),
            final(self).line_width() == old(self).line_width(),
            old(self).lines().len() == 0 ==> line is None && final(self).lines() == old(self).lines(),
            old(self).lines().len() > 0 ==> line == Some(old(self).lines()[0]) && final(self).lines() == old(self).lines().drop_first(),
    ;

    /// Moves the cursor to the start of the next line and returns its width.
    fn move_cursor<B: Backend>(&mut self, backend: &mut B) -> (w: Option<usize>)
        requires
            old(self).wf(),
        ensures
            final(self).wf(),
            final(self).line_width() == old(self).line_width(),
            final(backend).style() == old(backend).style(),
            old(self).lines().len() == 0 ==> w is None && final(self).lines() == old(self).lines()
                && final(backend).trace() == old(backend).trace(),
            old(self).lines().len() > 0 ==> w == Some(old(self).lines()[0].width) && final(self).lines() == old(self).lines().drop_first() && final(backend).trace() == old(backend).trace().push(
                Op::GoTo { row: old(self).lines()[0].row, col: old(self).lines()[0].col },
            ),
    ;

    /// Blanks the lines that are left.
    fn clear_to_end<B: Backend>(&mut self, backend: &mut B)
        requires
            old(self).wf(),
        ensures
            final(self).wf(),
            final(self).lines().len() == 0,
            final(backend).style() == old(backend).style(),
            final(backend).trace() == old(backend).trace() + blank_lines(old(self).lines()),
    ;
}

/// The instructions that blank `lines`, one after the other.
pub open spec fn blank_lines<S, C>(lines: Seq<Line>) -> Seq<Op<S, C>>
    decreases lines.len(),
{
    if lines.len() == 0 {
        Seq::empty()
    } else {
        blank_lines(lines.drop_last()) + lines.last().empty_ops()
    }
}

/// The lines of a rectangle, from top to bottom.
pub struct RectIter {
    rect: Rect,
}

impl RectIter {
    /// The part of the rectangle that is not walked yet.
    pub closed spec fn rest(&self) -> Rect {
        self.rect
    }

    /// The lines of `rect` from top to bottom.
    pub open spec fn lines_of(rect: Rect) -> Seq<Line> {
        Seq::new(rect.height as nat, |i: int| rect.line(i))
    }

    /// Starts at the top of `rect`.
    pub fn new(rect: Rect) -> (iter: Self)
        requires
            rect.in_range(),
        ensures
            iter.rest() == rect,
            iter.wf(),
            iter.lines() == RectIter::lines_of(rect),
    {
        RectIter { rect }
    }

    /// Takes the next line from the top.
    pub fn next(&mut self) -> (line: Option<Line>)
        requires
            old(self).wf(),
        ensures
            final(self).wf(),
            old(self).lines().len() == 0 ==> line is None && final(self).lines() == old(self).lines(),
            old(self).lines().len() > 0 ==> line == Some(old(self).lines()[0]) && final(self).lines() == old(self).lines().drop_first(),
    {
        self.next_line()
    }

    /// Takes the next line from the bottom.
    pub fn next_back(&mut self) -> (line: Option<Line>)
        requires
            old(self).wf(),
        ensures
            final(self).wf(),
            old(self).lines().len() == 0 ==> line is None && final(self).lines() == old(self).lines(),
            old(self).lines().len() > 0 ==> line == Some(old(self).lines().last()) && final(self).lines() == old(self).lines().drop_last(),
    {
        let line = self.rect.next_line_back();
        proof {
            if old(self).lines().len() > 0 {
                assert(self.lines() =~= old(self).lines().drop_last());
            }
        }
        line
    }

    /// The last line, if there is one.
    pub fn last(self) -> (line: Option<Line>)
        requires
            self.wf(),
        ensures
            line == if self.lines().len() == 0 {
                None
            } else {
                Some(self.lines().last())
            },
    {
        let mut rect = self.rect;
        rect.next_line_back()
    }
}

impl IterLines for RectIter {
    open spec fn lines(&self) -> Seq<Line> {
        RectIter::lines_of(self.rest())
    }

    open spec fn wf(&self) -> bool {
        self.rest().in_range()
    }

    open spec fn line_width(&self) -> usize {
        self.rest().width
    }

    fn width(&self) -> (w: usize) {
        self.rect.width
    }

    fn len(&self) -> (n: usize) {
        self.rect.height as usize
    }

    fn is_finished(&self) -> (r: bool) {
        self.rect.height == 0
    }

    fn next_line(&mut self) -> (line: Option<Line>) {
        let line = self.rect.next_line();
        proof {
            if old(self).lines().len() > 0 {
                assert(self.lines() =~= old(self).lines().drop_first());
            }
        }
        line
    }

    fn move_cursor<B: Backend>(&mut self, backend: &mut B) -> (w: Option<usize>) {
        match self.next_line() {
            Some(line) => {
                backend.go_to(line.row, line.col);
                Some(line.width)
            },
            None => None,
        }
    }

    fn clear_to_end<B: Backend>(&mut self, backend: &mut B) {
        let ghost all = self.lines();
        let ghost start = backend.trace();
        proof {
            assert(start =~= start + blank_lines::<B::Style, B::Color>(Seq::empty()));
            assert(all.take(0) =~= Seq::<Line>::empty());
        }
        let ghost mut done: int = 0;
        while self.rect.height > 0
            invariant
                self.wf(),
                0 <= done <= all.len(),
                self.lines() == all.skip(done),
                backend.trace() == start + blank_lines::<B::Style, B::Color>(all.take(done)),
                backend.style() == old(backend).style(),
            decreases self.rect.height,
        {
            let ghost before = self.lines();
            let line = self.next_line();
            match line {
                Some(line) => {
                    line.render_empty(backend);
                },
                None => {},
            }
            proof {
                assert(before[0] == all[done]);
                assert(all.take(done + 1).drop_last() =~= all.take(done));
                assert(all.take(done + 1).last() == all[done]);
                assert(self.lines() =~= all.skip(done + 1));
                assert(backend.trace() =~= start + (blank_lines::<B::Style, B::Color>(
                    all.take(done),
                ) + all[done].empty_ops()));
                done = done + 1;
            }
        }
        proof {
            assert(all.take(done) =~= all);
        }
    }
}

impl Rect {
    /// The lines of the rectangle from top to bottom.
    pub fn into_iter(self) -> (iter: RectIter)
        requires
            self.in_range(),
        ensures
            iter.rest() == self,
            iter.wf(),
    {
        RectIter::new(self)
    }

    /// Blanks the rectangle.
    pub fn clear<B: Backend>(&self, backend: &mut B)
        requires
            self.in_range(),
        ensures
            final(backend).trace() == old(backend).trace() + blank_lines(
                RectIter::lines_of(*self),
            ),
            final(backend).style() == old(backend).style(),
    {
        let mut lines = self.into_iter();
        lines.clear_to_end(backend);
    }
}

/// The lines of a rectangle from top to bottom, each with blank cells at both ends.
pub struct DoublePaddedRectIter {
    rect: Rect,
    padding: usize,
}

/// `line` without `padding` cells at both ends.
pub open spec fn narrowed(line: Line, padding: usize) -> Line {
    Line {
        row: line.row,
        col: (line.col + padding) as u16,
        width: (line.width - 2 * padding) as usize,
    }
}

/// The instructions that blank `padding` cells at both ends of `line`.
pub open spec fn margin_ops<S, C>(line: Line, padding: usize) -> Seq<Op<S, C>> {
    seq![
        Op::GoTo { row: line.row, col: line.col },
        Op::Pad(padding),
        Op::GoTo { row: line.row, col: (line.col + line.width - padding) as u16 },
        Op::Pad(padding),
    ]
}

impl DoublePaddedRectIter {
    /// The part of the rectangle that is not walked yet.
    pub closed spec fn rest(&self) -> Rect {
        self.rect
    }

    /// Number of blank cells at each end of a line.
    pub closed spec fn margin(&self) -> usize {
        self.padding
    }

    /// The lines that are left, in their full width.
    pub open spec fn lines(&self) -> Seq<Line> {
        RectIter::lines_of(self.rest())
    }

    /// The rectangle lies in range and is wide enough for both margins.
    pub open spec fn wf(&self) -> bool {
        self.rest().in_range() && 2 * self.margin() <= self.rest().width
    }

    /// The lines of `rect` with `padding` blank cells at both ends.
    pub fn new(rect: Rect, padding: usize) -> (iter: Self)
        requires
            rect.in_range(),
            2 * padding <= rect.width,
        ensures
            iter.wf(),
            iter.rest() == rect,
            iter.margin() == padding,
    {
        Self { rect, padding }
    }

    /// Number of lines that are left.
    pub fn len(&self) -> (n: usize)
        ensures
            n == self.lines().len(),
    {
        self.rect.height as usize
    }

    /// Width of a line between its margins.
    pub fn width(&self) -> (w: usize)
        requires
            self.wf(),
        ensures
            w == self.rest().width - 2 * self.margin(),
    {
        self.rect.width - 2 * self.padding
    }

    /// Blanks the margins of the next line and returns what lies between them.
    pub fn next_padded<B: Backend>(&mut self, backend: &mut B) -> (line: Option<Line>)
        requires
            old(self).wf(),
        ensures
            final(self).wf(),
            final(self).margin() == old(self).margin(),
            final(backend).style() == old(backend).style(),
            old(self).lines().len() == 0 ==> line is None && final(self).lines() == old(self).lines() && final(backend).trace() == old(backend).trace(),
            old(self).lines().len() > 0 ==> line == Some(
                narrowed(old(self).lines()[0], old(self).margin()),
            ) && final(self).lines() == old(self).lines().drop_first() && final(backend).trace()
                == old(backend).trace() + margin_ops(old(self).lines()[0], old(self).margin()),
    {
        let next = self.rect.next_line();
        match next {
            Some(line) => {
                backend.go_to(line.row, line.col);
                backend.pad(self.padding);
                backend.go_to(line.row, line.col + (line.width - self.padding) as u16);
                backend.pad(self.padding);
                proof {
                    assert(self.lines() =~= old(self).lines().drop_first());
                    assert(backend.trace() =~= old(backend).trace() + margin_ops::<
                        B::Style,
                        B::Color,
                    >(line, self.padding));
                }
                Some(
                    Line {
                        row: line.row,
                        col: line.col + self.padding as u16,
                        width: line.width - 2 * self.padding,
                    },
                )
            },
            None => None,
        }
    }

    /// Blanks the lines that are left, margins included.
    pub fn clear_to_end<B: Backend>(&mut self, backend: &mut B)
        requires
            old(self).wf(),
        ensures
            final(self).wf(),
            final(self).lines().len() == 0,
            final(backend).style() == old(backend).style(),
            final(backend).trace() == old(backend).trace() + blank_lines(old(self).lines()),
    {
        let mut lines = RectIter::new(self.rect);
        lines.clear_to_end(backend);
        self.rect.height = 0;
    }
}

impl Rect {
    /// The lines of the rectangle from top to bottom, each with `padding`
    /// blank cells at both ends.
    pub fn iter_padded(self, padding: usize) -> (iter: DoublePaddedRectIter)
        requires
            self.in_range(),
            2 * padding <= self.width,
        ensures
            iter.wf(),
            iter.rest() == self,
            iter.margin() == padding,
    {
        DoublePaddedRectIter::new(self, padding)
    }
}

} // verus!
