//! A rectangle of terminal cells.

use crate::layout::borders::Borders;
use crate::layout::line::Line;
use crate::Position;
use vstd::prelude::*;
use vstd::std_specs::convert::FromSpecImpl;

verus! {

/// A rectangle of terminal cells, with the sides that carry a border.
#[derive(Clone, Copy, Debug, PartialEq)]
pub struct Rect {
    pub row: u16,
    pub col: u16,
    pub width: usize,
    pub height: u16,
    pub borders: Borders,
}

impl Default for Rect {
    fn default() -> (rect: Self)
        ensures
            rect == Rect::new_spec(0, 0, 0, 0),
    {
        Self { row: 0, col: 0, width: 0, height: 0, borders: Borders::empty() }
    }
}

/// The smaller of two numbers.
pub open spec fn least(a: int, b: int) -> int {
    if a <= b {
        a
    } else {
        b
    }
}

/// The smaller of two heights or row counts.
pub fn min_u16(a: u16, b: u16) -> (m: u16)
    ensures
        m == least(a as int, b as int),
{
    if a <= b {
        a
    } else {
        b
    }
}

/// The smaller of two widths or column counts.
pub fn min_usize(a: usize, b: usize) -> (m: usize)
    ensures
        m == least(a as int, b as int),
{
    if a <= b {
        a
    } else {
        b
    }
}

impl Rect {
    /// The rectangle without borders at `row` and `col`.
    pub open spec fn new_spec(row: u16, col: u16, width: usize, height: u16) -> Rect {
        Rect { row, col, width, height, borders: Borders::none() }
    }

    /// The rectangle ends within the rows and columns that a `u16` can number.
    pub open spec fn in_range(self) -> bool {
        self.row + self.height <= u16::MAX && self.col + self.width <= u16::MAX
    }

    /// Whether the cell at `row` and `column` lies in the rectangle.
    pub open spec fn covers(self, row: u16, column: u16) -> bool {
        self.col <= column < self.col + self.width && self.row <= row < self.row + self.height
    }

    /// The line of the rectangle with index `rel_idx`, counted from the top.
    pub open spec fn line(self, rel_idx: int) -> Line {
        Line { row: (self.row + rel_idx) as u16, col: self.col, width: self.width }
    }

    /// The rectangle without borders at `row` and `col`.
    pub fn new(row: u16, col: u16, width: usize, height: u16) -> (rect: Self)
        ensures
            rect == Rect::new_spec(row, col, width, height),
    {
        Self { row, col, width, height, borders: Borders::empty() }
    }

    /// The rectangle with all borders that is one cell smaller on every side.
    pub fn new_bordered(row: u16, col: u16, width: usize, height: u16) -> (rect: Self)
        requires
            row >= 1,
            col >= 1,
            width >= 2,
            height >= 2,
        ensures
            rect == (Rect {
                row: (row - 1) as u16,
                col: (col - 1) as u16,
                width: (width - 2) as usize,
                height: (height - 2) as u16,
                borders: Borders::every(),
            }),
    {
        Self {
            row: row - 1,
            col: col - 1,
            width: width - 2,
            height: height - 2,
            borders: Borders::all(),
        }
    }

    /// Whether the cell at `row` and `column` lies in the rectangle.
    pub fn contains_position(&self, row: u16, column: u16) -> (r: bool)
        requires
            self.in_range(),
        ensures
            r == self.covers(row, column),
    {
        self.col <= column && self.row <= row && row < self.row + self.height && column
            < self.col + self.width as u16
    }

    /// Where the cell at `row` and `column` lies within the rectangle.
    pub fn relative_position(&self, row: u16, column: u16) -> (r: Option<Position>)
        requires
            self.in_range(),
        ensures
            r == if self.covers(row, column) {
                Some(Position { row: (row - self.row) as u16, col: (column - self.col) as u16 })
            } else {
                None
            },
    {
        if self.contains_position(row, column) {
            Some(Position { row: (row - self.row), col: (column - self.col) })
        } else {
            None
        }
    }

    /// Where a modal of `height` rows goes that belongs to the row with index
    /// `row_offset`: the row it starts at, relative to the rectangle, and its
    /// height. It goes below that row if more than 3 rows are left there, cut
    /// to what is left; else above it if more than 2 rows are there; else it
    /// has no height. `None` stands for no room at all.
    pub open spec fn modal_rows(self, row_offset: u16, height: u16) -> Option<(int, int)> {
        let row = row_offset + 1;
        if self.height >= height + row {
            Some((row, height as int))
        } else if self.height > 3 + row {
            Some((row, self.height - row))
        } else if row > 3 {
            let fit = least(height as int, row - 1);
            Some((row - (fit + 1), fit))
        } else {
            None
        }
    }

    /// Where a modal of `width` columns goes that starts at the column with
    /// index `col_offset`: the column it starts at, relative to the
    /// rectangle, and its width. It is cut to the columns that are left if
    /// these are more than 30; else it moves to the last 30 columns; a
    /// rectangle of at most 30 columns has no room.
    pub open spec fn modal_cols(self, col_offset: u16, width: usize) -> Option<(int, int)> {
        if self.width >= width + col_offset {
            Some((col_offset as int, width as int))
        } else if self.width > 30 + col_offset {
            Some((col_offset as int, self.width - col_offset))
        } else if self.width > 30 {
            Some((self.width - 30, 30))
        } else {
            None
        }
    }

    /// The modal that `modal_relative` returns: nothing for a row outside the
    /// rectangle; else the rows are settled first, and the columns for the
    /// width that the rows leave.
    pub open spec fn modal_relative_spec(
        self,
        row_offset: u16,
        col_offset: u16,
        width: usize,
        height: u16,
    ) -> Rect {
        if row_offset >= self.height {
            Rect::new_spec(
                (self.row + row_offset + 1) as u16,
                (self.col + col_offset) as u16,
                0,
                0,
            )
        } else {
            let (row, width, height) = match self.modal_rows(row_offset, height) {
                Some((row, height)) => (row, width, height),
                None => (row_offset + 1, 0usize, 0int),
            };
            match self.modal_cols(col_offset, width) {
                Some((col, width)) => Rect::new_spec(
                    (self.row + row) as u16,
                    (self.col + col) as u16,
                    width as usize,
                    height as u16,
                ),
                None => Rect::new_spec(
                    (self.row + row) as u16,
                    (self.col + col_offset) as u16,
                    0,
                    0,
                ),
            }
        }
    }

    /// A floating modal for the row with index `row_offset`, starting at the
    /// column with index `col_offset`. It goes below the row, or above it
    /// where there is too little room below; without room it has no size.
    pub fn modal_relative(
        &self,
        row_offset: u16,
        col_offset: u16,
        width: usize,
        height: u16,
    ) -> (modal: Self)
        requires
            self.in_range(),
            self.row + row_offset + 1 <= u16::MAX,
            self.col + col_offset <= u16::MAX,
            height + row_offset + 1 <= u16::MAX,
            width + col_offset <= usize::MAX,
        ensures
            modal == self.modal_relative_spec(row_offset, col_offset, width, height),
    {
        let mut width = width;
        let mut height = height;
        let mut row = row_offset + 1;
        let mut col = col_offset as usize;
        if row_offset >= self.height {
            return Rect::new(self.row + row, self.col + col_offset, 0, 0);
        }
        if self.height < height + row {
            if self.height - row > 3 {
                height = self.height - row;
            } else if row > 3 {
                height = min_u16(height, row - 1);
                row -= height + 1;
            } else {
                width = 0;
                height = 0;
            }
        }
        if self.width < width + col {
            if self.width > 30 + col {
                width = self.width - col;
            } else if self.width > 30 {
                col = self.width - 30;
                width = 30;
            } else {
                width = 0;
                height = 0;
            }
        }
        Rect::new(self.row + row, self.col + col as u16, width, height)
    }

    /// A floating modal for the cell at `row` and `col` of the screen; without
    /// size where the cell lies in front of the rectangle.
    pub fn modal_absolute(&self, row: u16, col: u16, width: usize, height: u16) -> (modal: Self)
        requires
            self.in_range(),
            row + 1 <= u16::MAX,
            height + row + 1 <= u16::MAX,
            width + col <= usize::MAX,
        ensures
            modal == if row < self.row || col < self.col {
                Rect::new_spec(row, col, 0, 0)
            } else {
                self.modal_relative_spec(
                    (row - self.row) as u16,
                    (col - self.col) as u16,
                    width,
                    height,
                )
            },
    {
        if row < self.row || col < self.col {
            return Rect::new(row, col, 0, 0);
        }
        self.modal_relative(row - self.row, col - self.col, width, height)
    }

    /// Splits off the first `width` columns; the second part holds the rest.
    pub fn split_horizont_rel(self, width: usize) -> (parts: (Self, Self))
        requires
            self.in_range(),
        ensures
            parts.0 == (Rect { width: least(width as int, self.width as int) as usize, ..self }),
            parts.1 == (Rect {
                col: (self.col + parts.0.width) as u16,
                width: (self.width - parts.0.width) as usize,
                ..self
            }),
    {
        let mut first = self;
        let taken_width = if self.width > width {
            self.width - width
        } else {
            0
        };
        first.width -= taken_width;
        (
            first,
            Self {
                row: self.row,
                col: self.col + first.width as u16,
                height: self.height,
                width: taken_width,
                borders: self.borders,
            },
        )
    }

    /// Splits off the first `height` rows; the second part holds the rest.
    pub fn split_vertical_rel(self, height: u16) -> (parts: (Self, Self))
        requires
            self.in_range(),
        ensures
            parts.0 == (Rect { height: least(height as int, self.height as int) as u16, ..self }),
            parts.1 == (Rect {
                row: (self.row + parts.0.height) as u16,
                height: (self.height - parts.0.height) as u16,
                ..self
            }),
    {
        let mut first = self;
        let remaining_height = if self.height > height {
            self.height - height
        } else {
            0
        };
        first.height -= remaining_height;
        (
            first,
            Self {
                row: self.row + first.height,
                col: self.col,
                height: remaining_height,
                width: self.width,
                borders: self.borders,
            },
        )
    }

    /// Takes the last line off the rectangle; an empty line where none is left.
    pub fn pop_line(&mut self) -> (line: Line)
        requires
            old(self).in_range(),
        ensures
            old(self).height == 0 ==> *final(self) == *old(self) && line == (Line {
                width: 0,
                ..old(self).line(0)
            }),
            old(self).height > 0 ==> *final(self) == (Rect {
                height: (old(self).height - 1) as u16,
                ..*old(self)
            }) && line == old(self).line(old(self).height - 1),
            final(self).in_range(),
    {
        if self.height == 0 {
            return Line { row: self.row + self.height, col: self.col, width: 0 };
        }
        self.height -= 1;
        let row = self.row + self.height;
        Line { row, col: self.col, width: self.width }
    }

    /// The line with index `rel_idx`, counted from the top.
    pub fn get_line(&self, rel_idx: u16) -> (line: Option<Line>)
        requires
            self.in_range(),
        ensures
            line == if rel_idx < self.height {
                Some(self.line(rel_idx as int))
            } else {
                None
            },
    {
        if rel_idx >= self.height {
            return None;
        }
        Some(Line { row: self.row + rel_idx, col: self.col, width: self.width })
    }

    /// Takes the first line off the rectangle.
    pub fn next_line(&mut self) -> (line: Option<Line>)
        requires
            old(self).in_range(),
        ensures
            old(self).height == 0 ==> *final(self) == *old(self) && line is None,
            old(self).height > 0 ==> *final(self) == (Rect {
                row: (old(self).row + 1) as u16,
                height: (old(self).height - 1) as u16,
                ..*old(self)
            }) && line == Some(old(self).line(0)),
            final(self).in_range(),
    {
        if self.height == 0 {
            return None;
        }
        let line = Line { row: self.row, col: self.col, width: self.width };
        self.height -= 1;
        self.row += 1;
        Some(line)
    }

    /// Takes the last line off the rectangle.
    pub fn next_line_back(&mut self) -> (line: Option<Line>)
        requires
            old(self).in_range(),
        ensures
            old(self).height == 0 ==> *final(self) == *old(self) && line is None,
            old(self).height > 0 ==> *final(self) == (Rect {
                height: (old(self).height - 1) as u16,
                ..*old(self)
            }) && line == Some(old(self).line(old(self).height - 1)),
            final(self).in_range(),
    {
        if self.height == 0 {
            return None;
        }
        self.height -= 1;
        let line = Line { row: self.row + self.height, col: self.col, width: self.width };
        Some(line)
    }

    /// The part of at most `height` rows and `width` columns that starts
    /// `down` rows below and `right` columns right of the corner of `self`.
    pub open spec fn part(self, down: int, right: int, height: int, width: int) -> Rect {
        Rect::new_spec(
            (self.row + down) as u16,
            (self.col + right) as u16,
            least(self.width as int, width) as usize,
            least(self.height as int, height) as u16,
        )
    }

    /// The part of at most `height` rows and `width` columns in the middle.
    pub fn center(&self, height: u16, width: usize) -> (rect: Self)
        requires
            self.in_range(),
        ensures
            rect == self.part(
                (self.height - rect.height) / 2,
                (self.width - rect.width) / 2,
                height as int,
                width as int,
            ),
    {
        let height = min_u16(self.height, height);
        let row = self.row + ((self.height - height) / 2);
        let width = min_usize(self.width, width);
        let col = self.col + ((self.width - width) / 2) as u16;
        Self { row, col, width, height, borders: Borders::empty() }
    }

    /// The part of at most `width` columns in the middle, over all rows.
    pub fn vcenter(self, width: usize) -> (rect: Self)
        requires
            self.in_range(),
        ensures
            rect == self.part(
                0,
                (self.width - rect.width) / 2,
                self.height as int,
                width as int,
            ),
    {
        let width = min_usize(self.width, width);
        let col = (self.width - width) as u16 / 2 + self.col;
        Self { row: self.row, col, width, height: self.height, borders: Borders::empty() }
    }

    /// The first `cols` columns.
    pub fn left(&self, cols: usize) -> (rect: Self)
        ensures
            rect == self.part(0, 0, self.height as int, cols as int),
    {
        let width = min_usize(cols, self.width);
        Rect {
            row: self.row,
            col: self.col,
            height: self.height,
            width,
            borders: Borders::empty(),
        }
    }

    /// The last `cols` columns.
    pub fn right(&self, cols: usize) -> (rect: Self)
        requires
            self.in_range(),
        ensures
            rect == self.part(0, self.width - rect.width, self.height as int, cols as int),
    {
        let width = min_usize(cols, self.width);
        let col = self.col + (self.width - width) as u16;
        Rect { row: self.row, col, height: self.height, width, borders: Borders::empty() }
    }

    /// The first `rows` rows.
    pub fn top(&self, rows: u16) -> (rect: Self)
        ensures
            rect == self.part(0, 0, rows as int, self.width as int),
    {
        let height = min_u16(rows, self.height);
        Rect { row: self.row, col: self.col, height, width: self.width, borders: Borders::empty() }
    }

    /// The last `rows` rows.
    pub fn bot(&self, rows: u16) -> (rect: Self)
        requires
            self.in_range(),
        ensures
            rect == self.part(self.height - rect.height, 0, rows as int, self.width as int),
    {
        let height = min_u16(rows, self.height);
        let row = self.row + (self.height - height);
        Rect { row, col: self.col, height, width: self.width, borders: Borders::empty() }
    }

    /// The part of at most `height` rows and `width` columns in the upper right corner.
    pub fn right_top_corner(&self, height: u16, width: usize) -> (rect: Self)
        requires
            self.in_range(),
        ensures
            rect == self.part(0, self.width - rect.width, height as int, width as int),
    {
        let height = min_u16(self.height, height);
        let width = min_usize(self.width, width);
        let col = self.col + (self.width - width) as u16;
        Self { row: self.row, col, width, height, borders: Borders::empty() }
    }

    /// The part of at most `height` rows and `width` columns in the upper left corner.
    pub fn left_top_corner(&self, height: u16, width: usize) -> (rect: Self)
        ensures
            rect == self.part(0, 0, height as int, width as int),
    {
        let height = min_u16(self.height, height);
        let width = min_usize(self.width, width);
        Self { row: self.row, col: self.col, width, height, borders: Borders::empty() }
    }

    /// The part of at most `height` rows and `width` columns in the lower right corner.
    pub fn right_bot_corner(&self, height: u16, width: usize) -> (rect: Self)
        requires
            self.in_range(),
        ensures
            rect == self.part(
                self.height - rect.height,
                self.width - rect.width,
                height as int,
                width as int,
            ),
    {
        let height = min_u16(self.height, height);
        let width = min_usize(self.width, width);
        let row = self.row + (self.height - height);
        let col = self.col + (self.width - width) as u16;
        Self { row, col, width, height, borders: Borders::empty() }
    }

    /// The part of at most `height` rows and `width` columns in the lower left corner.
    pub fn left_bot_corner(&self, height: u16, width: usize) -> (rect: Self)
        requires
            self.in_range(),
        ensures
            rect == self.part(self.height - rect.height, 0, height as int, width as int),
    {
        let height = min_u16(self.height, height);
        let width = min_usize(self.width, width);
        let row = self.row + (self.height - height);
        Self { row, col: self.col, width, height, borders: Borders::empty() }
    }

    /// What is left inside a border of one cell on every side.
    pub open spec fn inner(self) -> Rect {
        Rect {
            row: (self.row + 1) as u16,
            col: (self.col + 1) as u16,
            width: (self.width - 2) as usize,
            height: (self.height - 2) as u16,
            borders: Borders::every(),
        }
    }

    /// Room for a border of one cell on every side.
    pub open spec fn has_room(self) -> bool {
        self.width >= 2 && self.height >= 2 && self.row < u16::MAX && self.col < u16::MAX
    }

    /// Shrinks the rectangle by a border of one cell on every side.
    pub fn bordered(&mut self)
        requires
            old(self).has_room(),
        ensures
            *final(self) == old(self).inner(),
    {
        self.col += 1;
        self.row += 1;
        self.height -= 2;
        self.width -= 2;
        self.borders = Borders::all();
    }

    /// The rectangle inside a border of one cell on every side.
    pub fn with_borders(self) -> (rect: Self)
        requires
            self.has_room(),
        ensures
            rect == self.inner(),
    {
        let mut rect = self;
        rect.bordered();
        rect
    }

    /// Gives the first row to a border.
    pub fn top_border(&mut self) -> (rect: &mut Self)
        requires
            old(self).height >= 1,
            old(self).row < u16::MAX,
        ensures
            *rect == (Rect {
                row: (old(self).row + 1) as u16,
                height: (old(self).height - 1) as u16,
                borders: old(self).borders.union(Borders { top: true, ..Borders::none() }),
                ..*old(self)
            }),
            *final(self) == *final(rect),
    {
        self.row += 1;
        self.height -= 1;
        self.borders.insert(Borders::top());
        self
    }

    /// Gives the last row to a border.
    pub fn bot_border(&mut self) -> (rect: &mut Self)
        requires
            old(self).height >= 1,
        ensures
            *rect == (Rect {
                height: (old(self).height - 1) as u16,
                borders: old(self).borders.union(Borders { bottom: true, ..Borders::none() }),
                ..*old(self)
            }),
            *final(self) == *final(rect),
    {
        self.height -= 1;
        self.borders.insert(Borders::bottom());
        self
    }

    /// Gives the last column to a border.
    pub fn right_border(&mut self) -> (rect: &mut Self)
        requires
            old(self).width >= 1,
        ensures
            *rect == (Rect {
                width: (old(self).width - 1) as usize,
                borders: old(self).borders.union(Borders { right: true, ..Borders::none() }),
                ..*old(self)
            }),
            *final(self) == *final(rect),
    {
        self.width -= 1;
        self.borders.insert(Borders::right());
        self
    }

    /// Gives the first column to a border.
    pub fn left_border(&mut self) -> (rect: &mut Self)
        requires
            old(self).width >= 1,
            old(self).col < u16::MAX,
        ensures
            *rect == (Rect {
                col: (old(self).col + 1) as u16,
                width: (old(self).width - 1) as usize,
                borders: old(self).borders.union(Borders { left: true, ..Borders::none() }),
                ..*old(self)
            }),
            *final(self) == *final(rect),
    {
        self.col += 1;
        self.width -= 1;
        self.borders.insert(Borders::left());
        self
    }
}

impl From<(u16, u16)> for Rect {
    fn from(size: (u16, u16)) -> (rect: Self) {
        Self { row: 0, col: 0, width: size.0 as usize, height: size.1, borders: Borders::empty() }
    }
}

impl FromSpecImpl<(u16, u16)> for Rect {
    open spec fn obeys_from_spec() -> bool {
        true
    }

    open spec fn from_spec(size: (u16, u16)) -> Rect {
        Rect::new_spec(0, 0, size.0 as usize, size.1)
    }
}

} // verus!
