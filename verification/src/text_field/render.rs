//! Rendering of the text field into one line.
//!
//! The text is cut into at most four pieces: the text in front of the
//! cursor, the character under the cursor, the selected text and the rest.
//! The pieces go to a line builder one after the other, so that the whole
//! never takes more than the width of the line, and the rest of the line is
//! padded.
use crate::backend::{Backend, Op};
use crate::count_as_string;
use crate::count_text;
use crate::layout::line::{head_fit, left_after, then_pad, Line, LineBuilder};
use crate::text_field::model::FieldState;
use crate::text_field::TextField;
use crate::utils::encoding::{
    byte_len, char_from, index_at, lemma_boundary_index, lemma_index_at, lemma_offset_ends,
    lemma_offset_monotone, lemma_offset_step, offset_of, slice, str_len,
};
use crate::utils::width::{char_cols_of, cols, str_width, unicode_str_width};
use vstd::prelude::*;

verus! {

/// A piece of text with the style it is printed in, if it has one of its own.
pub type Piece<S> = (Seq<char>, Option<S>);

/// What a line builder with `width` columns left prints for `pieces`, pushed in order.
pub open spec fn push_ops<S, C>(width: usize, pieces: Seq<Piece<S>>) -> Seq<Op<S, C>>
    decreases pieces.len(),
{
    if pieces.len() == 0 {
        Seq::empty()
    } else {
        let before = pieces.drop_last();
        let fit = head_fit(pieces.last().0, width_after(width, before));
        push_ops(width, before).push(
            match pieces.last().1 {
                Some(style) => Op::PrintStyled(fit, style),
                None => Op::Print(fit),
            },
        )
    }
}

/// The columns that a line builder with `width` columns has left after `pieces`.
pub open spec fn width_after<S>(width: usize, pieces: Seq<Piece<S>>) -> usize
    decreases pieces.len(),
{
    if pieces.len() == 0 {
        width
    } else {
        left_after(width_after(width, pieces.drop_last()), cols(pieces.last().0))
    }
}

/// The columns that have to be free for the text in front of the cursor, the
/// cursor itself and one column behind it, once the first `j` characters are
/// scrolled out of sight. `k` is the character index of the cursor.
pub open spec fn scroll_need(text: Seq<char>, k: int, j: int) -> int {
    let need = unicode_str_width(text.take(k)) + 2 - cols(text.take(j));
    if need < 0 {
        0
    } else {
        need
    }
}

/// Index of the first character, from index `j` on, at which the line can
/// start so that the cursor at index `k` stays within `width` columns; `k`
/// itself if there is none.
pub open spec fn scroll_index(text: Seq<char>, k: int, j: int, width: usize) -> int
    decreases k - j,
{
    if j >= k {
        k
    } else if width > scroll_need(text, k, j) {
        j
    } else {
        scroll_index(text, k, j + 1, width)
    }
}

impl FieldState {
    /// Character index at which the visible part of the text starts in a line
    /// of `width` columns.
    pub open spec fn scroll(self, width: usize) -> int {
        scroll_index(self.text, self.index(), 0, width)
    }

    /// The characters from index `from` up to `to`, unstyled.
    pub open spec fn plain<S>(self, from: int, to: int) -> Piece<S> {
        (self.text.subrange(from, to), None)
    }

    /// The characters from index `from` up to `to`, in `style`.
    pub open spec fn styled<S>(self, from: int, to: int, style: S) -> Piece<S> {
        (self.text.subrange(from, to), Some(style))
    }

    /// The pieces without a selection: the text in front of the cursor, the
    /// character under the cursor or a blank at the end of the text, and the rest.
    pub open spec fn cursor_pieces<S>(self, width: usize, cursor_style: S) -> Seq<Piece<S>> {
        let k = self.index();
        let n = self.text.len() as int;
        let scroll = self.scroll(width);
        if k < n {
            seq![
                self.plain(scroll, k),
                self.styled(k, k + 1, cursor_style),
                self.plain(k + 1, n),
            ]
        } else {
            seq![self.plain(scroll, n), (" "@, Some(cursor_style))]
        }
    }

    /// The pieces with a selection that holds at least one visible character.
    pub open spec fn select_pieces<S>(
        self,
        width: usize,
        cursor_style: S,
        select_style: S,
    ) -> Seq<Piece<S>> {
        let k = self.index();
        let n = self.text.len() as int;
        let scroll = self.scroll(width);
        let from = index_at(self.text, self.low());
        let to = index_at(self.text, self.high());
        let head = if scroll < from {
            seq![self.plain(scroll, from)]
        } else {
            Seq::empty()
        };
        let shown = if scroll < from {
            from
        } else {
            scroll
        };
        if k >= n {
            head + seq![self.styled(shown, n, select_style), (" "@, Some(cursor_style))]
        } else if shown == k {
            head + seq![
                self.styled(k, k + 1, cursor_style),
                self.styled(k + 1, to, select_style),
                self.plain(to, n),
            ]
        } else {
            head + seq![
                self.styled(shown, k, select_style),
                self.styled(k, k + 1, cursor_style),
                self.plain(k + 1, n),
            ]
        }
    }

    /// Whether the selection, cut to the visible part of the text, holds a character.
    pub open spec fn shows_selection(self, width: usize) -> bool {
        self.has_selection() && self.scroll(width) < index_at(self.text, self.high())
    }

    /// The pieces of the field in a line of `width` columns.
    pub open spec fn pieces<S>(self, width: usize, cursor_style: S, select_style: S) -> Seq<
        Piece<S>,
    > {
        if self.shows_selection(width) {
            self.select_pieces(width, cursor_style, select_style)
        } else {
            self.cursor_pieces(width, cursor_style)
        }
    }

    /// What a builder with `width` columns left prints for the field: its
    /// pieces and the padding. Nothing where no width is left.
    pub open spec fn field_ops<S, C>(self, width: usize, cursor_style: S, select_style: S) -> Seq<
        Op<S, C>,
    > {
        if width == 0 {
            Seq::empty()
        } else {
            let pieces = self.pieces(width, cursor_style, select_style);
            then_pad(push_ops(width, pieces), width_after(width, pieces) as int)
        }
    }

    /// What `widget` sends to the backend: the move to the line, the prompt,
    /// and the field in the width that the prompt leaves.
    pub open spec fn widget_ops<S, C>(self, line: Line, cursor_style: S, select_style: S) -> Seq<
        Op<S, C>,
    > {
        let prompt = seq![(" >> "@, None::<S>)];
        seq![Op::GoTo { row: line.row, col: line.col }] + push_ops(line.width, prompt)
            + self.field_ops(width_after(line.width, prompt), cursor_style, select_style)
    }

    /// What `widget_with_count` sends to the backend: the move to the line,
    /// the count, the prompt, and the field in the width that they leave.
    pub open spec fn widget_with_count_ops<S, C>(
        self,
        line: Line,
        count: usize,
        cursor_style: S,
        select_style: S,
    ) -> Seq<Op<S, C>> {
        let prompt = seq![(count_text(count), None::<S>), (" >> "@, None::<S>)];
        seq![Op::GoTo { row: line.row, col: line.col }] + push_ops(line.width, prompt)
            + self.field_ops(width_after(line.width, prompt), cursor_style, select_style)
    }
}

/// Rendering depends on the field, the line and the styles alone: whatever
/// the backend received before, the same field in the same line adds the same
/// instructions.
pub proof fn lemma_render_is_repeatable<S, C>(
    st: FieldState,
    line: Line,
    cursor_style: S,
    select_style: S,
    first: Seq<Op<S, C>>,
    second: Seq<Op<S, C>>,
)
    ensures
        (first + st.widget_ops(line, cursor_style, select_style)).skip(first.len() as int) == (
        second + st.widget_ops(line, cursor_style, select_style)).skip(second.len() as int),
        (first + st.field_ops(line.width, cursor_style, select_style)).skip(first.len() as int)
            == (second + st.field_ops(line.width, cursor_style, select_style)).skip(
            second.len() as int,
        ),
{
    let ops = st.widget_ops::<S, C>(line, cursor_style, select_style);
    assert((first + ops).skip(first.len() as int) =~= ops);
    assert((second + ops).skip(second.len() as int) =~= ops);
    let inner = st.field_ops::<S, C>(line.width, cursor_style, select_style);
    assert((first + inner).skip(first.len() as int) =~= inner);
    assert((second + inner).skip(second.len() as int) =~= inner);
}

/// Columns that one instruction fills: those of the text it prints or of its padding.
pub open spec fn op_cols<S, C>(op: Op<S, C>) -> nat {
    match op {
        Op::Print(text) => cols(text),
        Op::PrintStyled(text, _) => cols(text),
        Op::Pad(width) => width as nat,
        Op::PadStyled(width, _) => width as nat,
        _ => 0,
    }
}

/// Columns that instructions fill one after the other.
pub open spec fn ops_cols<S, C>(ops: Seq<Op<S, C>>) -> nat
    decreases ops.len(),
{
    if ops.len() == 0 {
        0
    } else {
        ops_cols(ops.drop_last()) + op_cols(ops.last())
    }
}

/// Columns that all `pieces` take together, uncut.
pub open spec fn pieces_cols<S>(pieces: Seq<Piece<S>>) -> nat
    decreases pieces.len(),
{
    if pieces.len() == 0 {
        0
    } else {
        pieces_cols(pieces.drop_last()) + cols(pieces.last().0)
    }
}

/// What a builder prints never takes more columns than it had: the columns
/// of what is printed and the columns that are left make up the width at
/// most, and exactly the width where all pieces fit.
pub proof fn lemma_push_ops_fit<S, C>(width: usize, pieces: Seq<Piece<S>>)
    ensures
        ops_cols(push_ops::<S, C>(width, pieces)) + width_after(width, pieces) <= width,
        pieces_cols(pieces) <= width ==> ops_cols(push_ops::<S, C>(width, pieces)) + width_after(
            width,
            pieces,
        ) == width && ops_cols(push_ops::<S, C>(width, pieces)) == pieces_cols(pieces),
    decreases pieces.len(),
{
    if pieces.len() > 0 {
        let before = pieces.drop_last();
        lemma_push_ops_fit::<S, C>(width, before);
        let room = width_after(width, before);
        let text = pieces.last().0;
        crate::utils::width::lemma_fit_len_is_longest(text, room as nat);
        let ops = push_ops::<S, C>(width, pieces);
        assert(ops.drop_last() =~= push_ops::<S, C>(width, before));
        if cols(text) <= room {
            assert(text.take(text.len() as int) =~= text);
        }
    }
}

/// The field never fills more columns than the builder has left, and it
/// fills all of them where its pieces fit: what the text leaves free is padded.
pub proof fn lemma_field_fills_the_width<S, C>(
    st: FieldState,
    width: usize,
    cursor_style: S,
    select_style: S,
)
    ensures
        ops_cols(st.field_ops::<S, C>(width, cursor_style, select_style)) <= width,
        pieces_cols(st.pieces(width, cursor_style, select_style)) <= width ==> ops_cols(
            st.field_ops::<S, C>(width, cursor_style, select_style),
        ) == width,
{
    if width > 0 {
        let pieces = st.pieces(width, cursor_style, select_style);
        lemma_push_ops_fit::<S, C>(width, pieces);
        let printed = push_ops::<S, C>(width, pieces);
        let left = width_after(width, pieces);
        if left != 0 {
            assert(then_pad(printed, left as int).drop_last() =~= printed);
        }
    }
}

/// Pushes one piece and keeps the account of what the builder printed.
fn push_piece<B: Backend>(
    builder: &mut LineBuilder,
    text: &str,
    style: Option<B::Style>,
    backend: &mut B,
    Ghost(start): Ghost<Seq<Op<B::Style, B::Color>>>,
    Ghost(width): Ghost<usize>,
    Ghost(pieces): Ghost<Seq<Piece<B::Style>>>,
)
    requires
        old(backend).trace() == start + push_ops::<B::Style, B::Color>(width, pieces),
        old(builder)@.width == width_after(width, pieces),
    ensures
        final(backend).trace() == start + push_ops::<B::Style, B::Color>(
            width,
            pieces.push((text@, style)),
        ),
        final(builder)@.width == width_after(width, pieces.push((text@, style))),
        final(builder)@.row == old(builder)@.row,
        final(builder)@.col == old(builder)@.col,
        final(backend).style() == old(backend).style(),
{
    match style {
        Some(style) => {
            builder.push_styled(text, style, backend);
        },
        None => {
            builder.push(text, backend);
        },
    }
    proof {
        let after = pieces.push((text@, style));
        assert(after.drop_last() =~= pieces);
        assert(backend.trace() =~= start + push_ops::<B::Style, B::Color>(width, after));
    }
}

impl TextField {
    /// Prints the field as the line " >> text" into `line`.
    pub fn widget<B: Backend>(
        &self,
        line: Line,
        cursor_style: B::Style,
        select_style: B::Style,
        backend: &mut B,
    )
        requires
            self@.wf(),
        ensures
            final(backend).trace() == old(backend).trace() + self@.widget_ops(
                line,
                cursor_style,
                select_style,
            ),
            final(backend).style() == old(backend).style(),
    {
        let mut builder = line.unsafe_builder(backend);
        let ghost start = backend.trace();
        proof {
            assert(start =~= start + push_ops::<B::Style, B::Color>(line.width, Seq::empty()));
        }
        push_piece(
            &mut builder,
            " >> ",
            None,
            backend,
            Ghost(start),
            Ghost(line.width),
            Ghost(Seq::empty()),
        );
        proof {
            assert(Seq::<Piece<B::Style>>::empty().push((" >> "@, None)) =~= seq![
                (" >> "@, None::<B::Style>),
            ]);
        }
        self.insert_formatted_text(builder, cursor_style, select_style, backend);
        proof {
            assert(backend.trace() =~= old(backend).trace() + self@.widget_ops::<
                B::Style,
                B::Color,
            >(line, cursor_style, select_style));
        }
    }

    /// Prints the field as the line "99+ >> text" into `line`.
    pub fn widget_with_count<B: Backend>(
        &self,
        line: Line,
        count: usize,
        cursor_style: B::Style,
        select_style: B::Style,
        backend: &mut B,
    )
        requires
            self@.wf(),
        ensures
            final(backend).trace() == old(backend).trace() + self@.widget_with_count_ops(
                line,
                count,
                cursor_style,
                select_style,
            ),
            final(backend).style() == old(backend).style(),
    {
        let mut builder = line.unsafe_builder(backend);
        let ghost start = backend.trace();
        proof {
            assert(start =~= start + push_ops::<B::Style, B::Color>(line.width, Seq::empty()));
        }
        let counted = count_as_string(count);
        push_piece(
            &mut builder,
            counted.as_str(),
            None,
            backend,
            Ghost(start),
            Ghost(line.width),
            Ghost(Seq::empty()),
        );
        let ghost one = Seq::<Piece<B::Style>>::empty().push((count_text(count), None));
        push_piece(
            &mut builder,
            " >> ",
            None,
            backend,
            Ghost(start),
            Ghost(line.width),
            Ghost(one),
        );
        proof {
            assert(one.push((" >> "@, None)) =~= seq![
                (count_text(count), None::<B::Style>),
                (" >> "@, None::<B::Style>),
            ]);
        }
        self.insert_formatted_text(builder, cursor_style, select_style, backend);
        proof {
            assert(backend.trace() =~= old(backend).trace() + self@.widget_with_count_ops::<
                B::Style,
                B::Color,
            >(line, count, cursor_style, select_style));
        }
    }

    /// Prints the field into what is left of the builder's line and pads the rest.
    pub fn insert_formatted_text<B: Backend>(
        &self,
        line_builder: LineBuilder,
        cursor_style: B::Style,
        select_style: B::Style,
        backend: &mut B,
    )
        requires
            self@.wf(),
        ensures
            final(backend).trace() == old(backend).trace() + self@.field_ops(
                line_builder@.width,
                cursor_style,
                select_style,
            ),
            final(backend).style() == old(backend).style(),
    {
        if line_builder.width() == 0 {
            proof {
                assert(backend.trace() =~= backend.trace() + Seq::empty());
            }
            return ;
        }
        let width = line_builder.width();
        let offset = self.calculate_width_offset(width);
        let shows = match self.select() {
            Some((from, to)) => from != to && offset < to,
            None => false,
        };
        proof {
            lemma_boundary_index(self@.text, self@.cursor);
            lemma_index_at(self@.text, self@.scroll(width));
            if self@.select is Some {
                lemma_boundary_index(self@.text, self@.high());
                lemma_boundary_index(self@.text, self@.low());
                if self@.scroll(width) < index_at(self@.text, self@.high()) {
                    lemma_offset_monotone(
                        self@.text,
                        self@.scroll(width) + 1,
                        index_at(self@.text, self@.high()),
                    );
                    lemma_offset_step(self@.text, self@.scroll(width));
                } else {
                    lemma_offset_monotone(
                        self@.text,
                        index_at(self@.text, self@.high()),
                        self@.scroll(width),
                    );
                }
            }
        }
        if shows {
            self.text_cursor_select(offset, cursor_style, select_style, line_builder, backend);
        } else {
            self.text_cursor(offset, cursor_style, line_builder, backend);
        }
    }

    fn text_cursor<B: Backend>(
        &self,
        offset: usize,
        cursor_style: B::Style,
        builder: LineBuilder,
        backend: &mut B,
    )
        requires
            self@.wf(),
            builder@.width > 0,
            offset == offset_of(self@.text, self@.scroll(builder@.width)),
        ensures
            final(backend).trace() == old(backend).trace() + then_pad(
                push_ops(builder@.width, self@.cursor_pieces(builder@.width, cursor_style)),
                width_after(builder@.width, self@.cursor_pieces(builder@.width, cursor_style))
                    as int,
            ),
            final(backend).style() == old(backend).style(),
    {
        let mut builder = builder;
        let ghost width = builder@.width;
        let ghost start = backend.trace();
        let ghost k = self@.index();
        let ghost scroll = self@.scroll(width);
        let text = self.text.as_str();
        let n = str_len(text);
        proof {
            lemma_boundary_index(self@.text, self@.cursor);
            lemma_scroll_bounds(self@.text, k, 0, width);
            lemma_index_at(self@.text, scroll);
            lemma_index_at(self@.text, k);
            lemma_index_at(self@.text, self@.text.len() as int);
            lemma_offset_ends(self@.text);
            lemma_offset_monotone(self@.text, scroll, k);
            assert(start =~= start + push_ops::<B::Style, B::Color>(width, Seq::empty()));
        }
        let ghost none = Seq::<Piece<B::Style>>::empty();
        if self.cursor < n {
            let (_, end) = char_from(text, self.cursor);
            push_piece(
                &mut builder,
                slice(text, offset, self.cursor),
                None,
                backend,
                Ghost(start),
                Ghost(width),
                Ghost(none),
            );
            let ghost one = none.push(self@.plain(scroll, k));
            push_piece(
                &mut builder,
                slice(text, self.cursor, end),
                Some(cursor_style),
                backend,
                Ghost(start),
                Ghost(width),
                Ghost(one),
            );
            let ghost two = one.push(self@.styled(k, k + 1, cursor_style));
            push_piece(
                &mut builder,
                slice(text, end, n),
                None,
                backend,
                Ghost(start),
                Ghost(width),
                Ghost(two),
            );
            proof {
                assert(two.push(self@.plain(k + 1, self@.text.len() as int))
                    =~= self@.cursor_pieces(width, cursor_style));
            }
        } else {
            push_piece(
                &mut builder,
                slice(text, offset, n),
                None,
                backend,
                Ghost(start),
                Ghost(width),
                Ghost(none),
            );
            let ghost one = none.push(self@.plain(scroll, self@.text.len() as int));
            push_piece(
                &mut builder,
                " ",
                Some(cursor_style),
                backend,
                Ghost(start),
                Ghost(width),
                Ghost(one),
            );
            proof {
                assert(one.push((" "@, Some(cursor_style))) =~= self@.cursor_pieces(
                    width,
                    cursor_style,
                ));
            }
        }
        builder.pad(backend);
        proof {
            let pieces = self@.cursor_pieces(width, cursor_style);
            assert(backend.trace() =~= start + then_pad(
                push_ops::<B::Style, B::Color>(width, pieces),
                width_after(width, pieces) as int,
            ));
        }
    }

    fn text_cursor_select<B: Backend>(
        &self,
        offset: usize,
        cursor_style: B::Style,
        select_style: B::Style,
        builder: LineBuilder,
        backend: &mut B,
    )
        requires
            self@.wf(),
            builder@.width > 0,
            offset == offset_of(self@.text, self@.scroll(builder@.width)),
            self@.shows_selection(builder@.width),
        ensures
            final(backend).trace() == old(backend).trace() + then_pad(
                push_ops(
                    builder@.width,
                    self@.select_pieces(builder@.width, cursor_style, select_style),
                ),
                width_after(
                    builder@.width,
                    self@.select_pieces(builder@.width, cursor_style, select_style),
                ) as int,
            ),
            final(backend).style() == old(backend).style(),
    {
        let mut builder = builder;
        let ghost width = builder@.width;
        let ghost start = backend.trace();
        let ghost k = self@.index();
        let ghost scroll = self@.scroll(width);
        let ghost kf = index_at(self@.text, self@.low());
        let ghost kt = index_at(self@.text, self@.high());
        let ghost len = self@.text.len() as int;
        let text = self.text.as_str();
        let n = str_len(text);
        let (low, high) = match self.select() {
            Some((low, high)) => (low, high),
            None => unreached(),
        };
        proof {
            lemma_boundary_index(self@.text, self@.cursor);
            lemma_boundary_index(self@.text, self@.low());
            lemma_boundary_index(self@.text, self@.high());
            lemma_scroll_bounds(self@.text, k, 0, width);
            lemma_index_at(self@.text, scroll);
            lemma_index_at(self@.text, k);
            lemma_index_at(self@.text, len);
            lemma_offset_ends(self@.text);
            lemma_offset_monotone(self@.text, scroll, k);
            if kf > kt {
                lemma_offset_monotone(self@.text, kt, kf);
            }
            if kf == kt {
                assert(false);
            }
            lemma_offset_monotone(self@.text, kf, kt);
            if scroll < kf {
                lemma_offset_monotone(self@.text, scroll + 1, kf);
                lemma_offset_step(self@.text, scroll);
            } else {
                lemma_offset_monotone(self@.text, kf, scroll);
            }
            assert(start =~= start + push_ops::<B::Style, B::Color>(width, Seq::empty()));
        }
        let ghost mut pieces = Seq::<Piece<B::Style>>::empty();
        let mut from = low;
        if offset < from {
            push_piece(
                &mut builder,
                slice(text, offset, from),
                None,
                backend,
                Ghost(start),
                Ghost(width),
                Ghost(pieces),
            );
            proof {
                pieces = pieces.push(self@.plain(scroll, kf));
            }
        } else {
            from = offset;
        }
        let ghost head = pieces;
        let ghost shown = if scroll < kf {
            kf
        } else {
            scroll
        };
        proof {
            lemma_index_at(self@.text, shown);
            assert(head =~= if scroll < kf {
                seq![self@.plain(scroll, kf)]
            } else {
                Seq::empty()
            });
        }
        if self.cursor < n {
            let (_, end) = char_from(text, self.cursor);
            if from == self.cursor {
                proof {
                    lemma_offset_monotone(self@.text, k + 1, kt);
                    lemma_offset_step(self@.text, k);
                }
                push_piece(
                    &mut builder,
                    slice(text, self.cursor, end),
                    Some(cursor_style),
                    backend,
                    Ghost(start),
                    Ghost(width),
                    Ghost(pieces),
                );
                proof {
                    pieces = pieces.push(self@.styled(k, k + 1, cursor_style));
                }
                push_piece(
                    &mut builder,
                    slice(text, end, high),
                    Some(select_style),
                    backend,
                    Ghost(start),
                    Ghost(width),
                    Ghost(pieces),
                );
                proof {
                    pieces = pieces.push(self@.styled(k + 1, kt, select_style));
                }
                push_piece(
                    &mut builder,
                    slice(text, high, n),
                    None,
                    backend,
                    Ghost(start),
                    Ghost(width),
                    Ghost(pieces),
                );
                proof {
                    pieces = pieces.push(self@.plain(kt, len));
                    assert(pieces =~= self@.select_pieces(width, cursor_style, select_style));
                }
            } else {
                proof {
                    if shown > k {
                        lemma_offset_monotone(self@.text, k, shown);
                    }
                    lemma_offset_monotone(self@.text, shown, k);
                }
                push_piece(
                    &mut builder,
                    slice(text, from, self.cursor),
                    Some(select_style),
                    backend,
                    Ghost(start),
                    Ghost(width),
                    Ghost(pieces),
                );
                proof {
                    pieces = pieces.push(self@.styled(shown, k, select_style));
                }
                push_piece(
                    &mut builder,
                    slice(text, self.cursor, end),
                    Some(cursor_style),
                    backend,
                    Ghost(start),
                    Ghost(width),
                    Ghost(pieces),
                );
                proof {
                    pieces = pieces.push(self@.styled(k, k + 1, cursor_style));
                }
                push_piece(
                    &mut builder,
                    slice(text, end, n),
                    None,
                    backend,
                    Ghost(start),
                    Ghost(width),
                    Ghost(pieces),
                );
                proof {
                    pieces = pieces.push(self@.plain(k + 1, len));
                    assert(pieces =~= self@.select_pieces(width, cursor_style, select_style));
                }
            }
        } else {
            proof {
                lemma_offset_monotone(self@.text, shown, len);
            }
            push_piece(
                &mut builder,
                slice(text, from, n),
                Some(select_style),
                backend,
                Ghost(start),
                Ghost(width),
                Ghost(pieces),
            );
            proof {
                pieces = pieces.push(self@.styled(shown, len, select_style));
            }
            push_piece(
                &mut builder,
                " ",
                Some(cursor_style),
                backend,
                Ghost(start),
                Ghost(width),
                Ghost(pieces),
            );
            proof {
                pieces = pieces.push((" "@, Some(cursor_style)));
                assert(pieces =~= self@.select_pieces(width, cursor_style, select_style));
            }
        }
        builder.pad(backend);
        proof {
            assert(backend.trace() =~= start + then_pad(
                push_ops::<B::Style, B::Color>(width, pieces),
                width_after(width, pieces) as int,
            ));
        }
    }

    /// Byte offset at which the visible part of the text starts, so that the
    /// cursor stays within `max_width` columns.
    fn calculate_width_offset(&self, max_width: usize) -> (offset: usize)
        requires
            self@.wf(),
        ensures
            offset == offset_of(self@.text, self@.scroll(max_width)),
            0 <= self@.scroll(max_width) <= self@.index(),
            offset <= self@.cursor,
    {
        let text = self.text.as_str();
        let ghost k = self@.index();
        proof {
            lemma_boundary_index(self@.text, self@.cursor);
            lemma_offset_ends(self@.text);
            lemma_index_at(self@.text, 0);
            lemma_scroll_bounds(self@.text, k, 0, max_width);
            lemma_offset_monotone(self@.text, self@.scroll(max_width), k);
        }
        let cursor_prefix = slice(text, 0, self.cursor);
        proof {
            assert(self@.text.subrange(0, k) =~= self@.text.take(k));
        }
        let whole: u128 = str_width(cursor_prefix) as u128 + 2;
        let mut passed: usize = 0;
        let mut at: usize = 0;
        let ghost mut j: int = 0;
        proof {
            assert(self@.text.take(0) =~= Seq::<char>::empty());
        }
        while at < self.cursor
            invariant
                0 <= j <= k <= self@.text.len(),
                self.cursor == offset_of(self@.text, k),
                at == offset_of(self@.text, j),
                at <= self.cursor,
                passed == cols(self@.text.take(j)),
                passed <= at,
                whole == unicode_str_width(self@.text.take(k)) + 2,
                scroll_index(self@.text, k, 0, max_width) == scroll_index(
                    self@.text,
                    k,
                    j,
                    max_width,
                ),
                text@ == self@.text,
                self.cursor <= byte_len(self@.text),
            decreases self.cursor - at,
        {
            proof {
                lemma_index_at(self@.text, j);
                lemma_index_at(self@.text, k);
                if j >= k {
                    lemma_offset_monotone(self@.text, k, j);
                }
                crate::utils::width::lemma_cols_step(self@.text, j);
            }
            let need: u128 = if passed as u128 > whole {
                0
            } else {
                whole - passed as u128
            };
            if max_width as u128 > need {
                return at;
            }
            let (ch, next) = char_from(text, at);
            passed = passed + char_cols_of(ch);
            at = next;
            proof {
                lemma_offset_monotone(self@.text, j + 1, k);
                j = j + 1;
            }
        }
        proof {
            lemma_index_at(self@.text, j);
            lemma_index_at(self@.text, k);
        }
        self.cursor
    }
}

/// The line never starts behind the cursor.
pub proof fn lemma_scroll_bounds(text: Seq<char>, k: int, j: int, width: usize)
    requires
        0 <= j <= k,
    ensures
        j <= scroll_index(text, k, j, width) <= k,
    decreases k - j,
{
    if j < k && !(width > scroll_need(text, k, j)) {
        lemma_scroll_bounds(text, k, j + 1, width);
    }
}

} // verus!
