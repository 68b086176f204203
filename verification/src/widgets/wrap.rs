//! Wrapping a text over the lines of a rectangle.
use crate::backend::{Backend, Op};
use crate::layout::iter::IterLines;
use crate::layout::line::{then_pad, Line};
use crate::utils::chunks::{StrChunks, WriteChunks, PLACEHOLDER_TEXT};
use crate::utils::width::{cols, fit_len};
use crate::widgets::text::{behind, first_chars, print_op, single_bytes, Text};
use vstd::prelude::*;

verus! {

/// What wrapping a text does: the instructions for the backend, the number
/// of lines that were taken, and the columns that are left free in the last
/// line, or `None` if the lines ran out before the text did.
pub struct Wrapped<S, C> {
    pub ops: Seq<Op<S, C>>,
    pub used: int,
    pub remainder: Option<usize>,
}

/// The move of the cursor to the start of `line`.
pub open spec fn go<S, C>(line: Line) -> Seq<Op<S, C>> {
    seq![Op::GoTo { row: line.row, col: line.col }]
}

/// `first`, and behind it `then` on the line after.
pub open spec fn and_then<S, C>(first: Seq<Op<S, C>>, line: Line, then: Wrapped<S, C>) -> Wrapped<
    S,
    C,
> {
    Wrapped { ops: first + go(line) + then.ops, used: 1 + then.used, remainder: then.remainder }
}

/// A text of one-byte characters goes on from the line of the cursor in
/// pieces of `max` characters: `rest` is left of the text and `remaining` of
/// its width. A text with a style stops with the piece that fits, another
/// text with the piece that leaves a column free.
pub open spec fn pieces_simple<S, C>(
    rest: Seq<char>,
    remaining: int,
    max: usize,
    style: Option<S>,
    lines: Seq<Line>,
) -> Wrapped<S, C>
    decreases lines.len(),
{
    let more = if style is Some {
        remaining > max
    } else {
        remaining >= max
    };
    if !more {
        Wrapped {
            ops: seq![print_op(rest, style)],
            used: 0,
            remainder: Some((max - remaining) as usize),
        }
    } else {
        let head = seq![print_op(first_chars(rest, max as int), style)];
        if lines.len() == 0 {
            Wrapped { ops: head, used: 0, remainder: None }
        } else {
            and_then(
                head,
                lines[0],
                pieces_simple(
                    behind(rest, max as int),
                    remaining - max,
                    max,
                    style,
                    lines.drop_first(),
                ),
            )
        }
    }
}

/// As `pieces_simple`, with every line filled: a piece that is shorter than
/// the line is padded. A text with a style stops there; a text without one
/// is printed again in every line that is left.
pub open spec fn fill_simple<S, C>(
    rest: Seq<char>,
    remaining: int,
    max: usize,
    style: Option<S>,
    lines: Seq<Line>,
) -> Wrapped<S, C>
    decreases lines.len(),
{
    let last = then_pad(seq![print_op(rest, style)], max - remaining);
    let head = seq![print_op(first_chars(rest, max as int), style)];
    let over = Wrapped { ops: head, used: 0, remainder: None };
    if style is Some {
        if remaining > max {
            if lines.len() == 0 {
                over
            } else {
                and_then(
                    head,
                    lines[0],
                    fill_simple(
                        behind(rest, max as int),
                        remaining - max,
                        max,
                        style,
                        lines.drop_first(),
                    ),
                )
            }
        } else {
            Wrapped { ops: last, used: 0, remainder: Some(0) }
        }
    } else if remaining < max {
        if lines.len() == 0 {
            Wrapped { ops: last, used: 0, remainder: None }
        } else {
            and_then(last, lines[0], fill_simple(rest, remaining, max, style, lines.drop_first()))
        }
    } else if lines.len() == 0 {
        over
    } else {
        and_then(
            head,
            lines[0],
            fill_simple(behind(rest, max as int), remaining - max, max, style, lines.drop_first()),
        )
    }
}

/// The next piece of `rest` for lines of `limit` columns: its text, its
/// width and what is left behind it. The piece is the longest start that
/// fits, or the placeholder for a first character that is too wide.
pub open spec fn next_chunk(rest: Seq<char>, limit: usize) -> Option<(Seq<char>, usize, Seq<char>)> {
    if rest.len() == 0 || limit == 0 {
        None
    } else {
        let fit = fit_len(rest, limit as nat) as int;
        if fit > 0 {
            Some((rest.take(fit), cols(rest.take(fit)) as usize, rest.skip(fit)))
        } else {
            Some((PLACEHOLDER_TEXT@, 1usize, rest.skip(1)))
        }
    }
}

/// A text goes on in pieces that fit the lines: the piece `text` of width
/// `width` is printed on the next line, padded if another piece follows.
pub open spec fn pieces_complex<S, C>(
    text: Seq<char>,
    width: usize,
    rest: Seq<char>,
    max: usize,
    style: Option<S>,
    lines: Seq<Line>,
) -> Wrapped<S, C>
    decreases lines.len(),
{
    if lines.len() == 0 {
        Wrapped { ops: Seq::empty(), used: 0, remainder: None }
    } else {
        let printed = go(lines[0]).push(print_op(text, style));
        match next_chunk(rest, max) {
            Some((next, next_width, left)) => {
                let then = pieces_complex(next, next_width, left, max, style, lines.drop_first());
                Wrapped {
                    ops: then_pad(printed, if width < max {
                        max - width
                    } else {
                        0
                    }) + then.ops,
                    used: 1 + then.used,
                    remainder: then.remainder,
                }
            },
            None => Wrapped { ops: printed, used: 1, remainder: Some((max - width) as usize) },
        }
    }
}

impl<B: Backend> Text<B> {
    /// What `wrap_with_remainder_simple` does on `lines`.
    pub open spec fn wrapped_simple(&self, lines: Seq<Line>) -> Wrapped<B::Style, B::Color> {
        if lines.len() == 0 {
            Wrapped { ops: Seq::empty(), used: 0, remainder: None }
        } else if lines[0].width > self.shown_width() {
            Wrapped {
                ops: go(lines[0]) + self.print_ops(),
                used: 1,
                remainder: Some((lines[0].width - self.shown_width()) as usize),
            }
        } else {
            and_then(
                Seq::empty(),
                lines[0],
                pieces_simple(
                    self.chars(),
                    self.shown_width() as int,
                    lines[0].width,
                    self.look(),
                    lines.drop_first(),
                ),
            )
        }
    }

    /// What `simple_wrap` does on `lines`.
    pub open spec fn filled_simple(&self, lines: Seq<Line>) -> Wrapped<B::Style, B::Color> {
        if lines.len() == 0 {
            Wrapped { ops: Seq::empty(), used: 0, remainder: None }
        } else if lines[0].width > self.shown_width() {
            Wrapped {
                ops: go(lines[0]) + self.print_ops().push(
                    Op::Pad((lines[0].width - self.shown_width()) as usize),
                ),
                used: 1,
                remainder: Some(0),
            }
        } else {
            and_then(
                Seq::empty(),
                lines[0],
                fill_simple(
                    self.chars(),
                    self.shown_width() as int,
                    lines[0].width,
                    self.look(),
                    lines.drop_first(),
                ),
            )
        }
    }

    /// What `wrap_with_remainder_complex` does on `lines`, which are `max` columns wide.
    pub open spec fn wrapped_complex(&self, lines: Seq<Line>, max: usize) -> Wrapped<
        B::Style,
        B::Color,
    > {
        match next_chunk(self.chars(), max) {
            Some((text, width, rest)) => pieces_complex(
                text,
                width,
                rest,
                max,
                self.look(),
                lines,
            ),
            None => Wrapped { ops: Seq::empty(), used: 0, remainder: None },
        }
    }

    /// What `wrap` does on `lines`, which are `max` columns wide: a text of
    /// one-byte characters is cut by counting, another text by measuring.
    pub open spec fn wrapped(&self, lines: Seq<Line>, max: usize) -> Wrapped<B::Style, B::Color> {
        if single_bytes(self.chars()) {
            self.wrapped_simple(lines)
        } else {
            self.wrapped_complex(lines, max)
        }
    }
}

/// Leaving out `a` characters and then `b` more is leaving out `a + b`.
pub proof fn lemma_behind_twice(text: Seq<char>, a: int, b: int)
    requires
        0 <= a,
        0 <= b,
    ensures
        behind(behind(text, a), b) == behind(text, a + b),
{
    assert(behind(behind(text, a), b) =~= behind(text, a + b));
}

impl<B: Backend> Text<B> {
    /// Wraps a text of one-byte characters over `lines` by counting
    /// characters. Returns the columns that are left free in the last line,
    /// or `None` if the lines ran out.
    pub fn wrap_with_remainder_simple<L: IterLines>(&self, lines: &mut L, backend: &mut B) -> (r:
        Option<usize>)
        requires
            self.wf(),
            single_bytes(self.chars()),
            old(lines).wf(),
        ensures
            final(lines).wf(),
            final(lines).line_width() == old(lines).line_width(),
            final(backend).style() == old(backend).style(),
            final(backend).trace() == old(backend).trace() + self.wrapped_simple(
                old(lines).lines(),
            ).ops,
            final(lines).lines() == old(lines).lines().skip(
                self.wrapped_simple(old(lines).lines()).used,
            ),
            r == self.wrapped_simple(old(lines).lines()).remainder,
            0 <= self.wrapped_simple(old(lines).lines()).used <= old(lines).lines().len(),
    {
        let ghost all = lines.lines();
        let ghost start_trace = backend.trace();
        let ghost target = self.wrapped_simple(all);
        proof {
            assert(all.skip(0) =~= all);
            assert(start_trace =~= start_trace + Seq::empty());
        }
        let max_width = match lines.move_cursor(backend) {
            Some(width) => width,
            None => {
                return None;
            },
        };
        proof {
            assert(all.skip(1) =~= all.drop_first());
        }
        if max_width > self.width() {
            self.print(backend);
            proof {
                assert(backend.trace() =~= start_trace + target.ops);
            }
            return Some(max_width - self.width());
        }
        let mut remaining = self.width();
        let mut start: usize = 0;
        let styled = self.style().is_some();
        let ghost mut done: Seq<Op<B::Style, B::Color>> = go(all[0]);
        let ghost mut consumed: int = 1;
        proof {
            assert(behind(self.chars(), 0) =~= self.chars());
            assert(backend.trace() =~= start_trace + done);
            let p = pieces_simple::<B::Style, B::Color>(
                self.chars(),
                self.shown_width() as int,
                max_width,
                self.look(),
                all.drop_first(),
            );
            assert(target.ops =~= done + p.ops);
        }
        loop
            invariant
                lines.wf(),
                lines.line_width() == old(lines).line_width(),
                self.wf(),
                single_bytes(self.chars()),
                styled == (self.look() is Some),
                backend.style() == old(backend).style(),
                backend.trace() == start_trace + done,
                start_trace == old(backend).trace(),
                all == old(lines).lines(),
                1 <= consumed <= all.len(),
                lines.lines() == all.skip(consumed),
                start + remaining == self.shown_width(),
                target == self.wrapped_simple(all),
                ({
                    let p = pieces_simple::<B::Style, B::Color>(
                        behind(self.chars(), start as int),
                        remaining as int,
                        max_width,
                        self.look(),
                        lines.lines(),
                    );
                    &&& target.ops == done + p.ops
                    &&& target.used == consumed + p.used
                    &&& target.remainder == p.remainder
                }),
            decreases lines.lines().len(),
        {
            let ghost rest = behind(self.chars(), start as int);
            let ghost left = lines.lines();
            let ghost p = pieces_simple::<B::Style, B::Color>(
                rest,
                remaining as int,
                max_width,
                self.look(),
                left,
            );
            let more = if styled {
                remaining > max_width
            } else {
                remaining >= max_width
            };
            if more {
                self.emit(self.bytes_between(start, max_width), backend);
                remaining -= max_width;
                start += max_width;
            } else {
                self.emit(self.bytes_from(start), backend);
                proof {
                    assert(backend.trace() =~= start_trace + (done + p.ops));
                    assert(all.skip(consumed) =~= all.skip(consumed + 0));
                }
                return Some(max_width - remaining);
            }
            let ghost head = seq![
                print_op::<B::Style, B::Color>(first_chars(rest, max_width as int), self.look()),
            ];
            match lines.move_cursor(backend) {
                Some(_) => {
                    proof {
                        lemma_behind_twice(self.chars(), start - max_width, max_width as int);
                        assert(left.drop_first() =~= all.skip(consumed + 1));
                        assert(left[0] == all[consumed]);
                        let next = pieces_simple::<B::Style, B::Color>(
                            behind(self.chars(), start as int),
                            remaining as int,
                            max_width,
                            self.look(),
                            left.drop_first(),
                        );
                        assert(p == and_then(head, left[0], next));
                        let step = head + go::<B::Style, B::Color>(left[0]);
                        assert(backend.trace() =~= start_trace + (done + step));
                        assert(done + p.ops =~= (done + step) + next.ops);
                        done = done + step;
                        consumed = consumed + 1;
                    }
                },
                None => {
                    proof {
                        assert(backend.trace() =~= start_trace + (done + p.ops));
                        assert(all.skip(consumed) =~= all.skip(consumed + 0));
                    }
                    return None;
                },
            }
        }
    }
}

impl<B: Backend> Text<B> {
    /// Wraps a text of one-byte characters over `lines` by counting
    /// characters and pads the last piece. A text without a style is printed
    /// again in every line that is left.
    pub fn simple_wrap<L: IterLines>(&self, lines: &mut L, backend: &mut B)
        requires
            self.wf(),
            single_bytes(self.chars()),
            old(lines).wf(),
        ensures
            final(lines).wf(),
            final(lines).line_width() == old(lines).line_width(),
            final(backend).style() == old(backend).style(),
            final(backend).trace() == old(backend).trace() + self.filled_simple(
                old(lines).lines(),
            ).ops,
            final(lines).lines() == old(lines).lines().skip(
                self.filled_simple(old(lines).lines()).used,
            ),
            0 <= self.filled_simple(old(lines).lines()).used <= old(lines).lines().len(),
    {
        let ghost all = lines.lines();
        let ghost start_trace = backend.trace();
        let ghost target = self.filled_simple(all);
        proof {
            assert(all.skip(0) =~= all);
            assert(start_trace =~= start_trace + Seq::empty());
        }
        let max_width = match lines.move_cursor(backend) {
            Some(width) => width,
            None => {
                return ;
            },
        };
        proof {
            assert(all.skip(1) =~= all.drop_first());
        }
        if max_width > self.width() {
            self.print(backend);
            backend.pad(max_width - self.width());
            proof {
                assert(backend.trace() =~= start_trace + target.ops);
            }
            return ;
        }
        let mut remaining = self.width();
        let mut start: usize = 0;
        let styled = self.style().is_some();
        let ghost mut done: Seq<Op<B::Style, B::Color>> = go(all[0]);
        let ghost mut consumed: int = 1;
        proof {
            assert(behind(self.chars(), 0) =~= self.chars());
            assert(backend.trace() =~= start_trace + done);
            let p = fill_simple::<B::Style, B::Color>(
                self.chars(),
                self.shown_width() as int,
                max_width,
                self.look(),
                all.drop_first(),
            );
            assert(target.ops =~= done + p.ops);
        }
        loop
            invariant
                lines.wf(),
                lines.line_width() == old(lines).line_width(),
                self.wf(),
                single_bytes(self.chars()),
                styled == (self.look() is Some),
                backend.style() == old(backend).style(),
                backend.trace() == start_trace + done,
                start_trace == old(backend).trace(),
                all == old(lines).lines(),
                1 <= consumed <= all.len(),
                lines.lines() == all.skip(consumed),
                start + remaining == self.shown_width(),
                target == self.filled_simple(all),
                ({
                    let p = fill_simple::<B::Style, B::Color>(
                        behind(self.chars(), start as int),
                        remaining as int,
                        max_width,
                        self.look(),
                        lines.lines(),
                    );
                    &&& target.ops == done + p.ops
                    &&& target.used == consumed + p.used
                }),
            decreases lines.lines().len(),
        {
            let ghost rest = behind(self.chars(), start as int);
            let ghost left = lines.lines();
            let ghost p = fill_simple::<B::Style, B::Color>(
                rest,
                remaining as int,
                max_width,
                self.look(),
                left,
            );
            let ghost before = backend.trace();
            let ghost moved: int;
            let whole = if styled {
                remaining <= max_width
            } else {
                remaining < max_width
            };
            if whole {
                self.emit(self.bytes_from(start), backend);
                if max_width != remaining {
                    backend.pad(max_width - remaining);
                }
                if styled {
                    proof {
                        assert(backend.trace() =~= start_trace + (done + p.ops));
                        assert(all.skip(consumed) =~= all.skip(consumed + 0));
                    }
                    return ;
                }
                proof {
                    moved = 0;
                }
            } else {
                self.emit(self.bytes_between(start, max_width), backend);
                remaining -= max_width;
                start += max_width;
                proof {
                    moved = max_width as int;
                }
            }
            let ghost step_head = if whole {
                then_pad(
                    seq![print_op::<B::Style, B::Color>(rest, self.look())],
                    max_width - remaining,
                )
            } else {
                seq![
                    print_op::<B::Style, B::Color>(
                        first_chars(rest, max_width as int),
                        self.look(),
                    ),
                ]
            };
            proof {
                assert(backend.trace() =~= before + step_head);
            }
            match lines.move_cursor(backend) {
                Some(_) => {
                    proof {
                        lemma_behind_twice(self.chars(), start - moved, moved);
                        assert(left.drop_first() =~= all.skip(consumed + 1));
                        assert(left[0] == all[consumed]);
                        let next = fill_simple::<B::Style, B::Color>(
                            behind(self.chars(), start as int),
                            remaining as int,
                            max_width,
                            self.look(),
                            left.drop_first(),
                        );
                        assert(p == and_then(step_head, left[0], next));
                        let step = step_head + go::<B::Style, B::Color>(left[0]);
                        assert(backend.trace() =~= start_trace + (done + step));
                        assert(done + p.ops =~= (done + step) + next.ops);
                        done = done + step;
                        consumed = consumed + 1;
                    }
                },
                None => {
                    proof {
                        assert(backend.trace() =~= start_trace + (done + p.ops));
                        assert(all.skip(consumed) =~= all.skip(consumed + 0));
                    }
                    return ;
                },
            }
        }
    }

    /// Wraps the text over `lines` in pieces that fit their width. Returns
    /// the columns that are left free in the last line, or `None` if the
    /// lines ran out or there was nothing to print.
    pub fn wrap_with_remainder_complex<L: IterLines>(&self, lines: &mut L, backend: &mut B) -> (r:
        Option<usize>)
        requires
            self.wf(),
            old(lines).wf(),
        ensures
            final(lines).wf(),
            final(lines).line_width() == old(lines).line_width(),
            final(backend).style() == old(backend).style(),
            final(backend).trace() == old(backend).trace() + self.wrapped_complex(
                old(lines).lines(),
                old(lines).line_width(),
            ).ops,
            final(lines).lines() == old(lines).lines().skip(
                self.wrapped_complex(old(lines).lines(), old(lines).line_width()).used,
            ),
            r == self.wrapped_complex(old(lines).lines(), old(lines).line_width()).remainder,
            0 <= self.wrapped_complex(old(lines).lines(), old(lines).line_width()).used <= old(lines).lines().len(),
    {
        let ghost all = lines.lines();
        let ghost start_trace = backend.trace();
        let max_width = lines.width();
        let ghost target = self.wrapped_complex(all, max_width);
        proof {
            assert(all.skip(0) =~= all);
            assert(start_trace =~= start_trace + Seq::empty());
        }
        let mut chunks = WriteChunks::new(self.as_str(), max_width);
        let (mut width, mut text) = match chunks.next() {
            Some(StrChunks { width, text }) => (width, text),
            None => {
                return None;
            },
        };
        let ghost mut done: Seq<Op<B::Style, B::Color>> = Seq::empty();
        let ghost mut consumed: int = 0;
        loop
            invariant
                lines.wf(),
                lines.line_width() == old(lines).line_width(),
                chunks.wf(),
                chunks.limit() == max_width,
                width <= max_width,
                backend.style() == old(backend).style(),
                backend.trace() == start_trace + done,
                start_trace == old(backend).trace(),
                all == old(lines).lines(),
                max_width == old(lines).line_width(),
                0 <= consumed <= all.len(),
                lines.lines() == all.skip(consumed),
                target == self.wrapped_complex(all, max_width),
                ({
                    let p = pieces_complex::<B::Style, B::Color>(
                        text@,
                        width,
                        chunks.rest(),
                        max_width,
                        self.look(),
                        lines.lines(),
                    );
                    &&& target.ops == done + p.ops
                    &&& target.used == consumed + p.used
                    &&& target.remainder == p.remainder
                }),
            decreases lines.lines().len(),
        {
            let ghost left = lines.lines();
            let ghost rest = chunks.rest();
            let ghost p = pieces_complex::<B::Style, B::Color>(
                text@,
                width,
                rest,
                max_width,
                self.look(),
                left,
            );
            match lines.move_cursor(backend) {
                Some(_) => {},
                None => {
                    proof {
                        assert(backend.trace() =~= start_trace + (done + p.ops));
                        assert(all.skip(consumed) =~= all.skip(consumed + 0));
                    }
                    return None;
                },
            }
            self.emit(text, backend);
            let ghost printed = go::<B::Style, B::Color>(left[0]).push(
                print_op(text@, self.look()),
            );
            proof {
                assert(left.drop_first() =~= all.skip(consumed + 1));
                assert(left[0] == all[consumed]);
                assert(backend.trace() =~= start_trace + (done + printed));
            }
            match chunks.next() {
                Some(next_chunk) => {
                    let ghost padded = then_pad(
                        printed,
                        if width < max_width {
                            max_width - width
                        } else {
                            0
                        },
                    );
                    if width < max_width {
                        backend.pad(max_width - width);
                    }
                    proof {
                        assert(backend.trace() =~= start_trace + (done + padded));
                        let then = pieces_complex::<B::Style, B::Color>(
                            next_chunk.text@,
                            next_chunk.width,
                            chunks.rest(),
                            max_width,
                            self.look(),
                            left.drop_first(),
                        );
                        assert(p.ops == padded + then.ops);
                        assert(done + p.ops =~= (done + padded) + then.ops);
                        done = done + padded;
                        consumed = consumed + 1;
                    }
                    width = next_chunk.width;
                    text = next_chunk.text;
                },
                None => {
                    proof {
                        assert(p.ops == printed);
                        assert(all.skip(consumed + 1) =~= all.skip(consumed + p.used));
                    }
                    return Some(max_width - width);
                },
            }
        }
    }

    /// What `wrap` sends to the backend on `lines` of `max` columns: the
    /// wrapped text, and padding for the columns that are left free in the
    /// last line.
    pub open spec fn wrap_ops(&self, lines: Seq<Line>, max: usize) -> Seq<Op<B::Style, B::Color>> {
        then_pad(
            self.wrapped(lines, max).ops,
            match self.wrapped(lines, max).remainder {
                Some(pad) => pad as int,
                None => 0,
            },
        )
    }

    /// Wraps the text over `lines`: by counting if every character takes one
    /// byte, else by measuring. Returns the columns that are left free in the
    /// last line, or `None` if the lines ran out.
    pub fn wrap_with_remainder<L: IterLines>(&self, lines: &mut L, backend: &mut B) -> (r: Option<
        usize,
    >)
        requires
            self.wf(),
            old(lines).wf(),
        ensures
            final(lines).wf(),
            final(lines).line_width() == old(lines).line_width(),
            final(backend).style() == old(backend).style(),
            final(backend).trace() == old(backend).trace() + self.wrapped(
                old(lines).lines(),
                old(lines).line_width(),
            ).ops,
            final(lines).lines() == old(lines).lines().skip(
                self.wrapped(old(lines).lines(), old(lines).line_width()).used,
            ),
            r == self.wrapped(old(lines).lines(), old(lines).line_width()).remainder,
            0 <= self.wrapped(old(lines).lines(), old(lines).line_width()).used <= old(lines).lines().len(),
    {
        if self.is_simple() {
            self.wrap_with_remainder_simple(lines, backend)
        } else {
            self.wrap_with_remainder_complex(lines, backend)
        }
    }

    /// Wraps the text over `lines` and pads the last line.
    pub fn wrap<L: IterLines>(&self, lines: &mut L, backend: &mut B)
        requires
            self.wf(),
            old(lines).wf(),
        ensures
            final(lines).wf(),
            final(lines).line_width() == old(lines).line_width(),
            final(backend).style() == old(backend).style(),
            final(backend).trace() == old(backend).trace() + self.wrap_ops(
                old(lines).lines(),
                old(lines).line_width(),
            ),
            final(lines).lines() == old(lines).lines().skip(
                self.wrapped(old(lines).lines(), old(lines).line_width()).used,
            ),
    {
        match self.wrap_with_remainder(lines, backend) {
            Some(pad_width) => {
                if pad_width != 0 {
                    backend.pad(pad_width);
                }
            },
            None => {},
        }
        proof {
            assert(backend.trace() =~= old(backend).trace() + self.wrap_ops(
                old(lines).lines(),
                old(lines).line_width(),
            ));
        }
    }
}

/// What wrapping by counting leaves free in the last line is at most the width of a line.
pub proof fn lemma_pieces_simple_bound<S, C>(
    rest: Seq<char>,
    remaining: int,
    max: usize,
    style: Option<S>,
    lines: Seq<Line>,
)
    requires
        0 <= remaining,
    ensures
        pieces_simple::<S, C>(rest, remaining, max, style, lines).remainder is Some
            ==> pieces_simple::<S, C>(rest, remaining, max, style, lines).remainder->0 <= max,
    decreases lines.len(),
{
    let more = if style is Some {
        remaining > max
    } else {
        remaining >= max
    };
    if more && lines.len() > 0 {
        lemma_pieces_simple_bound::<S, C>(
            behind(rest, max as int),
            remaining - max,
            max,
            style,
            lines.drop_first(),
        );
    }
}

/// What wrapping by measuring leaves free in the last line is at most the width of a line.
pub proof fn lemma_pieces_complex_bound<S, C>(
    text: Seq<char>,
    width: usize,
    rest: Seq<char>,
    max: usize,
    style: Option<S>,
    lines: Seq<Line>,
)
    requires
        width <= max,
    ensures
        pieces_complex::<S, C>(text, width, rest, max, style, lines).remainder is Some
            ==> pieces_complex::<S, C>(text, width, rest, max, style, lines).remainder->0 <= max,
    decreases lines.len(),
{
    if lines.len() > 0 {
        match next_chunk(rest, max) {
            Some((next, next_width, left)) => {
                crate::utils::width::lemma_fit_len_is_longest(rest, max as nat);
                lemma_pieces_complex_bound::<S, C>(
                    next,
                    next_width,
                    left,
                    max,
                    style,
                    lines.drop_first(),
                );
            },
            None => {},
        }
    }
}

} // verus!
