//! Wrapping texts that stand side by side: each goes on where the one before stopped.
use crate::backend::{Backend, Op};
use crate::layout::iter::IterLines;
use crate::layout::line::{then_pad, Line};
use crate::utils::chunks::{controls, lemma_controls_bounds, limited, CharLimitedWidths};
use crate::utils::width::unicode_char_width;
use crate::widgets::styled_line::StyledLine;
use crate::widgets::text::{behind, first_chars, print_op, single_bytes, Text};
use crate::widgets::wrap::{go, lemma_behind_twice};
use vstd::prelude::*;

verus! {

/// What printing a text into a running line does: the instructions for the
/// backend, the number of further lines that were taken, and the columns that
/// are left in the line where it stopped, or `None` if the lines ran out.
pub struct Flow<S, C> {
    pub ops: Seq<Op<S, C>>,
    pub used: int,
    pub width: Option<usize>,
}

/// A text of one-byte characters goes on in a line with `width` columns
/// left: pieces that fill a line each, and the rest in the last line.
pub open spec fn simple_flow<S, C>(
    rest: Seq<char>,
    remaining: int,
    width: usize,
    style: Option<S>,
    lines: Seq<Line>,
) -> Flow<S, C>
    decreases lines.len(),
{
    if remaining > width {
        let head = seq![print_op(first_chars(rest, width as int), style)];
        if lines.len() == 0 {
            Flow { ops: head, used: 0, width: None }
        } else {
            let then = simple_flow(
                behind(rest, width as int),
                remaining - width,
                lines[0].width,
                style,
                lines.drop_first(),
            );
            Flow { ops: head + go(lines[0]) + then.ops, used: 1 + then.used, width: then.width }
        }
    } else {
        Flow { ops: seq![print_op(rest, style)], used: 0, width: Some((width - remaining) as usize) }
    }
}

/// A text goes on character by character in a line with `width` columns
/// left. Control characters are left out; a character that is wider than a
/// whole line of `max` columns is replaced. A character that does not fit
/// goes to the next line, behind padding for what the line had left; where
/// no line is left that padding is printed twice.
pub open spec fn chars_flow<S, C>(
    chars: Seq<char>,
    width: usize,
    style: Option<S>,
    lines: Seq<Line>,
    max: usize,
) -> Flow<S, C>
    decreases chars.len(),
{
    if chars.len() == 0 {
        Flow { ops: Seq::empty(), used: 0, width: Some(width) }
    } else {
        match limited(chars[0], max) {
            None => chars_flow(chars.drop_first(), width, style, lines, max),
            Some((c, w)) => {
                let piece = print_op(seq![c], style);
                if w > width {
                    let pad = then_pad(Seq::empty(), width as int);
                    if lines.len() == 0 {
                        Flow { ops: pad + pad, used: 0, width: None }
                    } else {
                        let then = chars_flow(
                            chars.drop_first(),
                            (lines[0].width - w) as usize,
                            style,
                            lines.drop_first(),
                            max,
                        );
                        Flow {
                            ops: pad + go(lines[0]).push(piece) + then.ops,
                            used: 1 + then.used,
                            width: then.width,
                        }
                    }
                } else {
                    let then = chars_flow(
                        chars.drop_first(),
                        (width - w) as usize,
                        style,
                        lines,
                        max,
                    );
                    Flow { ops: seq![piece] + then.ops, used: then.used, width: then.width }
                }
            },
        }
    }
}

/// Control characters at the start of a text change nothing.
pub proof fn lemma_chars_flow_skips_controls<S, C>(
    chars: Seq<char>,
    width: usize,
    style: Option<S>,
    lines: Seq<Line>,
    max: usize,
)
    ensures
        chars_flow::<S, C>(chars, width, style, lines, max) == chars_flow::<S, C>(
            chars.skip(controls(chars)),
            width,
            style,
            lines,
            max,
        ),
    decreases chars.len(),
{
    lemma_controls_bounds(chars);
    if chars.len() > 0 && unicode_char_width(chars[0]) is None {
        lemma_controls_bounds(chars.drop_first());
        lemma_chars_flow_skips_controls::<S, C>(chars.drop_first(), width, style, lines, max);
        assert(chars.drop_first().skip(controls(chars.drop_first())) =~= chars.skip(
            controls(chars),
        ));
    } else {
        assert(chars.skip(0) =~= chars);
    }
}

impl<B: Backend> Text<B> {
    /// What printing the text into a running line does. A text that fits
    /// is printed as it is. A text that does not fit starts a wrap of its
    /// own in a line without room, and else goes on piece by piece.
    pub open spec fn flow(&self, width: usize, lines: Seq<Line>, max: usize) -> Flow<
        B::Style,
        B::Color,
    > {
        if self.shown_width() > width {
            if width == 0 {
                let w = self.wrapped(lines, max);
                Flow { ops: w.ops, used: w.used, width: w.remainder }
            } else if single_bytes(self.chars()) {
                simple_flow(self.chars(), self.shown_width() as int, width, self.look(), lines)
            } else {
                chars_flow(self.chars(), width, self.look(), lines, max)
            }
        } else {
            Flow {
                ops: self.print_ops(),
                used: 0,
                width: Some((width - self.shown_width()) as usize),
            }
        }
    }
}

/// What printing `words` one after the other into a running line does.
pub open spec fn line_flow<B: Backend>(
    words: Seq<Text<B>>,
    width: usize,
    lines: Seq<Line>,
    max: usize,
) -> Flow<B::Style, B::Color>
    decreases words.len(),
{
    if words.len() == 0 {
        Flow { ops: Seq::empty(), used: 0, width: Some(width) }
    } else {
        let first = words[0].flow(width, lines, max);
        match first.width {
            Some(left) => {
                let then = line_flow(words.drop_first(), left, lines.skip(first.used), max);
                Flow { ops: first.ops + then.ops, used: first.used + then.used, width: then.width }
            },
            None => first,
        }
    }
}

/// Every line is `max` columns wide.
pub open spec fn all_wide(lines: Seq<Line>, max: usize) -> bool {
    forall|i: int| 0 <= i < lines.len() ==> (#[trigger] lines[i]).width == max
}

impl<B: Backend> Text<B> {
    /// Goes on with a text of one-byte characters in a line with `width` columns left.
    fn flow_simple<L: IterLines>(&self, width: usize, lines: &mut L, backend: &mut B) -> (r:
        Option<usize>)
        requires
            self.wf(),
            single_bytes(self.chars()),
            old(lines).wf(),
        ensures
            final(lines).wf(),
            final(lines).line_width() == old(lines).line_width(),
            final(backend).style() == old(backend).style(),
            ({
                let f = simple_flow::<B::Style, B::Color>(
                    self.chars(),
                    self.shown_width() as int,
                    width,
                    self.look(),
                    old(lines).lines(),
                );
                &&& final(backend).trace() == old(backend).trace() + f.ops
                &&& final(lines).lines() == old(lines).lines().skip(f.used)
                &&& 0 <= f.used <= old(lines).lines().len()
                &&& r == f.width
            }),
    {
        let ghost all = lines.lines();
        let ghost start_trace = backend.trace();
        let ghost target = simple_flow::<B::Style, B::Color>(
            self.chars(),
            self.shown_width() as int,
            width,
            self.look(),
            all,
        );
        let mut room = width;
        let mut remaining = self.width();
        let mut start: usize = 0;
        let ghost mut done: Seq<Op<B::Style, B::Color>> = Seq::empty();
        let ghost mut consumed: int = 0;
        proof {
            assert(all.skip(0) =~= all);
            assert(behind(self.chars(), 0) =~= self.chars());
            assert(start_trace =~= start_trace + done);
            assert(target.ops =~= done + target.ops);
        }
        loop
            invariant
                lines.wf(),
                lines.line_width() == old(lines).line_width(),
                self.wf(),
                single_bytes(self.chars()),
                backend.style() == old(backend).style(),
                backend.trace() == start_trace + done,
                start_trace == old(backend).trace(),
                all == old(lines).lines(),
                0 <= consumed <= all.len(),
                lines.lines() == all.skip(consumed),
                start + remaining == self.shown_width(),
                ({
                    let p = simple_flow::<B::Style, B::Color>(
                        behind(self.chars(), start as int),
                        remaining as int,
                        room,
                        self.look(),
                        lines.lines(),
                    );
                    &&& target.ops == done + p.ops
                    &&& target.used == consumed + p.used
                    &&& target.width == p.width
                }),
                target == simple_flow::<B::Style, B::Color>(
                    self.chars(),
                    self.shown_width() as int,
                    width,
                    self.look(),
                    all,
                ),
            decreases lines.lines().len(),
        {
            let ghost rest = behind(self.chars(), start as int);
            let ghost left = lines.lines();
            let ghost p = simple_flow::<B::Style, B::Color>(
                rest,
                remaining as int,
                room,
                self.look(),
                left,
            );
            let ghost cut = room;
            if remaining > room {
                self.emit(self.bytes_between(start, room), backend);
                remaining -= room;
                start += room;
            } else {
                self.emit(self.bytes_from(start), backend);
                proof {
                    assert(backend.trace() =~= start_trace + (done + p.ops));
                    assert(all.skip(consumed) =~= all.skip(consumed + 0));
                }
                return Some(room - remaining);
            }
            let ghost head = seq![
                print_op::<B::Style, B::Color>(first_chars(rest, cut as int), self.look()),
            ];
            match lines.move_cursor(backend) {
                Some(max_width) => {
                    room = max_width;
                    proof {
                        lemma_behind_twice(self.chars(), start - cut, cut as int);
                        assert(left.drop_first() =~= all.skip(consumed + 1));
                        assert(left[0] == all[consumed]);
                        let next = simple_flow::<B::Style, B::Color>(
                            behind(self.chars(), start as int),
                            remaining as int,
                            room,
                            self.look(),
                            left.drop_first(),
                        );
                        let step = head + go::<B::Style, B::Color>(left[0]);
                        assert(p.ops == step + next.ops);
                        assert(backend.trace() =~= start_trace + (done + step));
                        assert(done + p.ops =~= (done + step) + next.ops);
                        done = done + step;
                        consumed = consumed + 1;
                    }
                },
                None => {
                    proof {
                        assert(backend.trace() =~= start_trace + (done + p.ops));
                        assert(all.skip(consumed) =~= all.skip(consumed + 0));
                    }
                    return None;
                },
            }
        }
    }

    /// Goes on with a text character by character in a line with `width` columns left.
    fn flow_chars<L: IterLines>(&self, width: usize, lines: &mut L, backend: &mut B) -> (r: Option<
        usize,
    >)
        requires
            self.wf(),
            old(lines).wf(),
            0 < width <= old(lines).line_width(),
        ensures
            final(lines).wf(),
            final(lines).line_width() == old(lines).line_width(),
            final(backend).style() == old(backend).style(),
            ({
                let f = chars_flow::<B::Style, B::Color>(
                    self.chars(),
                    width,
                    self.look(),
                    old(lines).lines(),
                    old(lines).line_width(),
                );
                &&& final(backend).trace() == old(backend).trace() + f.ops
                &&& final(lines).lines() == old(lines).lines().skip(f.used)
                &&& 0 <= f.used <= old(lines).lines().len()
                &&& r == f.width
                &&& r is Some ==> r->0 <= old(lines).line_width()
            }),
    {
        let ghost all = lines.lines();
        let ghost start_trace = backend.trace();
        let max = lines.width();
        let ghost target = chars_flow::<B::Style, B::Color>(
            self.chars(),
            width,
            self.look(),
            all,
            max,
        );
        let mut room = width;
        let mut chars = CharLimitedWidths::new(self.as_str(), max);
        let ghost mut done: Seq<Op<B::Style, B::Color>> = Seq::empty();
        let ghost mut consumed: int = 0;
        proof {
            assert(all.skip(0) =~= all);
            assert(start_trace =~= start_trace + done);
            assert(target.ops =~= done + target.ops);
        }
        loop
            invariant
                lines.wf(),
                lines.line_width() == old(lines).line_width(),
                max == old(lines).line_width(),
                max >= 1,
                room <= max,
                chars.wf(),
                chars.limit() == max,
                all_wide(all, max),
                backend.style() == old(backend).style(),
                backend.trace() == start_trace + done,
                start_trace == old(backend).trace(),
                all == old(lines).lines(),
                0 <= consumed <= all.len(),
                lines.lines() == all.skip(consumed),
                ({
                    let p = chars_flow::<B::Style, B::Color>(
                        chars.rest(),
                        room,
                        self.look(),
                        lines.lines(),
                        max,
                    );
                    &&& target.ops == done + p.ops
                    &&& target.used == consumed + p.used
                    &&& target.width == p.width
                }),
                target == chars_flow::<B::Style, B::Color>(
                    self.chars(),
                    width,
                    self.look(),
                    all,
                    max,
                ),
            decreases chars.rest().len(),
        {
            let ghost rest = chars.rest();
            let ghost left = lines.lines();
            let ghost skip = controls(rest);
            proof {
                lemma_chars_flow_skips_controls::<B::Style, B::Color>(
                    rest,
                    room,
                    self.look(),
                    left,
                    max,
                );
                lemma_controls_bounds(rest);
            }
            let ghost before = room;
            match chars.next_str() {
                None => {
                    proof {
                        assert(rest.skip(skip) =~= Seq::<char>::empty());
                        assert(backend.trace() =~= start_trace + (done + Seq::empty()));
                        assert(all.skip(consumed) =~= all.skip(consumed + 0));
                    }
                    return Some(room);
                },
                Some((piece, w)) => {
                    let ghost shown = rest.skip(skip);
                    let ghost op = print_op::<B::Style, B::Color>(piece@, self.look());
                    proof {
                        assert(shown[0] == rest[skip]);
                        assert(shown.drop_first() =~= rest.skip(skip + 1));
                        assert(piece@ =~= seq![piece@[0]]);
                    }
                    if w > room {
                        if room != 0 {
                            backend.pad(room);
                        }
                        let ghost pad = then_pad::<B::Style, B::Color>(
                            Seq::empty(),
                            before as int,
                        );
                        proof {
                            assert(backend.trace() =~= start_trace + (done + pad));
                        }
                        match lines.move_cursor(backend) {
                            Some(new_width) => {
                                self.emit(piece, backend);
                                room = new_width - w;
                                proof {
                                    assert(left.drop_first() =~= all.skip(consumed + 1));
                                    assert(left[0] == all[consumed]);
                                    let then = chars_flow::<B::Style, B::Color>(
                                        shown.drop_first(),
                                        room,
                                        self.look(),
                                        left.drop_first(),
                                        max,
                                    );
                                    let step = pad + go::<B::Style, B::Color>(left[0]).push(op);
                                    assert(backend.trace() =~= start_trace + (done + step));
                                    assert(done + (step + then.ops) =~= (done + step) + then.ops);
                                    done = done + step;
                                    consumed = consumed + 1;
                                }
                            },
                            None => {
                                if room != 0 {
                                    backend.pad(room);
                                }
                                proof {
                                    assert(backend.trace() =~= start_trace + (done + (pad + pad)));
                                    assert(all.skip(consumed) =~= all.skip(consumed + 0));
                                }
                                return None;
                            },
                        }
                    } else {
                        self.emit(piece, backend);
                        room -= w;
                        proof {
                            let then = chars_flow::<B::Style, B::Color>(
                                shown.drop_first(),
                                room,
                                self.look(),
                                left,
                                max,
                            );
                            let step = seq![op];
                            assert(backend.trace() =~= start_trace + (done + step));
                            assert(done + (step + then.ops) =~= (done + step) + then.ops);
                            done = done + step;
                        }
                    }
                },
            }
        }
    }

    /// Prints the text into a running line with `width` columns left, going
    /// on in `lines` where it does not fit. Returns the columns that are
    /// left in the line where it stopped, or `None` if the lines ran out.
    pub fn print_flow<L: IterLines>(&self, width: usize, lines: &mut L, backend: &mut B) -> (r:
        Option<usize>)
        requires
            self.wf(),
            old(lines).wf(),
            width <= old(lines).line_width(),
        ensures
            final(lines).wf(),
            final(lines).line_width() == old(lines).line_width(),
            final(backend).style() == old(backend).style(),
            ({
                let f = self.flow(width, old(lines).lines(), old(lines).line_width());
                &&& final(backend).trace() == old(backend).trace() + f.ops
                &&& final(lines).lines() == old(lines).lines().skip(f.used)
                &&& 0 <= f.used <= old(lines).lines().len()
                &&& r == f.width
                &&& r is Some ==> r->0 <= old(lines).line_width()
            }),
    {
        let max = lines.width();
        if self.width() > width {
            if width == 0 {
                let r = self.wrap_with_remainder(lines, backend);
                proof {
                    self.lemma_remainder_bound(old(lines).lines(), max);
                }
                r
            } else if self.is_simple() {
                proof {
                    lemma_simple_flow_bound::<B::Style, B::Color>(
                        self.chars(),
                        self.shown_width() as int,
                        width,
                        self.look(),
                        lines.lines(),
                        max,
                    );
                }
                self.flow_simple(width, lines, backend)
            } else {
                self.flow_chars(width, lines, backend)
            }
        } else {
            self.print(backend);
            proof {
                assert(lines.lines().skip(0) =~= lines.lines());
            }
            Some(width - self.width())
        }
    }

    /// What a wrap leaves free in its last line is at most the width of a line.
    pub proof fn lemma_remainder_bound(&self, lines: Seq<Line>, max: usize)
        requires
            all_wide(lines, max),
        ensures
            self.wrapped(lines, max).remainder is Some ==> self.wrapped(lines, max).remainder->0
                <= max,
    {
        if single_bytes(self.chars()) {
            if lines.len() > 0 && !(lines[0].width > self.shown_width()) {
                crate::widgets::wrap::lemma_pieces_simple_bound::<B::Style, B::Color>(
                    self.chars(),
                    self.shown_width() as int,
                    max,
                    self.look(),
                    lines.drop_first(),
                );
            }
        } else {
            match crate::widgets::wrap::next_chunk(self.chars(), max) {
                Some((text, width, rest)) => {
                    crate::utils::width::lemma_fit_len_is_longest(self.chars(), max as nat);
                    crate::widgets::wrap::lemma_pieces_complex_bound::<B::Style, B::Color>(
                        text,
                        width,
                        rest,
                        max,
                        self.look(),
                        lines,
                    );
                },
                None => {},
            }
        }
    }
}

/// What a text of one-byte characters leaves of the last line is at most the width of a line.
pub proof fn lemma_simple_flow_bound<S, C>(
    rest: Seq<char>,
    remaining: int,
    width: usize,
    style: Option<S>,
    lines: Seq<Line>,
    max: usize,
)
    requires
        all_wide(lines, max),
        width <= max,
        0 <= remaining,
    ensures
        simple_flow::<S, C>(rest, remaining, width, style, lines).width is Some ==> simple_flow::<
            S,
            C,
        >(rest, remaining, width, style, lines).width->0 <= max,
    decreases lines.len(),
{
    if remaining > width && lines.len() > 0 {
        assert(lines[0].width == max);
        assert(all_wide(lines.drop_first(), max)) by {
            assert forall|i: int| 0 <= i < lines.drop_first().len() implies (
            #[trigger] lines.drop_first()[i]).width == max by {
                assert(lines.drop_first()[i] == lines[i + 1]);
            }
        }
        lemma_simple_flow_bound::<S, C>(
            behind(rest, width as int),
            remaining - width,
            lines[0].width,
            style,
            lines.drop_first(),
            max,
        );
    }
}

impl<B: Backend> StyledLine<B> {
    /// What `wrap` sends to the backend on `lines` of `max` columns: the move
    /// to the first line, the texts one after the other, and padding for what
    /// is left of the last line unless the lines ran out.
    pub open spec fn wrap_ops(&self, lines: Seq<Line>, max: usize) -> Seq<Op<B::Style, B::Color>> {
        if lines.len() == 0 {
            Seq::empty()
        } else {
            let f = line_flow(self.words(), lines[0].width, lines.drop_first(), max);
            go(lines[0]) + f.ops + match f.width {
                Some(left) => then_pad(Seq::empty(), left as int),
                None => Seq::empty(),
            }
        }
    }

    /// Number of lines that `wrap` takes.
    pub open spec fn wrap_used(&self, lines: Seq<Line>, max: usize) -> int {
        if lines.len() == 0 {
            0
        } else {
            1 + line_flow(self.words(), lines[0].width, lines.drop_first(), max).used
        }
    }

    /// Prints the texts one after the other over `lines`, each going on
    /// where the one before stopped, and pads the last line.
    pub fn wrap<L: IterLines>(&self, lines: &mut L, backend: &mut B)
        requires
            self.wf(),
            old(lines).wf(),
        ensures
            final(lines).wf(),
            final(lines).line_width() == old(lines).line_width(),
            final(backend).style() == old(backend).style(),
            final(backend).trace() == old(backend).trace() + self.wrap_ops(
                old(lines).lines(),
                old(lines).line_width(),
            ),
            final(lines).lines() == old(lines).lines().skip(
                self.wrap_used(old(lines).lines(), old(lines).line_width()),
            ),
    {
        let ghost all = lines.lines();
        let ghost start_trace = backend.trace();
        let max = lines.width();
        proof {
            assert(all.skip(0) =~= all);
            assert(start_trace =~= start_trace + Seq::empty());
        }
        let mut width = match lines.move_cursor(backend) {
            Some(width) => width,
            None => {
                return ;
            },
        };
        let ghost target = line_flow(self.words(), width, all.drop_first(), max);
        let ghost mut done: Seq<Op<B::Style, B::Color>> = go(all[0]);
        let ghost mut consumed: int = 1;
        let mut i: usize = 0;
        proof {
            assert(all.skip(1) =~= all.drop_first());
            assert(self.words().skip(0) =~= self.words());
            assert(backend.trace() =~= start_trace + done);
        }
        while i < self.inner_len()
            invariant
                i <= self.words().len(),
                self.wf(),
                lines.wf(),
                lines.line_width() == old(lines).line_width(),
                max == old(lines).line_width(),
                width <= max,
                backend.style() == old(backend).style(),
                backend.trace() == start_trace + done,
                start_trace == old(backend).trace(),
                all == old(lines).lines(),
                all.len() > 0,
                1 <= consumed <= all.len(),
                lines.lines() == all.skip(consumed),
                target == line_flow(self.words(), all[0].width, all.drop_first(), max),
                ({
                    let p = line_flow(self.words().skip(i as int), width, lines.lines(), max);
                    &&& go(all[0]) + target.ops == done + p.ops
                    &&& 1 + target.used == consumed + p.used
                    &&& target.width == p.width
                }),
            decreases self.words().len() - i,
        {
            let ghost rest = self.words().skip(i as int);
            let ghost left = lines.lines();
            let ghost p = line_flow(rest, width, left, max);
            let ghost first = rest[0].flow(width, left, max);
            proof {
                assert(rest[0] == self.words()[i as int]);
                assert(rest.drop_first() =~= self.words().skip(i + 1));
            }
            match self.word(i).print_flow(width, lines, backend) {
                Some(new_width) => {
                    proof {
                        let then = line_flow(rest.drop_first(), new_width, left.skip(first.used), max);
                        assert(left.skip(first.used) =~= all.skip(consumed + first.used));
                        assert(backend.trace() =~= start_trace + (done + first.ops));
                        assert(done + (first.ops + then.ops) =~= (done + first.ops) + then.ops);
                        done = done + first.ops;
                        consumed = consumed + first.used;
                    }
                    width = new_width;
                },
                None => {
                    proof {
                        assert(left.skip(first.used) =~= all.skip(consumed + first.used));
                        assert(backend.trace() =~= start_trace + (done + p.ops));
                        assert((go::<B::Style, B::Color>(all[0]) + target.ops) + Seq::empty()
                            =~= go::<B::Style, B::Color>(all[0]) + target.ops);
                    }
                    return ;
                },
            }
            i = i + 1;
        }
        if width != 0 {
            backend.pad(width);
        }
        proof {
            assert(self.words().skip(i as int) =~= Seq::<Text<B>>::empty());
            let pad = then_pad::<B::Style, B::Color>(Seq::empty(), width as int);
            assert(backend.trace() =~= start_trace + (done + pad));
            assert(done + Seq::empty() =~= done);
            assert(all.skip(consumed) =~= all.skip(consumed + 0));
        }
    }
}

} // verus!
