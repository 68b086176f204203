//! The state of a list with one selected entry, and how the list is drawn.
use crate::backend::{Backend, Op};
use crate::layout::iter::{
    blank_lines, margin_ops, narrowed, DoublePaddedRectIter, IterLines, RectIter,
};
use crate::layout::line::{head_fit, left_after, then_pad, Line, LineBuilder};
use crate::utils::width::cols;
use crate::layout::rect::Rect;
use vstd::prelude::*;

verus! {

/// Which entry of a list is selected, and which entry is the first on the screen.
pub struct State<B: Backend> {
    pub at_line: usize,
    pub selected: usize,
    pub highlight: B::Style,
}

impl<B: Backend> Clone for State<B> {
    fn clone(&self) -> (state: Self)
        ensures
            state == *self,
    {
        Self { at_line: self.at_line, selected: self.selected, highlight: self.highlight }
    }
}

impl<B: Backend> Default for State<B> {
    fn default() -> (state: Self)
        ensures
            state == (State::<B> { at_line: 0, selected: 0, highlight: B::reversed() }),
    {
        Self::new()
    }
}

/// Writes one line for an entry of a list. What a writer sends depends on
/// the entry and on the line alone.
pub trait LineWriter<T, B: Backend> {
    /// What the writer sends to the backend for `item` on `line`.
    spec fn ops(&self, item: &T, line: Line) -> Seq<Op<B::Style, B::Color>>;

    /// The width that the writer leaves of `line`.
    spec fn left(&self, item: &T, line: Line) -> usize;

    /// Writes the line of `item` with `builder`; what it leaves of the line is padded.
    fn write(&self, item: &T, builder: &mut LineBuilder, backend: &mut B)
        ensures
            final(backend).trace() == old(backend).trace() + self.ops(item, old(builder)@),
            final(builder)@.width == self.left(item, old(builder)@),
    ;
}

/// Writes an entry that is a text: as much of it as the line takes.
pub struct PlainText;

impl<'a, B: Backend> LineWriter<&'a str, B> for PlainText {
    open spec fn ops(&self, item: &&'a str, line: Line) -> Seq<Op<B::Style, B::Color>> {
        Seq::empty().push(Op::Print(head_fit(item@, line.width)))
    }

    open spec fn left(&self, item: &&'a str, line: Line) -> usize {
        left_after(line.width, cols(item@))
    }

    fn write(&self, item: &&'a str, builder: &mut LineBuilder, backend: &mut B) {
        let ghost before = backend.trace();
        let ghost sent = Op::<B::Style, B::Color>::Print(head_fit(item@, builder@.width));
        builder.push(item, backend);
        proof {
            assert(before.push(sent) =~= before + Seq::empty().push(sent));
        }
    }
}

/// What is sent for one line of an entry: the cursor goes to the start of
/// `line`, the writer writes, and what it leaves of the line is padded.
pub open spec fn written_line<T, B: Backend, W: LineWriter<T, B>>(
    writer: W,
    item: T,
    line: Line,
) -> Seq<Op<B::Style, B::Color>> {
    then_pad(
        Seq::empty().push(Op::GoTo { row: line.row, col: line.col }) + writer.ops(&item, line),
        writer.left(&item, line) as int,
    )
}

/// What is sent for the first `count` lines of an entry: each of the first
/// `count` writers writes into the line of its index.
pub open spec fn written_lines<T, B: Backend, W: LineWriter<T, B>>(
    writers: Seq<W>,
    item: T,
    lines: Seq<Line>,
    count: int,
) -> Seq<Op<B::Style, B::Color>>
    decreases count,
{
    if count <= 0 {
        Seq::empty()
    } else {
        written_lines::<T, B, W>(writers, item, lines, count - 1) + written_line::<T, B, W>(
            writers[count - 1],
            item,
            lines[count - 1],
        )
    }
}

/// What a list of entries with several lines each sends to the backend from
/// the entry with index `first` on. Every entry takes one line for each
/// writer, as far as there are lines; the selected entry stands between
/// setting `highlight` and resetting the style, also where no line is left
/// for it. Behind the last entry the style is reset and the lines that are
/// left are blanked.
pub open spec fn complex_list_ops<T, B: Backend, W: LineWriter<T, B>>(
    options: Seq<T>,
    writers: Seq<W>,
    lines: Seq<Line>,
    selected: int,
    highlight: B::Style,
    first: int,
) -> Seq<Op<B::Style, B::Color>>
    decreases options.len() - first,
{
    if first >= options.len() || first < 0 {
        Seq::empty().push(Op::ResetStyle) + blank_lines(lines)
    } else {
        let used = shown(writers.len() as int, 0, lines.len() as int);
        let body = written_lines::<T, B, W>(writers, options[first], lines, used);
        let entry = if first == selected {
            Seq::empty().push(Op::SetStyle(highlight)) + body + Seq::empty().push(Op::ResetStyle)
        } else {
            body
        };
        entry + complex_list_ops::<T, B, W>(
            options,
            writers,
            lines.skip(used),
            selected,
            highlight,
            first + 1,
        )
    }
}

/// The first entry on the screen after the selection moved: the selected
/// entry if it stood above the screen, and else the entry that brings the
/// selected one into the last of `limit` lines where it stood below.
pub open spec fn scrolled(at_line: usize, selected: usize, limit: usize) -> int {
    if at_line > selected {
        selected as int
    } else if selected - at_line >= limit {
        selected - limit + 1
    } else {
        at_line as int
    }
}

/// What is sent to the backend for one entry: `text` in its line, in
/// `highlight` if the entry is `chosen`.
pub open spec fn entry_ops<S, C>(line: Line, text: Seq<char>, style: Option<S>, set: S) -> Seq<
    Op<S, C>,
> {
    match style {
        Some(style) => line.render_styled_ops(text, style, set),
        None => line.render_ops(text),
    }
}

/// What is sent to the backend for the first `rows` entries from index
/// `first` on, line by line; `styles` gives the style of each entry.
pub open spec fn entries_ops<S, C>(
    lines: Seq<Line>,
    texts: Seq<Seq<char>>,
    styles: spec_fn(int) -> Option<S>,
    set: S,
    first: int,
    rows: int,
) -> Seq<Op<S, C>>
    decreases rows,
{
    if rows <= 0 {
        Seq::empty()
    } else {
        entries_ops(lines, texts, styles, set, first, rows - 1) + entry_ops(
            lines[rows - 1],
            texts[first + rows - 1],
            styles(first + rows - 1),
            set,
        )
    }
}

/// Number of entries that are drawn: as many as there are from `first` on, at most `lines`.
pub open spec fn shown(entries: int, first: int, lines: int) -> int {
    if entries <= first {
        0
    } else if entries - first < lines {
        entries - first
    } else {
        lines
    }
}

/// What a list sends to the backend: its entries from index `first` on, one
/// in each line, and blanks in the lines that are left.
pub open spec fn list_ops<S, C>(
    lines: Seq<Line>,
    texts: Seq<Seq<char>>,
    styles: spec_fn(int) -> Option<S>,
    set: S,
    first: int,
) -> Seq<Op<S, C>> {
    let rows = shown(texts.len() as int, first, lines.len() as int);
    entries_ops(lines, texts, styles, set, first, rows) + blank_lines(lines.skip(rows))
}

/// The texts of a list of entries.
pub open spec fn texts_of(options: Seq<&str>) -> Seq<Seq<char>> {
    Seq::new(options.len(), |i: int| options[i]@)
}

/// The texts of a list of entries with styles.
pub open spec fn styled_texts_of<S>(options: Seq<(&str, S)>) -> Seq<Seq<char>> {
    Seq::new(options.len(), |i: int| options[i].0@)
}

impl<B: Backend> State<B> {
    /// The state of a new list, with the reversed style as highlight.
    pub fn new() -> (state: Self)
        ensures
            state == (State::<B> { at_line: 0, selected: 0, highlight: B::reversed() }),
    {
        let highlight = B::reversed_style();
        Self { at_line: 0, selected: 0, highlight }
    }

    /// The state of a new list with `highlight` for the selected entry.
    pub fn with_highlight(highlight: B::Style) -> (state: Self)
        ensures
            state == (State::<B> { at_line: 0, selected: 0, highlight }),
    {
        Self { at_line: 0, selected: 0, highlight }
    }

    /// Back to the first entry.
    pub fn reset(&mut self)
        ensures
            *final(self) == (State::<B> { at_line: 0, selected: 0, highlight: old(self).highlight }),
    {
        self.at_line = 0;
        self.selected = 0;
    }

    /// Selects the entry with index `idx` of `option_len` entries, if there is one.
    pub fn select(&mut self, idx: usize, option_len: usize)
        ensures
            *final(self) == (State::<B> {
                selected: if option_len > idx {
                    idx
                } else {
                    old(self).selected
                },
                ..*old(self)
            }),
    {
        if option_len > idx {
            self.selected = idx;
        }
    }

    /// Selects the next of `option_len` entries, the first behind the last.
    pub fn next(&mut self, option_len: usize)
        requires
            old(self).selected < usize::MAX,
        ensures
            *final(self) == (State::<B> {
                selected: if old(self).selected + 1 >= option_len {
                    0
                } else {
                    (old(self).selected + 1) as usize
                },
                ..*old(self)
            }),
    {
        self.selected += 1;
        if self.selected >= option_len {
            self.selected = 0;
        }
    }

    /// Selects the entry in front of the selected one, the last in front of the first.
    pub fn prev(&mut self, option_len: usize)
        ensures
            *final(self) == (State::<B> {
                selected: if old(self).selected > 0 {
                    (old(self).selected - 1) as usize
                } else if option_len > 0 {
                    (option_len - 1) as usize
                } else {
                    old(self).selected
                },
                ..*old(self)
            }),
    {
        if self.selected > 0 {
            self.selected -= 1;
        } else if option_len > 0 {
            self.selected = option_len - 1;
        }
    }

    /// Scrolls so that the selected entry shows within `limit` lines.
    pub fn update_at_line(&mut self, limit: usize)
        requires
            limit > 0 || old(self).selected < usize::MAX,
        ensures
            *final(self) == (State::<B> {
                at_line: scrolled(old(self).at_line, old(self).selected, limit) as usize,
                ..*old(self)
            }),
            0 <= scrolled(old(self).at_line, old(self).selected, limit) <= usize::MAX,
    {
        if self.at_line > self.selected {
            self.at_line = self.selected;
        } else if self.selected - self.at_line >= limit {
            if limit == 0 {
                self.at_line = self.selected + 1;
            } else {
                self.at_line = self.selected - (limit - 1);
            }
        }
    }

    /// Draws the entries into `rect`, the selected one in the highlight, and
    /// blanks what is left of `rect`.
    pub fn render_list(&mut self, options: &[&str], rect: Rect, backend: &mut B)
        requires
            rect.in_range(),
            rect.height > 0 || old(self).selected < usize::MAX,
        ensures
            *final(self) == (State::<B> {
                at_line: scrolled(old(self).at_line, old(self).selected, rect.height as usize)
                    as usize,
                ..*old(self)
            }),
            final(backend).style() == old(backend).style(),
            final(backend).trace() == old(backend).trace() + list_ops(
                RectIter::lines_of(rect),
                texts_of(options@),
                old(self).highlight_of(),
                old(backend).style(),
                final(self).at_line as int,
            ),
    {
        self.update_at_line(rect.height as usize);
        let lines = rect.into_iter();
        self.draw_entries(options, lines, backend);
    }

    /// The style of each entry of a plain list: the highlight for the
    /// selected one, no style of their own for the others.
    pub open spec fn highlight_of(&self) -> spec_fn(int) -> Option<B::Style> {
        |i: int|
            if i == self.selected {
                Some(self.highlight)
            } else {
                None
            }
    }

    /// Draws the entries from `at_line` on into `lines` and blanks the rest.
    fn draw_entries<L: IterLines>(&self, options: &[&str], lines: L, backend: &mut B)
        requires
            lines.wf(),
        ensures
            final(backend).style() == old(backend).style(),
            final(backend).trace() == old(backend).trace() + list_ops(
                lines.lines(),
                texts_of(options@),
                self.highlight_of(),
                old(backend).style(),
                self.at_line as int,
            ),
    {
        let mut lines = lines;
        let ghost all = lines.lines();
        let ghost texts = texts_of(options@);
        let ghost styles = self.highlight_of();
        let ghost set = backend.style();
        let ghost start = backend.trace();
        let ghost first = self.at_line as int;
        let mut idx = self.at_line;
        let mut go = true;
        proof {
            assert(start =~= start + entries_ops::<B::Style, B::Color>(
                all,
                texts,
                styles,
                set,
                first,
                0,
            ));
            assert(all.skip(0) =~= all);
        }
        while go && idx < options.len()
            invariant
                lines.wf(),
                first <= idx,
                idx - first <= all.len(),
                lines.lines() == all.skip(idx - first),
                backend.style() == set,
                backend.trace() == start + entries_ops::<B::Style, B::Color>(
                    all,
                    texts,
                    styles,
                    set,
                    first,
                    idx - first,
                ),
                texts == texts_of(options@),
                styles == self.highlight_of(),
                !go ==> idx - first == all.len(),
                first == self.at_line,
                idx <= options.len() || idx == first,
            decreases options.len() - idx + if go { 1int } else { 0int },
        {
            let ghost done = entries_ops::<B::Style, B::Color>(
                all,
                texts,
                styles,
                set,
                first,
                idx - first,
            );
            match lines.next_line() {
                Some(line) => {
                    let text = options[idx];
                    if idx == self.selected {
                        line.render_styled(text, self.highlight, backend);
                    } else {
                        line.render(text, backend);
                    }
                    proof {
                        assert(line == all[idx - first]);
                        assert(lines.lines() =~= all.skip(idx - first + 1));
                        let part = entry_ops::<B::Style, B::Color>(
                            line,
                            texts[idx as int],
                            styles(idx as int),
                            set,
                        );
                        assert(backend.trace() == (start + done) + part);
                        assert((start + done) + part =~= start + (done + part));
                    }
                    idx = idx + 1;
                },
                None => {
                    go = false;
                },
            }
        }
        let ghost rows = idx - first;
        proof {
            assert(texts.len() == options@.len());
            assert(rows == shown(texts.len() as int, first, all.len() as int));
        }
        lines.clear_to_end(backend);
        proof {
            let head = entries_ops::<B::Style, B::Color>(all, texts, styles, set, first, rows);
            let tail = blank_lines::<B::Style, B::Color>(all.skip(rows));
            assert((start + head) + tail =~= start + (head + tail));
        }
    }
}

/// Draws one entry into its line, in a style of its own if it has one.
fn draw_entry<B: Backend>(line: Line, text: &str, style: Option<B::Style>, backend: &mut B)
    ensures
        final(backend).style() == old(backend).style(),
        final(backend).trace() == old(backend).trace() + entry_ops(
            line,
            text@,
            style,
            old(backend).style(),
        ),
{
    match style {
        Some(style) => line.render_styled(text, style, backend),
        None => line.render(text, backend),
    }
}

/// What is sent to the backend for the first `rows` entries from index
/// `first` on, each between the margins of its line.
pub open spec fn padded_entries_ops<S, C>(
    lines: Seq<Line>,
    padding: usize,
    texts: Seq<Seq<char>>,
    styles: spec_fn(int) -> Option<S>,
    set: S,
    first: int,
    rows: int,
) -> Seq<Op<S, C>>
    decreases rows,
{
    if rows <= 0 {
        Seq::empty()
    } else {
        padded_entries_ops(lines, padding, texts, styles, set, first, rows - 1) + (margin_ops(
            lines[rows - 1],
            padding,
        ) + entry_ops(
            narrowed(lines[rows - 1], padding),
            texts[first + rows - 1],
            styles(first + rows - 1),
            set,
        ))
    }
}

/// What a list between margins sends to the backend: its entries from index
/// `first` on, one in each line between the margins of that line, and blanks
/// in the lines that are left.
pub open spec fn padded_list_ops<S, C>(
    lines: Seq<Line>,
    padding: usize,
    texts: Seq<Seq<char>>,
    styles: spec_fn(int) -> Option<S>,
    set: S,
    first: int,
) -> Seq<Op<S, C>> {
    let rows = shown(texts.len() as int, first, lines.len() as int);
    padded_entries_ops(lines, padding, texts, styles, set, first, rows) + blank_lines(
        lines.skip(rows),
    )
}

impl<B: Backend> State<B> {
    /// The style of each entry of a list with styles: its own, merged with
    /// the highlight for the selected one.
    pub open spec fn merged_of(&self, options: Seq<(&str, B::Style)>) -> spec_fn(int) -> Option<
        B::Style,
    > {
        |i: int|
            if i == self.selected {
                Some(B::merged(options[i].1, self.highlight))
            } else {
                Some(options[i].1)
            }
    }

    /// Draws the entries into `rect`, each in its style, the selected one
    /// with the highlight on top, and blanks what is left of `rect`.
    pub fn render_list_styled(
        &mut self,
        options: &[(&str, B::Style)],
        rect: &Rect,
        backend: &mut B,
    )
        requires
            rect.in_range(),
            rect.height > 0 || old(self).selected < usize::MAX,
        ensures
            *final(self) == (State::<B> {
                at_line: scrolled(old(self).at_line, old(self).selected, rect.height as usize)
                    as usize,
                ..*old(self)
            }),
            final(backend).style() == old(backend).style(),
            final(backend).trace() == old(backend).trace() + list_ops(
                RectIter::lines_of(*rect),
                styled_texts_of(options@),
                old(self).merged_of(options@),
                old(backend).style(),
                final(self).at_line as int,
            ),
    {
        self.update_at_line(rect.height as usize);
        let mut lines = rect.into_iter();
        let ghost all = lines.lines();
        let ghost texts = styled_texts_of(options@);
        let ghost styles = self.merged_of(options@);
        let ghost set = backend.style();
        let ghost start = backend.trace();
        let ghost first = self.at_line as int;
        let mut idx = self.at_line;
        let mut go = true;
        proof {
            assert(start =~= start + entries_ops::<B::Style, B::Color>(
                all,
                texts,
                styles,
                set,
                first,
                0,
            ));
            assert(all.skip(0) =~= all);
        }
        while go && idx < options.len()
            invariant
                lines.wf(),
                first <= idx,
                idx - first <= all.len(),
                lines.lines() == all.skip(idx - first),
                backend.style() == set,
                backend.trace() == start + entries_ops::<B::Style, B::Color>(
                    all,
                    texts,
                    styles,
                    set,
                    first,
                    idx - first,
                ),
                texts == styled_texts_of(options@),
                styles == self.merged_of(options@),
                !go ==> idx - first == all.len(),
                first == self.at_line,
                idx <= options.len() || idx == first,
            decreases options.len() - idx + if go { 1int } else { 0int },
        {
            let ghost done = entries_ops::<B::Style, B::Color>(
                all,
                texts,
                styles,
                set,
                first,
                idx - first,
            );
            match lines.next_line() {
                Some(line) => {
                    let (text, own) = options[idx];
                    let style = if idx == self.selected {
                        B::merge_style(own, self.highlight)
                    } else {
                        own
                    };
                    draw_entry(line, text, Some(style), backend);
                    proof {
                        assert(line == all[idx - first]);
                        assert(lines.lines() =~= all.skip(idx - first + 1));
                        let part = entry_ops::<B::Style, B::Color>(
                            line,
                            texts[idx as int],
                            styles(idx as int),
                            set,
                        );
                        assert(backend.trace() == (start + done) + part);
                        assert((start + done) + part =~= start + (done + part));
                    }
                    idx = idx + 1;
                },
                None => {
                    go = false;
                },
            }
        }
        let ghost rows = idx - first;
        proof {
            assert(texts.len() == options@.len());
            assert(rows == shown(texts.len() as int, first, all.len() as int));
        }
        lines.clear_to_end(backend);
        proof {
            let head = entries_ops::<B::Style, B::Color>(all, texts, styles, set, first, rows);
            let tail = blank_lines::<B::Style, B::Color>(all.skip(rows));
            assert((start + head) + tail =~= start + (head + tail));
        }
    }

    /// Draws the entries between the margins of `lines`, the selected one in
    /// the highlight, and blanks the lines that are left.
    pub fn render_list_padded(
        &mut self,
        options: &[&str],
        lines: DoublePaddedRectIter,
        backend: &mut B,
    )
        requires
            lines.wf(),
            lines.lines().len() > 0 || old(self).selected < usize::MAX,
        ensures
            *final(self) == (State::<B> {
                at_line: scrolled(
                    old(self).at_line,
                    old(self).selected,
                    lines.lines().len() as usize,
                ) as usize,
                ..*old(self)
            }),
            final(backend).style() == old(backend).style(),
            final(backend).trace() == old(backend).trace() + padded_list_ops(
                lines.lines(),
                lines.margin(),
                texts_of(options@),
                old(self).highlight_of(),
                old(backend).style(),
                final(self).at_line as int,
            ),
    {
        let mut lines = lines;
        self.update_at_line(lines.len());
        let ghost all = lines.lines();
        let ghost padding = lines.margin();
        let ghost texts = texts_of(options@);
        let ghost styles = self.highlight_of();
        let ghost set = backend.style();
        let ghost start = backend.trace();
        let ghost first = self.at_line as int;
        let mut idx = self.at_line;
        proof {
            assert(start =~= start + padded_entries_ops::<B::Style, B::Color>(
                all,
                padding,
                texts,
                styles,
                set,
                first,
                0,
            ));
            assert(all.skip(0) =~= all);
        }
        while idx < options.len() && lines.len() > 0
            invariant
                lines.wf(),
                lines.margin() == padding,
                first <= idx,
                idx - first <= all.len(),
                lines.lines() == all.skip(idx - first),
                backend.style() == set,
                backend.trace() == start + padded_entries_ops::<B::Style, B::Color>(
                    all,
                    padding,
                    texts,
                    styles,
                    set,
                    first,
                    idx - first,
                ),
                texts == texts_of(options@),
                styles == self.highlight_of(),
                first == self.at_line,
                idx <= options.len() || idx == first,
            decreases options.len() - idx,
        {
            let ghost done = padded_entries_ops::<B::Style, B::Color>(
                all,
                padding,
                texts,
                styles,
                set,
                first,
                idx - first,
            );
            let ghost full = lines.lines()[0];
            match lines.next_padded(backend) {
                Some(line) => {
                    let text = options[idx];
                    let style = if idx == self.selected {
                        Some(self.highlight)
                    } else {
                        None
                    };
                    draw_entry(line, text, style, backend);
                    proof {
                        assert(full == all[idx - first]);
                        assert(lines.lines() =~= all.skip(idx - first + 1));
                        let margins = margin_ops::<B::Style, B::Color>(full, padding);
                        let part = entry_ops::<B::Style, B::Color>(
                            line,
                            texts[idx as int],
                            styles(idx as int),
                            set,
                        );
                        assert(backend.trace() == ((start + done) + margins) + part);
                        assert(((start + done) + margins) + part =~= start + (done + (margins
                            + part)));
                    }
                    idx = idx + 1;
                },
                None => {},
            }
        }
        let ghost rows = idx - first;
        proof {
            assert(texts.len() == options@.len());
            assert(rows == shown(texts.len() as int, first, all.len() as int));
        }
        lines.clear_to_end(backend);
        proof {
            let head = padded_entries_ops::<B::Style, B::Color>(
                all,
                padding,
                texts,
                styles,
                set,
                first,
                rows,
            );
            let tail = blank_lines::<B::Style, B::Color>(all.skip(rows));
            assert((start + head) + tail =~= start + (head + tail));
        }
    }

    /// Draws entries of several lines each: every writer of `callbacks`
    /// writes one line of an entry. The lines of the selected entry are
    /// written between setting the highlight and resetting the style. What
    /// is left of `rect` is blanked.
    pub fn render_list_complex<T, W: LineWriter<T, B>>(
        &mut self,
        options: &[T],
        callbacks: &[W],
        rect: Rect,
        backend: &mut B,
    )
        requires
            rect.in_range(),
            callbacks@.len() > 0,
            rect.height as usize / callbacks@.len() as usize > 0 || old(self).selected
                < usize::MAX,
        ensures
            *final(self) == (State::<B> {
                at_line: scrolled(
                    old(self).at_line,
                    old(self).selected,
                    rect.height as usize / callbacks@.len() as usize,
                ) as usize,
                ..*old(self)
            }),
            final(backend).trace() == old(backend).trace() + complex_list_ops::<T, B, W>(
                options@,
                callbacks@,
                RectIter::lines_of(rect),
                old(self).selected as int,
                old(self).highlight,
                final(self).at_line as int,
            ),
    {
        let limit = rect.height as usize / callbacks.len();
        self.update_at_line(limit);
        let mut lines = rect.into_iter();
        let ghost target = backend.trace() + complex_list_ops::<T, B, W>(
            options@,
            callbacks@,
            lines.lines(),
            self.selected as int,
            self.highlight,
            self.at_line as int,
        );
        let mut idx = self.at_line;
        while idx < options.len()
            invariant
                lines.wf(),
                *self == (State::<B> {
                    at_line: scrolled(old(self).at_line, old(self).selected, limit) as usize,
                    ..*old(self)
                }),
                target == backend.trace() + complex_list_ops::<T, B, W>(
                    options@,
                    callbacks@,
                    lines.lines(),
                    self.selected as int,
                    self.highlight,
                    idx as int,
                ),
            decreases options.len() - idx,
        {
            let ghost before = backend.trace();
            let ghost here = lines.lines();
            let ghost used = shown(callbacks@.len() as int, 0, here.len() as int);
            let ghost rest = complex_list_ops::<T, B, W>(
                options@,
                callbacks@,
                here.skip(used),
                self.selected as int,
                self.highlight,
                idx + 1,
            );
            let option = &options[idx];
            let chosen = idx == self.selected;
            if chosen {
                backend.set_style(self.highlight);
            }
            let ghost opened = backend.trace();
            let mut at: usize = 0;
            let mut go = true;
            proof {
                assert(here.skip(0) =~= here);
                assert(opened =~= opened + written_lines::<T, B, W>(
                    callbacks@,
                    options@[idx as int],
                    here,
                    0,
                ));
            }
            while go && at < callbacks.len()
                invariant
                    lines.wf(),
                    idx < options@.len(),
                    option == &options@[idx as int],
                    at <= callbacks@.len(),
                    at <= here.len(),
                    lines.lines() == here.skip(at as int),
                    backend.trace() == opened + written_lines::<T, B, W>(
                        callbacks@,
                        options@[idx as int],
                        here,
                        at as int,
                    ),
                    !go ==> at == here.len(),
                decreases callbacks.len() - at + if go { 1int } else { 0int },
            {
                let ghost done = written_lines::<T, B, W>(
                    callbacks@,
                    options@[idx as int],
                    here,
                    at as int,
                );
                match lines.next_line() {
                    Some(line) => {
                        let mut builder = line.unsafe_builder(backend);
                        callbacks[at].write(option, &mut builder, backend);
                        builder.pad(backend);
                        proof {
                            let one = written_line::<T, B, W>(
                                callbacks@[at as int],
                                options@[idx as int],
                                here[at as int],
                            );
                            assert(line == here[at as int]);
                            assert(backend.trace() =~= (opened + done) + one);
                            assert((opened + done) + one =~= opened + (done + one));
                            assert(here.skip(at as int).drop_first() =~= here.skip(at + 1));
                        }
                        at = at + 1;
                    },
                    None => {
                        go = false;
                    },
                }
            }
            let ghost body = written_lines::<T, B, W>(
                callbacks@,
                options@[idx as int],
                here,
                used,
            );
            if chosen {
                backend.reset_style();
            }
            proof {
                assert(at == used);
                assert(lines.lines() == here.skip(used));
                let set = Seq::<Op<B::Style, B::Color>>::empty().push(Op::SetStyle(self.highlight));
                let reset = Seq::<Op<B::Style, B::Color>>::empty().push(Op::ResetStyle);
                if chosen {
                    assert(backend.trace() =~= before + (set + body + reset));
                    assert((before + (set + body + reset)) + rest =~= before + ((set + body + reset)
                        + rest));
                } else {
                    assert(backend.trace() =~= before + body);
                    assert((before + body) + rest =~= before + (body + rest));
                }
            }
            idx = idx + 1;
        }
        let ghost before = backend.trace();
        let ghost here = lines.lines();
        backend.reset_style();
        lines.clear_to_end(backend);
        proof {
            let reset = Seq::<Op<B::Style, B::Color>>::empty().push(Op::ResetStyle);
            let blanks = blank_lines::<B::Style, B::Color>(here);
            assert(backend.trace() =~= before + (reset + blanks));
        }
    }
}

} // verus!
