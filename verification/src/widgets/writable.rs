//! What can be written to a backend: one text, or several side by side.
use crate::backend::{Backend, Op};
use crate::layout::iter::IterLines;
use crate::layout::line::Line;
use crate::utils::encoding::byte_len;
use crate::widgets::styled_line::{
    all_simple, print_all, total_bytes, total_chars, total_width, truncated_all,
    truncated_start_all, StyledLine,
};
use crate::widgets::text::{single_bytes, Text};
use vstd::prelude::*;

verus! {

/// Something that a backend can print: as it is, cut to a width, into a line
/// or wrapped over several lines.
pub trait Writable<B: Backend>: Sized {
    /// What every value that is written has to meet.
    spec fn wf(&self) -> bool;

    /// Display width.
    spec fn cells(&self) -> int;

    /// Number of characters.
    spec fn count(&self) -> int;

    /// Length in bytes.
    spec fn bytes(&self) -> int;

    /// Whether every character takes one byte.
    spec fn simple(&self) -> bool;

    /// What `print` sends to the backend.
    spec fn ops(&self) -> Seq<Op<B::Style, B::Color>>;

    /// What `print_truncated` sends to the backend.
    spec fn cut_ops(&self, width: usize) -> Seq<Op<B::Style, B::Color>>;

    /// What `print_truncated_start` sends to the backend.
    spec fn cut_start_ops(&self, width: usize) -> Seq<Op<B::Style, B::Color>>;

    /// What `print_at` sends to the backend.
    spec fn at_ops(&self, line: Line) -> Seq<Op<B::Style, B::Color>>;

    /// What `wrap` sends to the backend on `lines` of `max` columns.
    spec fn wrapped_ops(&self, lines: Seq<Line>, max: usize) -> Seq<Op<B::Style, B::Color>>;

    /// Number of lines that `wrap` takes.
    spec fn wrapped_lines(&self, lines: Seq<Line>, max: usize) -> int;

    /// Whether bytes can be counted for characters: no character takes more than one.
    fn is_simple(&self) -> (r: bool)
        requires
            self.wf(),
        ensures
            r == self.simple(),
    ;

    /// Width when printed.
    fn width(&self) -> (w: usize)
        requires
            self.wf(),
        ensures
            w == self.cells(),
    ;

    /// Number of characters.
    fn char_len(&self) -> (n: usize)
        requires
            self.wf(),
        ensures
            n == self.count(),
    ;

    /// Length in bytes.
    fn len(&self) -> (n: usize)
        requires
            self.wf(),
        ensures
            n == self.bytes(),
    ;

    /// Prints all of it where the cursor is.
    fn print(&self, backend: &mut B)
        requires
            self.wf(),
        ensures
            final(backend).trace() == old(backend).trace() + self.ops(),
            final(backend).style() == old(backend).style(),
    ;

    /// Prints into `line`, cut or padded to its width.
    fn print_at(&self, line: Line, backend: &mut B)
        requires
            self.wf(),
        ensures
            final(backend).trace() == old(backend).trace() + self.at_ops(line),
            final(backend).style() == old(backend).style(),
    ;

    /// Prints over the lines of `lines`.
    fn wrap<L: IterLines>(&self, lines: &mut L, backend: &mut B)
        requires
            self.wf(),
            old(lines).wf(),
        ensures
            final(lines).wf(),
            final(backend).style() == old(backend).style(),
            final(backend).trace() == old(backend).trace() + self.wrapped_ops(
                old(lines).lines(),
                old(lines).line_width(),
            ),
            final(lines).lines() == old(lines).lines().skip(
                self.wrapped_lines(old(lines).lines(), old(lines).line_width()),
            ),
    ;

    /// Prints the start, in `width` columns.
    fn print_truncated(&self, width: usize, backend: &mut B)
        requires
            self.wf(),
        ensures
            final(backend).trace() == old(backend).trace() + self.cut_ops(width),
            final(backend).style() == old(backend).style(),
    ;

    /// Prints the end, in `width` columns.
    fn print_truncated_start(&self, width: usize, backend: &mut B)
        requires
            self.wf(),
            width <= self.cells(),
        ensures
            final(backend).trace() == old(backend).trace() + self.cut_start_ops(width),
            final(backend).style() == old(backend).style(),
    ;

    /// Whether there is nothing to print.
    fn is_empty(&self) -> (r: bool)
        requires
            self.wf(),
        ensures
            r == (self.bytes() == 0),
    {
        self.len() == 0
    }
}

impl<B: Backend> Writable<B> for Text<B> {
    open spec fn wf(&self) -> bool {
        Text::wf(self)
    }

    open spec fn cells(&self) -> int {
        self.shown_width() as int
    }

    open spec fn count(&self) -> int {
        self.chars().len() as int
    }

    open spec fn bytes(&self) -> int {
        byte_len(self.chars()) as int
    }

    open spec fn simple(&self) -> bool {
        single_bytes(self.chars())
    }

    open spec fn ops(&self) -> Seq<Op<B::Style, B::Color>> {
        self.print_ops()
    }

    open spec fn cut_ops(&self, width: usize) -> Seq<Op<B::Style, B::Color>> {
        self.truncated_ops(width)
    }

    open spec fn cut_start_ops(&self, width: usize) -> Seq<Op<B::Style, B::Color>> {
        self.truncated_start_ops(width)
    }

    open spec fn at_ops(&self, line: Line) -> Seq<Op<B::Style, B::Color>> {
        self.print_at_ops(line)
    }

    open spec fn wrapped_ops(&self, lines: Seq<Line>, max: usize) -> Seq<Op<B::Style, B::Color>> {
        self.wrap_ops(lines, max)
    }

    open spec fn wrapped_lines(&self, lines: Seq<Line>, max: usize) -> int {
        self.wrapped(lines, max).used
    }

    fn is_simple(&self) -> (r: bool) {
        Text::is_simple(self)
    }

    fn width(&self) -> (w: usize) {
        Text::width(self)
    }

    fn char_len(&self) -> (n: usize) {
        Text::char_len(self)
    }

    fn len(&self) -> (n: usize) {
        Text::len(self)
    }

    fn print(&self, backend: &mut B) {
        Text::print(self, backend)
    }

    fn print_at(&self, line: Line, backend: &mut B) {
        Text::print_at(self, line, backend)
    }

    fn wrap<L: IterLines>(&self, lines: &mut L, backend: &mut B) {
        Text::wrap(self, lines, backend)
    }

    fn print_truncated(&self, width: usize, backend: &mut B) {
        Text::print_truncated(self, width, backend)
    }

    fn print_truncated_start(&self, width: usize, backend: &mut B) {
        Text::print_truncated_start(self, width, backend)
    }
}

impl<B: Backend> Writable<B> for StyledLine<B> {
    open spec fn wf(&self) -> bool {
        StyledLine::wf(self)
    }

    open spec fn cells(&self) -> int {
        total_width(self.words())
    }

    open spec fn count(&self) -> int {
        total_chars(self.words())
    }

    open spec fn bytes(&self) -> int {
        total_bytes(self.words())
    }

    open spec fn simple(&self) -> bool {
        all_simple(self.words())
    }

    open spec fn ops(&self) -> Seq<Op<B::Style, B::Color>> {
        print_all(self.words())
    }

    open spec fn cut_ops(&self, width: usize) -> Seq<Op<B::Style, B::Color>> {
        truncated_all(self.words(), width as int)
    }

    open spec fn cut_start_ops(&self, width: usize) -> Seq<Op<B::Style, B::Color>> {
        truncated_start_all(self.words(), total_width(self.words()) - width)
    }

    open spec fn at_ops(&self, line: Line) -> Seq<Op<B::Style, B::Color>> {
        self.print_at_ops(line)
    }

    open spec fn wrapped_ops(&self, lines: Seq<Line>, max: usize) -> Seq<Op<B::Style, B::Color>> {
        self.wrap_ops(lines, max)
    }

    open spec fn wrapped_lines(&self, lines: Seq<Line>, max: usize) -> int {
        self.wrap_used(lines, max)
    }

    fn is_simple(&self) -> (r: bool) {
        StyledLine::is_simple(self)
    }

    fn width(&self) -> (w: usize) {
        StyledLine::width(self)
    }

    fn char_len(&self) -> (n: usize) {
        StyledLine::char_len(self)
    }

    fn len(&self) -> (n: usize) {
        StyledLine::len(self)
    }

    fn print(&self, backend: &mut B) {
        StyledLine::print(self, backend)
    }

    fn print_at(&self, line: Line, backend: &mut B) {
        StyledLine::print_at(self, line, backend)
    }

    fn wrap<L: IterLines>(&self, lines: &mut L, backend: &mut B) {
        StyledLine::wrap(self, lines, backend)
    }

    fn print_truncated(&self, width: usize, backend: &mut B) {
        StyledLine::print_truncated(self, width, backend)
    }

    fn print_truncated_start(&self, width: usize, backend: &mut B) {
        StyledLine::print_truncated_start(self, width, backend)
    }
}

} // verus!
