//! A piece of text with its measures and an optional style.
use crate::backend::{Backend, Op};

use crate::layout::line::{head_fit, tail_fit, then_pad, Line};

use crate::utils::encoding::{
    byte_len, lemma_byte_len_bounds, lemma_index_at, lemma_single_byte_offsets, slice, str_len,
};
use crate::utils::width::{char_width, cols, unicode_str_width};
use crate::utils::UTFSafe;
use vstd::prelude::*;
use vstd::std_specs::convert::{FromSpec, FromSpecImpl};

verus! {

/// A word with what is needed to draw it again and again: its width, its
/// number of characters and its style.
pub struct Text<B: Backend> {
    text: String,
    char_len: usize,
    width: usize,
    style: Option<B::Style>,
}

/// The instruction that prints `text`, in `style` if there is one.
pub open spec fn print_op<S, C>(text: Seq<char>, style: Option<S>) -> Op<S, C> {
    match style {
        Some(style) => Op::PrintStyled(text, style),
        None => Op::Print(text),
    }
}

/// The first `n` characters of `text`, or all of it if it is shorter.
pub open spec fn first_chars(text: Seq<char>, n: int) -> Seq<char> {
    if n >= text.len() {
        text
    } else if n <= 0 {
        Seq::empty()
    } else {
        text.take(n)
    }
}

/// The last `n` characters of `text`, or all of it if it is shorter.
pub open spec fn last_chars(text: Seq<char>, n: int) -> Seq<char> {
    if n >= text.len() {
        text
    } else if n <= 0 {
        Seq::empty()
    } else {
        text.skip(text.len() - n)
    }
}

/// What is left of `text` behind its first `n` characters.
pub open spec fn behind(text: Seq<char>, n: int) -> Seq<char> {
    if n >= text.len() {
        Seq::empty()
    } else if n <= 0 {
        text
    } else {
        text.skip(n)
    }
}

/// Every character of `text` takes one byte.
pub open spec fn single_bytes(text: Seq<char>) -> bool {
    byte_len(text) == text.len()
}

impl<B: Backend> Text<B> {
    /// The characters of the text.
    pub closed spec fn chars(&self) -> Seq<char> {
        self.text@
    }

    /// The style of the text, if it has one.
    pub closed spec fn look(&self) -> Option<B::Style> {
        self.style
    }

    /// The display width that is kept with the text.
    pub closed spec fn shown_width(&self) -> usize {
        self.width
    }

    /// The number of characters that is kept with the text is that of the text.
    pub closed spec fn wf(&self) -> bool {
        self.char_len == self.text@.len()
    }

    /// The text with `style`.
    pub fn new(text: String, style: Option<B::Style>) -> (t: Self)
        ensures
            t.wf(),
            t.chars() == text@,
            t.look() == style,
            t.shown_width() == unicode_str_width(text@),
    {
        Self { char_len: text.char_len(), width: text.width(), style, text }
    }

    /// The text without a style.
    pub fn raw(text: String) -> (t: Self)
        ensures
            t.wf(),
            t.chars() == text@,
            t.look() is None,
            t.shown_width() == unicode_str_width(text@),
    {
        Self { char_len: text.char_len(), width: text.width(), style: None, text }
    }

    /// The one character `value`, without a style.
    pub fn from_char(value: char) -> (t: Self)
        ensures
            t.wf(),
            t.chars() == seq![value],
            t.look() is None,
            t.shown_width() == crate::utils::width::char_cols(value),
    {
        let mut text = String::new();
        text.push(value);
        proof {
            assert(text@ =~= seq![value]);
        }
        Self {
            char_len: 1,
            width: match char_width(value) {
                Some(w) => w,
                None => 0,
            },
            text,
            style: None,
        }
    }

    /// The style of the text.
    pub fn style(&self) -> (style: Option<B::Style>)
        ensures
            style == self.look(),
    {
        self.style
    }

    /// Gives the text another style.
    pub fn set_style(&mut self, style: Option<B::Style>)
        ensures
            final(self).look() == style,
            final(self).chars() == old(self).chars(),
            final(self).shown_width() == old(self).shown_width(),
            old(self).wf() ==> final(self).wf(),
    {
        self.style = style;
    }

    /// The text as a string slice.
    pub fn as_str(&self) -> (text: &str)
        ensures
            text@ == self.chars(),
    {
        self.text.as_str()
    }

    /// Whether every character takes one byte, so that bytes can be counted for characters.
    pub fn is_simple(&self) -> (r: bool)
        requires
            self.wf(),
        ensures
            r == single_bytes(self.chars()),
    {
        self.char_len == str_len(self.text.as_str())
    }

    /// Number of characters.
    pub fn char_len(&self) -> (n: usize)
        requires
            self.wf(),
        ensures
            n == self.chars().len(),
    {
        self.char_len
    }

    /// Display width.
    pub fn width(&self) -> (w: usize)
        ensures
            w == self.shown_width(),
    {
        self.width
    }

    /// Length in bytes.
    pub fn len(&self) -> (n: usize)
        ensures
            n == byte_len(self.chars()),
    {
        str_len(self.text.as_str())
    }

    /// Whether the text is empty.
    pub fn is_empty(&self) -> (r: bool)
        ensures
            r == (self.chars().len() == 0),
    {
        proof {
            lemma_byte_len_bounds(self.text@);
        }
        self.len() == 0
    }

    /// Prints `piece` in the style of the text.
    pub(crate) fn emit(&self, piece: &str, backend: &mut B)
        ensures
            final(backend).trace() == old(backend).trace().push(print_op(piece@, self.look())),
            final(backend).style() == old(backend).style(),
    {
        match self.style {
            Some(style) => backend.print_styled(piece, style),
            None => backend.print(piece),
        }
    }

    /// The first `n` characters of a text of one-byte characters.
    pub(crate) fn first_bytes(&self, n: usize) -> (piece: &str)
        requires
            single_bytes(self.chars()),
        ensures
            piece@ == first_chars(self.chars(), n as int),
    {
        let text = self.text.as_str();
        let len = str_len(text);
        let end = if n < len {
            n
        } else {
            len
        };
        proof {
            lemma_single_byte_offsets(text@, 0);
            lemma_single_byte_offsets(text@, end as int);
            lemma_index_at(text@, 0);
            lemma_index_at(text@, end as int);
            assert(text@.subrange(0, end as int) =~= first_chars(text@, n as int));
        }
        slice(text, 0, end)
    }

    /// What follows the first `n` characters of a text of one-byte characters.
    pub(crate) fn bytes_from(&self, n: usize) -> (piece: &str)
        requires
            single_bytes(self.chars()),
        ensures
            piece@ == behind(self.chars(), n as int),
    {
        let text = self.text.as_str();
        let len = str_len(text);
        let start = if n < len {
            n
        } else {
            len
        };
        proof {
            lemma_single_byte_offsets(text@, start as int);
            lemma_single_byte_offsets(text@, len as int);
            lemma_index_at(text@, start as int);
            lemma_index_at(text@, len as int);
            assert(text@.subrange(start as int, len as int) =~= behind(text@, n as int));
        }
        slice(text, start, len)
    }

    /// The characters from index `from` on, at most `n` of them, of a text of
    /// one-byte characters.
    pub(crate) fn bytes_between(&self, from: usize, n: usize) -> (piece: &str)
        requires
            single_bytes(self.chars()),
        ensures
            piece@ == first_chars(behind(self.chars(), from as int), n as int),
    {
        let text = self.text.as_str();
        let len = str_len(text);
        let start = if from < len {
            from
        } else {
            len
        };
        let end = if n < len - start {
            start + n
        } else {
            len
        };
        proof {
            lemma_single_byte_offsets(text@, start as int);
            lemma_single_byte_offsets(text@, end as int);
            lemma_index_at(text@, start as int);
            lemma_index_at(text@, end as int);
            assert(text@.subrange(start as int, end as int) =~= first_chars(
                behind(text@, from as int),
                n as int,
            ));
        }
        slice(text, start, end)
    }

    /// What `print` sends to the backend.
    pub open spec fn print_ops(&self) -> Seq<Op<B::Style, B::Color>> {
        seq![print_op(self.chars(), self.look())]
    }

    /// What `print_truncated` sends to the backend: of a text of one-byte
    /// characters the first `width` characters; of another text the longest
    /// start that fits into `width` columns, and padding for what is left.
    pub open spec fn truncated_ops(&self, width: usize) -> Seq<Op<B::Style, B::Color>> {
        if single_bytes(self.chars()) {
            seq![print_op(first_chars(self.chars(), width as int), self.look())]
        } else {
            then_pad(
                seq![print_op(head_fit(self.chars(), width), self.look())],
                width - cols(head_fit(self.chars(), width)),
            )
        }
    }

    /// What `print_truncated_start` sends to the backend: of a text of
    /// one-byte characters the last `width` characters; of another text
    /// padding for what is left beside the longest end that fits into `width`
    /// columns, and that end.
    pub open spec fn truncated_start_ops(&self, width: usize) -> Seq<Op<B::Style, B::Color>> {
        if single_bytes(self.chars()) {
            seq![print_op(last_chars(self.chars(), width as int), self.look())]
        } else {
            then_pad(Seq::empty(), width - cols(tail_fit(self.chars(), width))).push(
                print_op(tail_fit(self.chars(), width), self.look()),
            )
        }
    }

    /// What `print_at` sends to the backend: the move to the line, and the
    /// text with padding behind it, or cut to the line if it is wider.
    pub open spec fn print_at_ops(&self, line: Line) -> Seq<Op<B::Style, B::Color>> {
        seq![Op::GoTo { row: line.row, col: line.col }] + if self.shown_width() > line.width {
            self.truncated_ops(line.width)
        } else {
            then_pad(self.print_ops(), line.width - self.shown_width())
        }
    }

    /// Prints the text where the cursor is.
    pub fn print(&self, backend: &mut B)
        ensures
            final(backend).trace() == old(backend).trace() + self.print_ops(),
            final(backend).style() == old(backend).style(),
    {
        self.emit(self.text.as_str(), backend);
        proof {
            assert(backend.trace() =~= old(backend).trace() + self.print_ops());
        }
    }

    /// Prints the start of the text in `width` columns.
    pub fn print_truncated(&self, width: usize, backend: &mut B)
        requires
            self.wf(),
        ensures
            final(backend).trace() == old(backend).trace() + self.truncated_ops(width),
            final(backend).style() == old(backend).style(),
    {
        if self.is_simple() {
            self.emit(self.first_bytes(width), backend);
        } else {
            let (remaining_w, text) = self.text.truncate_width(width);
            self.emit(text, backend);
            if remaining_w != 0 {
                backend.pad(remaining_w);
            }
        }
        proof {
            assert(backend.trace() =~= old(backend).trace() + self.truncated_ops(width));
        }
    }

    /// Prints the end of the text in `width` columns.
    pub fn print_truncated_start(&self, width: usize, backend: &mut B)
        requires
            self.wf(),
        ensures
            final(backend).trace() == old(backend).trace() + self.truncated_start_ops(width),
            final(backend).style() == old(backend).style(),
    {
        if self.is_simple() {
            let len = self.len();
            let skip = if width < len {
                len - width
            } else {
                0
            };
            proof {
                assert(behind(self.chars(), skip as int) =~= last_chars(self.chars(), width as int));
            }
            self.emit(self.bytes_from(skip), backend);
        } else {
            let (remaining_w, text) = self.text.truncate_width_start(width);
            if remaining_w != 0 {
                backend.pad(remaining_w);
            }
            self.emit(text, backend);
        }
        proof {
            assert(backend.trace() =~= old(backend).trace() + self.truncated_start_ops(width));
        }
    }

    /// Prints the text into `line`: cut to the line if it is wider, and else
    /// with padding behind it.
    pub fn print_at(&self, line: Line, backend: &mut B)
        requires
            self.wf(),
        ensures
            final(backend).trace() == old(backend).trace() + self.print_at_ops(line),
            final(backend).style() == old(backend).style(),
    {
        let Line { width, row, col } = line;
        backend.go_to(row, col);
        if self.width > width {
            self.print_truncated(width, backend);
            proof {
                assert(backend.trace() =~= old(backend).trace() + self.print_at_ops(line));
            }
            return ;
        }
        let pad_width = width - self.width;
        self.print(backend);
        if pad_width != 0 {
            backend.pad(pad_width);
        }
        proof {
            assert(backend.trace() =~= old(backend).trace() + self.print_at_ops(line));
        }
    }
}

impl<B: Backend> From<String> for Text<B> {
    fn from(text: String) -> (t: Self) {
        Self { char_len: text.char_len(), width: text.width(), style: None, text }
    }
}

impl<B: Backend> FromSpecImpl<String> for Text<B> {
    open spec fn obeys_from_spec() -> bool {
        true
    }

    closed spec fn from_spec(text: String) -> Text<B> {
        Text { text, char_len: text@.len() as usize, width: unicode_str_width(text@), style: None }
    }
}

impl<B: Backend> From<char> for Text<B> {
    fn from(value: char) -> (t: Self) {
        Text::from_char(value)
    }
}

impl<B: Backend> FromSpecImpl<char> for Text<B> {
    open spec fn obeys_from_spec() -> bool {
        false
    }

    closed spec fn from_spec(value: char) -> Text<B> {
        arbitrary()
    }
}

impl<B: Backend> From<(String, B::Style)> for Text<B> {
    fn from(pair: (String, B::Style)) -> (t: Self) {
        let (text, style) = pair;
        Self { char_len: text.char_len(), width: text.width(), style: Some(style), text }
    }
}

impl<B: Backend> FromSpecImpl<(String, B::Style)> for Text<B> {
    open spec fn obeys_from_spec() -> bool {
        true
    }

    closed spec fn from_spec(pair: (String, B::Style)) -> Text<B> {
        Text {
            text: pair.0,
            char_len: pair.0@.len() as usize,
            width: unicode_str_width(pair.0@),
            style: Some(pair.1),
        }
    }
}

/// The text that `From` makes of a string: the string without a style, with its measures.
pub proof fn lemma_from_string<B: Backend>(text: String)
    requires
        text@.len() <= usize::MAX,
    ensures
        <Text<B> as FromSpec<String>>::from_spec(text).wf(),
        <Text<B> as FromSpec<String>>::from_spec(text).chars() == text@,
        <Text<B> as FromSpec<String>>::from_spec(text).look() is None,
        <Text<B> as FromSpec<String>>::from_spec(text).shown_width() == unicode_str_width(text@),
{
}

/// The text that `From` makes of a string and a style.
pub proof fn lemma_from_styled<B: Backend>(text: String, style: B::Style)
    requires
        text@.len() <= usize::MAX,
    ensures
        <Text<B> as FromSpec<(String, B::Style)>>::from_spec((text, style)).wf(),
        <Text<B> as FromSpec<(String, B::Style)>>::from_spec((text, style)).chars() == text@,
        <Text<B> as FromSpec<(String, B::Style)>>::from_spec((text, style)).look() == Some(style),
        <Text<B> as FromSpec<(String, B::Style)>>::from_spec((text, style)).shown_width() == unicode_str_width(text@),
{
}

} // verus!
