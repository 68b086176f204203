//! A line of styled texts.
use crate::backend::{Backend, Op};
use crate::layout::line::{then_pad, Line};
use crate::utils::encoding::byte_len;
use crate::widgets::text::{single_bytes, Text};
use crate::widgets::wrap::go;
use vstd::prelude::*;
use vstd::string::StringExecFns;
use vstd::std_specs::convert::{FromSpec, FromSpecImpl};

verus! {

/// Texts that stand side by side, each with its own style.
pub struct StyledLine<B: Backend> {
    inner: Vec<Text<B>>,
}

/// Display width of all `words` together.
pub open spec fn total_width<B: Backend>(words: Seq<Text<B>>) -> int
    decreases words.len(),
{
    if words.len() == 0 {
        0
    } else {
        total_width(words.drop_last()) + words.last().shown_width()
    }
}

/// Number of characters of all `words` together.
pub open spec fn total_chars<B: Backend>(words: Seq<Text<B>>) -> int
    decreases words.len(),
{
    if words.len() == 0 {
        0
    } else {
        total_chars(words.drop_last()) + words.last().chars().len()
    }
}

/// Number of bytes of all `words` together.
pub open spec fn total_bytes<B: Backend>(words: Seq<Text<B>>) -> int
    decreases words.len(),
{
    if words.len() == 0 {
        0
    } else {
        total_bytes(words.drop_last()) + byte_len(words.last().chars())
    }
}

/// The characters of all `words`, one after the other.
pub open spec fn joined_text<B: Backend>(words: Seq<Text<B>>) -> Seq<char>
    decreases words.len(),
{
    if words.len() == 0 {
        Seq::empty()
    } else {
        joined_text(words.drop_last()) + words.last().chars()
    }
}

/// What printing all `words` sends to the backend.
pub open spec fn print_all<B: Backend>(words: Seq<Text<B>>) -> Seq<Op<B::Style, B::Color>>
    decreases words.len(),
{
    if words.len() == 0 {
        Seq::empty()
    } else {
        words[0].print_ops() + print_all(words.drop_first())
    }
}

/// What printing the start of `words` in `width` columns sends to the
/// backend: the words that fit, and the start of the first that does not.
pub open spec fn truncated_all<B: Backend>(words: Seq<Text<B>>, width: int) -> Seq<
    Op<B::Style, B::Color>,
>
    decreases words.len(),
{
    if words.len() == 0 {
        Seq::empty()
    } else if words[0].shown_width() > width {
        words[0].truncated_ops(width as usize)
    } else {
        words[0].print_ops() + truncated_all(words.drop_first(), width - words[0].shown_width())
    }
}

/// What printing the end of `words` sends to the backend, once `skipped`
/// columns at the start are left out: the end of the first word that reaches
/// behind them, and the words behind it.
pub open spec fn truncated_start_all<B: Backend>(words: Seq<Text<B>>, skipped: int) -> Seq<
    Op<B::Style, B::Color>,
>
    decreases words.len(),
{
    if words.len() == 0 {
        Seq::empty()
    } else if words[0].shown_width() > skipped {
        words[0].truncated_start_ops((words[0].shown_width() - skipped) as usize) + print_all(
            words.drop_first(),
        )
    } else {
        truncated_start_all(words.drop_first(), skipped - words[0].shown_width())
    }
}

/// What printing `words` into `width` columns sends to the backend: the
/// words that fit and padding behind them, or else the start of the first
/// word that does not fit.
pub open spec fn at_all<B: Backend>(words: Seq<Text<B>>, width: int) -> Seq<Op<B::Style, B::Color>>
    decreases words.len(),
{
    if words.len() == 0 {
        then_pad(Seq::empty(), width)
    } else if width < words[0].shown_width() {
        words[0].truncated_ops(width as usize)
    } else {
        words[0].print_ops() + at_all(words.drop_first(), width - words[0].shown_width())
    }
}

/// Every word is well-formed.
pub open spec fn all_wf<B: Backend>(words: Seq<Text<B>>) -> bool {
    forall|i: int| 0 <= i < words.len() ==> (#[trigger] words[i]).wf()
}

/// Every word holds one-byte characters only.
pub open spec fn all_simple<B: Backend>(words: Seq<Text<B>>) -> bool {
    forall|i: int| 0 <= i < words.len() ==> single_bytes((#[trigger] words[i]).chars())
}

/// The measures of a part of the words are at most those of all.
pub proof fn lemma_totals_monotone<B: Backend>(words: Seq<Text<B>>, i: int)
    requires
        0 <= i <= words.len(),
    ensures
        0 <= total_width(words.take(i)) <= total_width(words),
        0 <= total_chars(words.take(i)) <= total_chars(words),
        0 <= total_bytes(words.take(i)) <= total_bytes(words),
    decreases words.len() - i,
{
    if i == words.len() {
        assert(words.take(i) =~= words);
        lemma_totals_nonnegative(words);
    } else {
        lemma_totals_monotone(words.drop_last(), i);
        assert(words.drop_last().take(i) =~= words.take(i));
    }
}

/// The measures of words are not negative.
pub proof fn lemma_totals_nonnegative<B: Backend>(words: Seq<Text<B>>)
    ensures
        0 <= total_width(words),
        0 <= total_chars(words),
        0 <= total_bytes(words),
    decreases words.len(),
{
    if words.len() > 0 {
        lemma_totals_nonnegative(words.drop_last());
    }
}

impl<B: Backend> StyledLine<B> {
    /// The texts of the line.
    pub closed spec fn words(&self) -> Seq<Text<B>> {
        self.inner@
    }

    /// Every text is well-formed, and the measures of the whole line fit into a `usize`.
    pub open spec fn wf(&self) -> bool {
        &&& all_wf(self.words())
        &&& total_width(self.words()) <= usize::MAX
        &&& total_bytes(self.words()) <= usize::MAX
        &&& total_chars(self.words()) <= usize::MAX
    }

    /// The line of the texts `inner`.
    pub fn new(inner: Vec<Text<B>>) -> (line: Self)
        ensures
            line.words() == inner@,
    {
        Self { inner }
    }

    /// Number of texts.
    pub fn inner_len(&self) -> (n: usize)
        ensures
            n == self.words().len(),
    {
        self.inner.len()
    }

    /// The text with index `i`.
    pub fn word(&self, i: usize) -> (text: &Text<B>)
        requires
            i < self.words().len(),
        ensures
            *text == self.words()[i as int],
    {
        &self.inner[i]
    }

    /// Whether the measures of the whole line fit into a `usize`, so that the
    /// line can be measured and printed.
    pub fn fits(&self) -> (r: bool)
        requires
            all_wf(self.words()),
        ensures
            r == self.wf(),
    {
        let mut width: usize = 0;
        let mut bytes: usize = 0;
        let mut i: usize = 0;
        proof {
            assert(self.words().take(0) =~= Seq::<Text<B>>::empty());
        }
        while i < self.inner.len()
            invariant
                i <= self.inner.len(),
                all_wf(self.words()),
                width == total_width(self.words().take(i as int)),
                bytes == total_bytes(self.words().take(i as int)),
                0 <= total_chars(self.words().take(i as int)) <= bytes,
            decreases self.inner.len() - i,
        {
            proof {
                assert(self.words().take(i + 1).drop_last() =~= self.words().take(i as int));
                lemma_totals_monotone(self.words(), i + 1);
                crate::utils::encoding::lemma_byte_len_bounds(self.words()[i as int].chars());
            }
            let text = &self.inner[i];
            if text.width() > usize::MAX - width || text.len() > usize::MAX - bytes {
                return false;
            }
            width = width + text.width();
            bytes = bytes + text.len();
            i = i + 1;
        }
        proof {
            assert(self.words().take(i as int) =~= self.words());
        }
        true
    }

    /// Whether every text holds one-byte characters only.
    pub fn is_simple(&self) -> (r: bool)
        requires
            self.wf(),
        ensures
            r == all_simple(self.words()),
    {
        let mut i: usize = 0;
        while i < self.inner.len()
            invariant
                i <= self.inner.len(),
                all_wf(self.words()),
                forall|j: int| 0 <= j < i ==> single_bytes((#[trigger] self.words()[j]).chars()),
            decreases self.inner.len() - i,
        {
            if !self.inner[i].is_simple() {
                return false;
            }
            i = i + 1;
        }
        true
    }

    /// Number of characters.
    pub fn char_len(&self) -> (n: usize)
        requires
            self.wf(),
        ensures
            n == total_chars(self.words()),
    {
        let mut sum: usize = 0;
        let mut i: usize = 0;
        proof {
            assert(self.words().take(0) =~= Seq::<Text<B>>::empty());
        }
        while i < self.inner.len()
            invariant
                i <= self.inner.len(),
                self.wf(),
                sum == total_chars(self.words().take(i as int)),
            decreases self.inner.len() - i,
        {
            proof {
                assert(self.words().take(i + 1).drop_last() =~= self.words().take(i as int));
                lemma_totals_monotone(self.words(), i + 1);
            }
            sum = sum + self.inner[i].char_len();
            i = i + 1;
        }
        proof {
            assert(self.words().take(i as int) =~= self.words());
        }
        sum
    }

    /// Length in bytes.
    pub fn len(&self) -> (n: usize)
        requires
            self.wf(),
        ensures
            n == total_bytes(self.words()),
    {
        let mut sum: usize = 0;
        let mut i: usize = 0;
        proof {
            assert(self.words().take(0) =~= Seq::<Text<B>>::empty());
        }
        while i < self.inner.len()
            invariant
                i <= self.inner.len(),
                self.wf(),
                sum == total_bytes(self.words().take(i as int)),
            decreases self.inner.len() - i,
        {
            proof {
                assert(self.words().take(i + 1).drop_last() =~= self.words().take(i as int));
                lemma_totals_monotone(self.words(), i + 1);
            }
            sum = sum + self.inner[i].len();
            i = i + 1;
        }
        proof {
            assert(self.words().take(i as int) =~= self.words());
        }
        sum
    }

    /// The texts of the line as one string.
    pub fn to_text(&self) -> (text: String)
        ensures
            text@ == joined_text(self.words()),
    {
        let mut text = String::new();
        let mut i: usize = 0;
        proof {
            assert(self.words().take(0) =~= Seq::<Text<B>>::empty());
        }
        while i < self.inner.len()
            invariant
                i <= self.inner.len(),
                text@ == joined_text(self.words().take(i as int)),
            decreases self.inner.len() - i,
        {
            proof {
                assert(self.words().take(i + 1).drop_last() =~= self.words().take(i as int));
            }
            text.append(self.inner[i].as_str());
            i = i + 1;
        }
        proof {
            assert(self.words().take(i as int) =~= self.words());
        }
        text
    }

    /// Whether the line holds no byte of text.
    pub fn is_empty(&self) -> (r: bool)
        requires
            self.wf(),
        ensures
            r == (total_bytes(self.words()) == 0),
    {
        self.len() == 0
    }

    /// Display width.
    pub fn width(&self) -> (w: usize)
        requires
            self.wf(),
        ensures
            w == total_width(self.words()),
    {
        let mut sum: usize = 0;
        let mut i: usize = 0;
        proof {
            assert(self.words().take(0) =~= Seq::<Text<B>>::empty());
        }
        while i < self.inner.len()
            invariant
                i <= self.inner.len(),
                self.wf(),
                sum == total_width(self.words().take(i as int)),
            decreases self.inner.len() - i,
        {
            proof {
                assert(self.words().take(i + 1).drop_last() =~= self.words().take(i as int));
                lemma_totals_monotone(self.words(), i + 1);
            }
            sum = sum + self.inner[i].width();
            i = i + 1;
        }
        proof {
            assert(self.words().take(i as int) =~= self.words());
        }
        sum
    }

    /// Prints the texts from index `from` on.
    fn print_from(&self, from: usize, backend: &mut B)
        requires
            from <= self.words().len(),
        ensures
            final(backend).trace() == old(backend).trace() + print_all(
                self.words().skip(from as int),
            ),
            final(backend).style() == old(backend).style(),
    {
        let ghost start = backend.trace();
        let ghost target = print_all(self.words().skip(from as int));
        let ghost mut done: Seq<Op<B::Style, B::Color>> = Seq::empty();
        let mut i = from;
        proof {
            assert(start =~= start + done);
            assert(target =~= done + print_all(self.words().skip(i as int)));
        }
        while i < self.inner.len()
            invariant
                from <= i <= self.inner.len(),
                backend.trace() == start + done,
                backend.style() == old(backend).style(),
                target == done + print_all(self.words().skip(i as int)),
            decreases self.inner.len() - i,
        {
            let ghost rest = self.words().skip(i as int);
            self.inner[i].print(backend);
            proof {
                assert(rest[0] == self.words()[i as int]);
                assert(rest.drop_first() =~= self.words().skip(i + 1));
                let part = self.words()[i as int].print_ops();
                assert(backend.trace() =~= start + (done + part));
                assert(done + print_all(rest) =~= (done + part) + print_all(rest.drop_first()));
                done = done + part;
            }
            i = i + 1;
        }
        proof {
            assert(self.words().skip(i as int) =~= Seq::<Text<B>>::empty());
            assert(done + Seq::empty() =~= done);
        }
    }

    /// Prints the texts side by side.
    pub fn print(&self, backend: &mut B)
        ensures
            final(backend).trace() == old(backend).trace() + print_all(self.words()),
            final(backend).style() == old(backend).style(),
    {
        proof {
            assert(self.words().skip(0) =~= self.words());
        }
        self.print_from(0, backend);
    }

    /// Prints the texts in `width` columns: those that fit, and the start of
    /// the first that does not.
    pub fn print_truncated(&self, width: usize, backend: &mut B)
        requires
            self.wf(),
        ensures
            final(backend).trace() == old(backend).trace() + truncated_all(
                self.words(),
                width as int,
            ),
            final(backend).style() == old(backend).style(),
    {
        let ghost start = backend.trace();
        let ghost target = truncated_all(self.words(), width as int);
        let ghost mut done: Seq<Op<B::Style, B::Color>> = Seq::empty();
        let mut left = width;
        let mut i: usize = 0;
        proof {
            assert(self.words().skip(0) =~= self.words());
            assert(start =~= start + done);
            assert(target =~= done + truncated_all(self.words().skip(0), left as int));
        }
        while i < self.inner.len()
            invariant
                i <= self.inner.len(),
                self.wf(),
                backend.trace() == start + done,
                start == old(backend).trace(),
                backend.style() == old(backend).style(),
                target == done + truncated_all(self.words().skip(i as int), left as int),
                target == truncated_all(self.words(), width as int),
            decreases self.inner.len() - i,
        {
            let ghost rest = self.words().skip(i as int);
            proof {
                assert(rest[0] == self.words()[i as int]);
                assert(rest.drop_first() =~= self.words().skip(i + 1));
            }
            let text = &self.inner[i];
            if text.width() > left {
                text.print_truncated(left, backend);
                proof {
                    assert(backend.trace() =~= start + (done + truncated_all(rest, left as int)));
                }
                return ;
            }
            left -= text.width();
            text.print(backend);
            proof {
                let part = text.print_ops();
                assert(backend.trace() =~= start + (done + part));
                assert(done + (part + truncated_all(rest.drop_first(), left as int)) =~= (done
                    + part) + truncated_all(rest.drop_first(), left as int));
                done = done + part;
            }
            i = i + 1;
        }
        proof {
            assert(self.words().skip(i as int) =~= Seq::<Text<B>>::empty());
            assert(done + Seq::empty() =~= done);
        }
    }

    /// Prints the end of the line in `width` columns: the end of the first
    /// text that reaches into them, and the texts behind it.
    pub fn print_truncated_start(&self, width: usize, backend: &mut B)
        requires
            self.wf(),
            width <= total_width(self.words()),
        ensures
            final(backend).trace() == old(backend).trace() + truncated_start_all(
                self.words(),
                total_width(self.words()) - width,
            ),
            final(backend).style() == old(backend).style(),
    {
        let ghost start = backend.trace();
        let mut skipped = self.width() - width;
        let ghost target = truncated_start_all(self.words(), skipped as int);
        let mut i: usize = 0;
        proof {
            assert(self.words().skip(0) =~= self.words());
            assert(start =~= start + Seq::empty());
        }
        while i < self.inner.len()
            invariant
                i <= self.inner.len(),
                self.wf(),
                backend.trace() == start,
                start == old(backend).trace(),
                backend.style() == old(backend).style(),
                target == truncated_start_all(self.words().skip(i as int), skipped as int),
                target == truncated_start_all(
                    self.words(),
                    total_width(self.words()) - width,
                ),
            decreases self.inner.len() - i,
        {
            let ghost rest = self.words().skip(i as int);
            proof {
                assert(rest[0] == self.words()[i as int]);
                assert(rest.drop_first() =~= self.words().skip(i + 1));
            }
            let text = &self.inner[i];
            if text.width() > skipped {
                text.print_truncated_start(text.width() - skipped, backend);
                self.print_from(i + 1, backend);
                proof {
                    assert(backend.trace() =~= start + target);
                }
                return ;
            }
            skipped -= text.width();
            i = i + 1;
        }
        proof {
            assert(self.words().skip(i as int) =~= Seq::<Text<B>>::empty());
            assert(start =~= start + target);
        }
    }

    /// What `print_at` sends to the backend.
    pub open spec fn print_at_ops(&self, line: Line) -> Seq<Op<B::Style, B::Color>> {
        go(line) + at_all(self.words(), line.width as int)
    }

    /// Prints the texts into `line`: those that fit with padding behind
    /// them, or else cut where the line ends.
    pub fn print_at(&self, line: Line, backend: &mut B)
        requires
            self.wf(),
        ensures
            final(backend).trace() == old(backend).trace() + self.print_at_ops(line),
            final(backend).style() == old(backend).style(),
    {
        let Line { row, col, width } = line;
        let mut width = width;
        backend.go_to(row, col);
        let ghost start = backend.trace();
        let ghost target = at_all(self.words(), line.width as int);
        let ghost mut done: Seq<Op<B::Style, B::Color>> = Seq::empty();
        let mut i: usize = 0;
        proof {
            assert(self.words().skip(0) =~= self.words());
            assert(start =~= start + done);
            assert(target =~= done + at_all(self.words().skip(0), width as int));
        }
        while i < self.inner.len()
            invariant
                i <= self.inner.len(),
                self.wf(),
                backend.trace() == start + done,
                start == old(backend).trace() + go::<B::Style, B::Color>(line),
                backend.style() == old(backend).style(),
                target == done + at_all(self.words().skip(i as int), width as int),
                target == at_all(self.words(), line.width as int),
            decreases self.inner.len() - i,
        {
            let ghost rest = self.words().skip(i as int);
            proof {
                assert(rest[0] == self.words()[i as int]);
                assert(rest.drop_first() =~= self.words().skip(i + 1));
            }
            let text = &self.inner[i];
            if width < text.width() {
                text.print_truncated(width, backend);
                proof {
                    assert(backend.trace() =~= start + (done + at_all(rest, width as int)));
                    assert((old(backend).trace() + go::<B::Style, B::Color>(line)) + target
                        =~= old(backend).trace() + self.print_at_ops(line));
                }
                return ;
            }
            width -= text.width();
            text.print(backend);
            proof {
                let part = text.print_ops();
                assert(backend.trace() =~= start + (done + part));
                assert(done + (part + at_all(rest.drop_first(), width as int)) =~= (done + part)
                    + at_all(rest.drop_first(), width as int));
                done = done + part;
            }
            i = i + 1;
        }
        if width != 0 {
            backend.pad(width);
        }
        proof {
            assert(self.words().skip(i as int) =~= Seq::<Text<B>>::empty());
            assert(backend.trace() =~= start + (done + then_pad(Seq::empty(), width as int)));
            assert((old(backend).trace() + go::<B::Style, B::Color>(line)) + target =~= old(backend).trace() + self.print_at_ops(line));
        }
    }
}

impl<B: Backend> Default for StyledLine<B> {
    fn default() -> (line: Self)
        ensures
            line.words() == Seq::<Text<B>>::empty(),
    {
        Self { inner: Vec::new() }
    }
}

impl<B: Backend> From<Vec<Text<B>>> for StyledLine<B> {
    fn from(inner: Vec<Text<B>>) -> (line: Self) {
        Self { inner }
    }
}

impl<B: Backend> FromSpecImpl<Vec<Text<B>>> for StyledLine<B> {
    open spec fn obeys_from_spec() -> bool {
        true
    }

    closed spec fn from_spec(inner: Vec<Text<B>>) -> StyledLine<B> {
        StyledLine { inner }
    }
}

impl<B: Backend> From<String> for StyledLine<B> {
    fn from(text: String) -> (line: Self) {
        let mut inner = Vec::new();
        inner.push(Text::raw(text));
        Self { inner }
    }
}

impl<B: Backend> FromSpecImpl<String> for StyledLine<B> {
    open spec fn obeys_from_spec() -> bool {
        false
    }

    closed spec fn from_spec(text: String) -> StyledLine<B> {
        arbitrary()
    }
}

impl<B: Backend> From<(String, B::Style)> for StyledLine<B> {
    fn from(text: (String, B::Style)) -> (line: Self) {
        let mut inner = Vec::new();
        inner.push(Text::new(text.0, Some(text.1)));
        Self { inner }
    }
}

impl<B: Backend> FromSpecImpl<(String, B::Style)> for StyledLine<B> {
    open spec fn obeys_from_spec() -> bool {
        false
    }

    closed spec fn from_spec(text: (String, B::Style)) -> StyledLine<B> {
        arbitrary()
    }
}

/// The line that `From` makes of texts holds those texts.
pub proof fn lemma_from_texts<B: Backend>(inner: Vec<Text<B>>)
    ensures
        <StyledLine<B> as FromSpec<Vec<Text<B>>>>::from_spec(inner).words() == inner@,
{
}

} // verus!
