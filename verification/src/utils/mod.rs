//! UTF-8 and display-width safe operations on `str` and `String`.
//!
//! Every operation here takes positions as character indices or as display
//! widths and turns them into byte offsets itself, so that no result ever
//! cuts through the bytes of one character.
pub mod chunks;
pub mod classes;
pub mod decimal;
pub mod edit;
pub mod encoding;
pub mod scan;
pub mod width;

pub use chunks::{ByteChunks, CharLimitedWidths, StrChunks, WriteChunks};

use crate::utils::edit::{insert_char, remove_char, splice, spliced, split_off};
use crate::utils::encoding::{
    byte_len, char_count, char_from, lemma_boundary_index, lemma_index_at, lemma_offset_ends,
    lemma_single_byte_offsets, offset_of, offset_of_char, slice, str_len,
};
use crate::utils::width::{
    char_cols_of, cols, fit_len, fit_len_back, fit_prefix, fit_suffix, lemma_cols_step,
    str_width, unicode_str_width,
};
use vstd::prelude::*;

verus! {

/// Byte offset into UTF-8 text.
pub type Utf8Byte = usize;

/// Offset into UTF-16 text, in 16-bit units.
pub type Utf16Byte = usize;

/// Number of 16-bit units that `c` takes in UTF-16.
pub open spec fn utf16_len(c: char) -> nat {
    if c as u32 >= 0x10000 {
        2
    } else {
        1
    }
}

/// Number of 16-bit units that `s` takes in UTF-16.
pub open spec fn utf16_units(s: Seq<char>) -> nat
    decreases s.len(),
{
    if s.len() == 0 {
        0
    } else {
        utf16_units(s.drop_last()) + utf16_len(s.last())
    }
}

/// The smaller of two lengths.
pub open spec fn at_most(a: int, b: int) -> int {
    if a <= b {
        a
    } else {
        b
    }
}

/// Operations on string slices that never split a character.
pub trait UTFSafe {
    /// The characters of the string.
    spec fn utf_view(&self) -> Seq<char>;

    /// The longest prefix that fits into `width` columns, and the columns left over.
    fn truncate_width(&self, width: usize) -> (r: (usize, &str))
        ensures
            r.1@ == self.utf_view().take(fit_len(self.utf_view(), width as nat) as int),
            r.0 == width - cols(r.1@),
    ;

    /// The longest suffix that fits into `width` columns, and the columns left over.
    fn truncate_width_start(&self, width: usize) -> (r: (usize, &str))
        ensures
            r.1@ == self.utf_view().skip(
                self.utf_view().len() - fit_len_back(self.utf_view(), width as nat),
            ),
            r.0 == width - cols(r.1@),
    ;

    /// The longest prefix that fits into `width` columns if the whole takes
    /// more, else the columns that the whole takes.
    fn truncate_if_wider(&self, width: usize) -> (r: Result<&str, usize>)
        ensures
            cols(self.utf_view()) > width ==> r is Ok && r->Ok_0@ == self.utf_view().take(
                fit_len(self.utf_view(), width as nat) as int,
            ),
            cols(self.utf_view()) <= width ==> r == Err::<&str, usize>(
                cols(self.utf_view()) as usize,
            ),
    ;

    /// The longest suffix that fits into `width` columns if the whole takes
    /// more, else the columns that the whole takes.
    fn truncate_if_wider_start(&self, width: usize) -> (r: Result<&str, usize>)
        ensures
            cols(self.utf_view()) > width ==> r is Ok && r->Ok_0@ == self.utf_view().skip(
                self.utf_view().len() - fit_len_back(self.utf_view(), width as nat),
            ),
            cols(self.utf_view()) <= width ==> r == Err::<&str, usize>(
                cols(self.utf_view()) as usize,
            ),
    ;

    /// Splits behind the longest prefix that fits into `width` columns; there
    /// is a second part exactly if the whole does not fit.
    fn width_split(&self, width: usize) -> (r: (&str, Option<&str>))
        ensures
            r.0@ == self.utf_view().take(fit_len(self.utf_view(), width as nat) as int),
            r.1 is Some <==> cols(self.utf_view()) > width,
            r.1 is Some ==> r.1->0@ == self.utf_view().skip(
                fit_len(self.utf_view(), width as nat) as int,
            ),
    ;

    /// Display width of the whole string.
    fn width(&self) -> (w: usize)
        ensures
            w == unicode_str_width(self.utf_view()),
    ;

    /// Columns that the first `at` characters take, each counted on its own.
    fn width_at(&self, at: usize) -> (w: usize)
        ensures
            w == cols(self.utf_view().take(at_most(at as int, self.utf_view().len() as int))),
    ;

    /// Number of characters.
    fn char_len(&self) -> (n: usize)
        ensures
            n == self.utf_view().len(),
    ;

    /// Length in UTF-16 units.
    fn utf16_len(&self) -> (n: usize)
        ensures
            n == utf16_units(self.utf_view()),
    ;

    /// Splits behind the first `mid` characters.
    fn split_at_char(&self, mid: usize) -> (r: (&str, &str))
        requires
            mid <= self.utf_view().len(),
        ensures
            r.0@ == self.utf_view().take(mid as int),
            r.1@ == self.utf_view().skip(mid as int),
    ;

    /// Splits behind the first `mid` characters; `utf8_len` is the number of
    /// characters, counted before, which spares the search in ASCII text.
    fn cached_split_at_char(&self, mid: usize, utf8_len: usize) -> (r: (&str, &str))
        requires
            mid <= self.utf_view().len(),
            utf8_len == self.utf_view().len(),
        ensures
            r.0@ == self.utf_view().take(mid as int),
            r.1@ == self.utf_view().skip(mid as int),
    ;

    /// The characters from index `from` up to `to`.
    fn unchecked_get_char_range(&self, from: usize, to: usize) -> (r: &str)
        requires
            from <= to <= self.utf_view().len(),
        ensures
            r@ == self.utf_view().subrange(from as int, to as int),
    ;

    /// What follows the first `from` characters.
    fn unchecked_get_from_char(&self, from: usize) -> (r: &str)
        requires
            from <= self.utf_view().len(),
        ensures
            r@ == self.utf_view().skip(from as int),
    ;

    /// The first `to` characters.
    fn unchecked_get_to_char(&self, to: usize) -> (r: &str)
        requires
            to <= self.utf_view().len(),
        ensures
            r@ == self.utf_view().take(to as int),
    ;

    /// The characters from index `from` up to `to`, if there are that many.
    fn get_char_range(&self, from_char: usize, to_char: usize) -> (r: Option<&str>)
        ensures
            r is Some <==> from_char <= to_char <= self.utf_view().len(),
            r is Some ==> r->0@ == self.utf_view().subrange(from_char as int, to_char as int),
    ;

    /// What follows the first `from_char` characters, if there are that many.
    fn get_from_char(&self, from_char: usize) -> (r: Option<&str>)
        ensures
            r is Some <==> from_char <= self.utf_view().len(),
            r is Some ==> r->0@ == self.utf_view().skip(from_char as int),
    ;

    /// The first `to_char` characters, if there are that many.
    fn get_to_char(&self, to_char: usize) -> (r: Option<&str>)
        ensures
            r is Some <==> to_char <= self.utf_view().len(),
            r is Some ==> r->0@ == self.utf_view().take(to_char as int),
    ;
}

/// Number of 16-bit units that `c` takes in UTF-16, in executable code.
pub fn len_utf16(c: char) -> (n: usize)
    ensures
        n == utf16_len(c),
{
    let code: u32 = c as u32;
    if code >= 0x10000 {
        2
    } else {
        1
    }
}

/// Byte offset behind the first `idx` characters of `text`.
fn prev_char_bytes_end(text: &str, idx: usize) -> (r: Utf8Byte)
    requires
        idx <= text@.len(),
    ensures
        r == offset_of(text@, idx as int),
        r <= byte_len(text@),
{
    proof {
        lemma_index_at(text@, idx as int);
        lemma_boundary_index(text@, offset_of(text@, idx as int) as int);
    }
    match offset_of_char(text, idx) {
        Some(at) => at,
        None => unreached(),
    }
}

/// Byte offset behind the first `idx` characters of `text`, if it has that many.
fn maybe_prev_char_bytes_end(text: &str, idx: usize) -> (r: Option<usize>)
    ensures
        r == if idx <= text@.len() {
            Some(offset_of(text@, idx as int) as usize)
        } else {
            None
        },
        idx <= text@.len() ==> offset_of(text@, idx as int) <= byte_len(text@) <= usize::MAX,
{
    // the text was measured: its length fits a `usize`
    let _ = str_len(text);
    proof {
        if idx <= text@.len() {
            lemma_index_at(text@, idx as int);
            lemma_boundary_index(text@, offset_of(text@, idx as int) as int);
        }
    }
    offset_of_char(text, idx)
}

/// Byte offset and UTF-16 offset behind the first `idx` characters of `text`.
fn prev_char_utf8_and_utf16(text: &str, idx: usize) -> (r: (Utf8Byte, Utf16Byte))
    requires
        idx <= text@.len(),
    ensures
        r.0 == offset_of(text@, idx as int),
        r.1 == utf16_units(text@.take(idx as int)),
        r.0 <= byte_len(text@),
{
    let n = str_len(text);
    let mut utf8_byte: usize = 0;
    let mut utf16_byte: usize = 0;
    let mut k: usize = 0;
    proof {
        lemma_offset_ends(text@);
        assert(text@.take(0) =~= Seq::<char>::empty());
    }
    while k < idx
        invariant
            k <= idx <= text@.len(),
            n == byte_len(text@),
            utf8_byte == offset_of(text@, k as int),
            utf16_byte == utf16_units(text@.take(k as int)),
            utf16_byte <= utf8_byte <= n,
        decreases idx - k,
    {
        proof {
            lemma_index_at(text@, k as int);
            lemma_index_at(text@, text@.len() as int);
            lemma_offset_ends(text@);
            crate::utils::encoding::lemma_offset_step(text@, k as int);
            assert(text@.take(k + 1).drop_last() =~= text@.take(k as int));
        }
        let (ch, next) = char_from(text, utf8_byte);
        utf16_byte = utf16_byte + len_utf16(ch);
        utf8_byte = next;
        k = k + 1;
    }
    (utf8_byte, utf16_byte)
}

impl UTFSafe for str {
    open spec fn utf_view(&self) -> Seq<char> {
        self@
    }

    fn truncate_width(&self, width: usize) -> (r: (usize, &str)) {
        let (end, used) = fit_prefix(self, width);
        proof {
            lemma_offset_ends(self@);
            lemma_index_at(self@, 0);
        }
        (width - used, slice(self, 0, end))
    }

    fn truncate_width_start(&self, width: usize) -> (r: (usize, &str)) {
        let (start, used) = fit_suffix(self, width);
        let n = str_len(self);
        proof {
            lemma_offset_ends(self@);
            lemma_index_at(self@, self@.len() as int);
        }
        (width - used, slice(self, start, n))
    }

    fn truncate_if_wider(&self, width: usize) -> (r: Result<&str, usize>) {
        let (end, used) = fit_prefix(self, width);
        proof {
            lemma_offset_ends(self@);
            lemma_index_at(self@, 0);
            lemma_index_at(self@, self@.len() as int);
            assert(self@.take(self@.len() as int) =~= self@);
        }
        if end < str_len(self) {
            Ok(slice(self, 0, end))
        } else {
            Err(used)
        }
    }

    fn truncate_if_wider_start(&self, width: usize) -> (r: Result<&str, usize>) {
        let (start, used) = fit_suffix(self, width);
        let n = str_len(self);
        proof {
            lemma_offset_ends(self@);
            lemma_index_at(self@, 0);
            lemma_index_at(self@, self@.len() as int);
            assert(self@.skip(0) =~= self@);
        }
        if start > 0 {
            Ok(slice(self, start, n))
        } else {
            Err(used)
        }
    }

    fn width_split(&self, width: usize) -> (r: (&str, Option<&str>)) {
        let (end, _) = fit_prefix(self, width);
        let n = str_len(self);
        proof {
            lemma_offset_ends(self@);
            lemma_index_at(self@, 0);
            lemma_index_at(self@, self@.len() as int);
            assert(self@.take(self@.len() as int) =~= self@);
        }
        if end < n {
            (slice(self, 0, end), Some(slice(self, end, n)))
        } else {
            (self, None)
        }
    }

    fn width(&self) -> (w: usize) {
        str_width(self)
    }

    fn width_at(&self, at: usize) -> (w: usize) {
        let n = str_len(self);
        let mut end: usize = 0;
        let mut sum: usize = 0;
        let mut k: usize = 0;
        proof {
            lemma_offset_ends(self@);
            assert(self@.take(0) =~= Seq::<char>::empty());
        }
        while k < at && end < n
            invariant
                n == byte_len(self@),
                k <= at,
                k <= self@.len(),
                end == offset_of(self@, k as int),
                end <= n,
                sum == cols(self@.take(k as int)),
                sum <= end,
            decreases n - end,
        {
            proof {
                lemma_index_at(self@, k as int);
            }
            let (c, next) = char_from(self, end);
            proof {
                lemma_cols_step(self@, k as int);
            }
            sum = sum + char_cols_of(c);
            end = next;
            k = k + 1;
        }
        proof {
            lemma_index_at(self@, k as int);
            lemma_index_at(self@, self@.len() as int);
        }
        sum
    }

    fn char_len(&self) -> (n: usize) {
        char_count(self)
    }

    fn utf16_len(&self) -> (n: usize) {
        let count = char_count(self);
        let r = prev_char_utf8_and_utf16(self, count);
        proof {
            assert(self@.take(self@.len() as int) =~= self@);
        }
        r.1
    }

    fn split_at_char(&self, mid: usize) -> (r: (&str, &str)) {
        let at = prev_char_bytes_end(self, mid);
        let n = str_len(self);
        proof {
            lemma_offset_ends(self@);
            lemma_index_at(self@, 0);
            lemma_index_at(self@, mid as int);
            lemma_index_at(self@, self@.len() as int);
        }
        (slice(self, 0, at), slice(self, at, n))
    }

    fn cached_split_at_char(&self, mid: usize, utf8_len: usize) -> (r: (&str, &str)) {
        let n = str_len(self);
        if n == utf8_len {
            proof {
                lemma_single_byte_offsets(self@, mid as int);
                lemma_offset_ends(self@);
                lemma_index_at(self@, 0);
                lemma_index_at(self@, mid as int);
                lemma_index_at(self@, self@.len() as int);
            }
            return (slice(self, 0, mid), slice(self, mid, n));
        }
        self.split_at_char(mid)
    }

    fn unchecked_get_char_range(&self, from: usize, to: usize) -> (r: &str) {
        let start = prev_char_bytes_end(self, from);
        let end = prev_char_bytes_end(self, to);
        proof {
            lemma_index_at(self@, from as int);
            lemma_index_at(self@, to as int);
            crate::utils::encoding::lemma_offset_monotone(self@, from as int, to as int);
        }
        slice(self, start, end)
    }

    fn unchecked_get_from_char(&self, from: usize) -> (r: &str) {
        let start = prev_char_bytes_end(self, from);
        let n = str_len(self);
        proof {
            lemma_offset_ends(self@);
            lemma_index_at(self@, from as int);
            lemma_index_at(self@, self@.len() as int);
        }
        slice(self, start, n)
    }

    fn unchecked_get_to_char(&self, to: usize) -> (r: &str) {
        let end = prev_char_bytes_end(self, to);
        proof {
            lemma_offset_ends(self@);
            lemma_index_at(self@, 0);
            lemma_index_at(self@, to as int);
        }
        slice(self, 0, end)
    }

    fn get_char_range(&self, from_char: usize, to_char: usize) -> (r: Option<&str>) {
        if from_char > to_char {
            return None;
        }
        match maybe_prev_char_bytes_end(self, to_char) {
            Some(_) => Some(self.unchecked_get_char_range(from_char, to_char)),
            None => None,
        }
    }

    fn get_from_char(&self, from_char: usize) -> (r: Option<&str>) {
        match maybe_prev_char_bytes_end(self, from_char) {
            Some(_) => Some(self.unchecked_get_from_char(from_char)),
            None => None,
        }
    }

    fn get_to_char(&self, to_char: usize) -> (r: Option<&str>) {
        match maybe_prev_char_bytes_end(self, to_char) {
            Some(_) => Some(self.unchecked_get_to_char(to_char)),
            None => None,
        }
    }
}


impl UTFSafe for String {
    open spec fn utf_view(&self) -> Seq<char> {
        self@
    }

    fn truncate_width(&self, width: usize) -> (r: (usize, &str)) {
        self.as_str().truncate_width(width)
    }

    fn truncate_width_start(&self, width: usize) -> (r: (usize, &str)) {
        self.as_str().truncate_width_start(width)
    }

    fn truncate_if_wider(&self, width: usize) -> (r: Result<&str, usize>) {
        self.as_str().truncate_if_wider(width)
    }

    fn truncate_if_wider_start(&self, width: usize) -> (r: Result<&str, usize>) {
        self.as_str().truncate_if_wider_start(width)
    }

    fn width_split(&self, width: usize) -> (r: (&str, Option<&str>)) {
        self.as_str().width_split(width)
    }

    fn width(&self) -> (w: usize) {
        self.as_str().width()
    }

    fn width_at(&self, at: usize) -> (w: usize) {
        self.as_str().width_at(at)
    }

    fn char_len(&self) -> (n: usize) {
        self.as_str().char_len()
    }

    fn utf16_len(&self) -> (n: usize) {
        self.as_str().utf16_len()
    }

    fn split_at_char(&self, mid: usize) -> (r: (&str, &str)) {
        self.as_str().split_at_char(mid)
    }

    fn cached_split_at_char(&self, mid: usize, utf8_len: usize) -> (r: (&str, &str)) {
        self.as_str().cached_split_at_char(mid, utf8_len)
    }

    fn unchecked_get_char_range(&self, from: usize, to: usize) -> (r: &str) {
        self.as_str().unchecked_get_char_range(from, to)
    }

    fn unchecked_get_from_char(&self, from: usize) -> (r: &str) {
        self.as_str().unchecked_get_from_char(from)
    }

    fn unchecked_get_to_char(&self, to: usize) -> (r: &str) {
        self.as_str().unchecked_get_to_char(to)
    }

    fn get_char_range(&self, from_char: usize, to_char: usize) -> (r: Option<&str>) {
        self.as_str().get_char_range(from_char, to_char)
    }

    fn get_from_char(&self, from_char: usize) -> (r: Option<&str>) {
        self.as_str().get_from_char(from_char)
    }

    fn get_to_char(&self, to_char: usize) -> (r: Option<&str>) {
        self.as_str().get_to_char(to_char)
    }
}

/// Edits of a `String` at positions given as character indices.
pub trait UTFSafeStringExt: Sized {
    /// The characters of the string.
    spec fn content(&self) -> Seq<char>;

    /// Inserts `ch` so that it becomes the character with index `idx`.
    fn insert_at_char(&mut self, idx: usize, ch: char)
        requires
            idx <= old(self).content().len(),
        ensures
            final(self).content() == old(self).content().insert(idx as int, ch),
    ;

    /// Inserts `ch` at character index `idx` and returns the byte offset where it went.
    fn insert_at_char_with_utf8_idx(&mut self, idx: usize, ch: char) -> (r: Utf8Byte)
        requires
            idx <= old(self).content().len(),
        ensures
            final(self).content() == old(self).content().insert(idx as int, ch),
            r == offset_of(old(self).content(), idx as int),
    ;

    /// Inserts `ch` at character index `idx` and returns the UTF-16 offset where it went.
    fn insert_at_char_with_utf16_idx(&mut self, idx: usize, ch: char) -> (r: Utf16Byte)
        requires
            idx <= old(self).content().len(),
        ensures
            final(self).content() == old(self).content().insert(idx as int, ch),
            r == utf16_units(old(self).content().take(idx as int)),
    ;

    /// Inserts `string` in front of the character with index `idx`.
    fn insert_str_at_char(&mut self, idx: usize, string: &str)
        requires
            idx <= old(self).content().len(),
        ensures
            final(self).content() == spliced(old(self).content(), idx as int, idx as int, string@),
    ;

    /// Inserts `string` at character index `idx` and returns the byte offset where it went.
    fn insert_str_at_char_with_utf8_idx(&mut self, idx: usize, string: &str) -> (r: Utf8Byte)
        requires
            idx <= old(self).content().len(),
        ensures
            final(self).content() == spliced(old(self).content(), idx as int, idx as int, string@),
            r == offset_of(old(self).content(), idx as int),
    ;

    /// Inserts `string` at character index `idx` and returns the UTF-16 offset where it went.
    fn insert_str_at_char_with_utf16_idx(&mut self, idx: usize, string: &str) -> (r: Utf16Byte)
        requires
            idx <= old(self).content().len(),
        ensures
            final(self).content() == spliced(old(self).content(), idx as int, idx as int, string@),
            r == utf16_units(old(self).content().take(idx as int)),
    ;

    /// Removes and returns the character with index `idx`.
    fn remove_at_char(&mut self, idx: usize) -> (ch: char)
        requires
            idx < old(self).content().len(),
        ensures
            ch == old(self).content()[idx as int],
            final(self).content() == old(self).content().remove(idx as int),
    ;

    /// Removes the character with index `idx`; returns the byte offset it had, and the character.
    fn remove_at_char_with_utf8_idx(&mut self, idx: usize) -> (r: (Utf8Byte, char))
        requires
            idx < old(self).content().len(),
        ensures
            r.1 == old(self).content()[idx as int],
            r.0 == offset_of(old(self).content(), idx as int),
            final(self).content() == old(self).content().remove(idx as int),
    ;

    /// Removes the character with index `idx`; returns the UTF-16 offset it had, and the character.
    fn remove_at_char_with_utf16_idx(&mut self, idx: usize) -> (r: (Utf16Byte, char))
        requires
            idx < old(self).content().len(),
        ensures
            r.1 == old(self).content()[idx as int],
            r.0 == utf16_units(old(self).content().take(idx as int)),
            final(self).content() == old(self).content().remove(idx as int),
    ;

    /// Replaces the characters with the indices in `range` by `string`.
    fn replace_char_range(&mut self, range: core::ops::Range<usize>, string: &str)
        requires
            range.start <= range.end <= old(self).content().len(),
        ensures
            final(self).content() == spliced(
                old(self).content(),
                range.start as int,
                range.end as int,
                string@,
            ),
    ;

    /// Replaces the first `to` characters by `string`.
    fn replace_till_char(&mut self, to: usize, string: &str)
        requires
            to <= old(self).content().len(),
        ensures
            final(self).content() == string@ + old(self).content().skip(to as int),
    ;

    /// Replaces what follows the first `from` characters by `string`.
    fn replace_from_char(&mut self, from: usize, string: &str)
        requires
            from <= old(self).content().len(),
        ensures
            final(self).content() == old(self).content().take(from as int) + string@,
    ;

    /// Keeps the first `at` characters and returns the rest.
    fn split_off_at_char(&mut self, at: usize) -> (rest: Self)
        requires
            at <= old(self).content().len(),
        ensures
            final(self).content() == old(self).content().take(at as int),
            rest.content() == old(self).content().skip(at as int),
    ;
}

impl UTFSafeStringExt for String {
    open spec fn content(&self) -> Seq<char> {
        self@
    }

    fn insert_at_char(&mut self, idx: usize, ch: char) {
        let at = prev_char_bytes_end(self.as_str(), idx);
        proof {
            lemma_index_at(self@, idx as int);
        }
        insert_char(self, at, ch);
    }

    fn insert_at_char_with_utf8_idx(&mut self, idx: usize, ch: char) -> (r: Utf8Byte) {
        let byte_idx = prev_char_bytes_end(self.as_str(), idx);
        proof {
            lemma_index_at(self@, idx as int);
        }
        insert_char(self, byte_idx, ch);
        byte_idx
    }

    fn insert_at_char_with_utf16_idx(&mut self, idx: usize, ch: char) -> (r: Utf16Byte) {
        let (byte_idx, utf16_byte) = prev_char_utf8_and_utf16(self.as_str(), idx);
        proof {
            lemma_index_at(self@, idx as int);
        }
        insert_char(self, byte_idx, ch);
        utf16_byte
    }

    fn insert_str_at_char(&mut self, idx: usize, string: &str) {
        let at = prev_char_bytes_end(self.as_str(), idx);
        proof {
            lemma_index_at(self@, idx as int);
        }
        splice(self, at, at, string);
    }

    fn insert_str_at_char_with_utf8_idx(&mut self, idx: usize, string: &str) -> (r: Utf8Byte) {
        let byte_idx = prev_char_bytes_end(self.as_str(), idx);
        proof {
            lemma_index_at(self@, idx as int);
        }
        splice(self, byte_idx, byte_idx, string);
        byte_idx
    }

    fn insert_str_at_char_with_utf16_idx(&mut self, idx: usize, string: &str) -> (r: Utf16Byte) {
        let (byte_idx, utf16_byte) = prev_char_utf8_and_utf16(self.as_str(), idx);
        proof {
            lemma_index_at(self@, idx as int);
        }
        splice(self, byte_idx, byte_idx, string);
        utf16_byte
    }

    fn remove_at_char(&mut self, idx: usize) -> (ch: char) {
        let at = prev_char_bytes_end(self.as_str(), idx);
        proof {
            lemma_index_at(self@, idx as int);
            lemma_offset_ends(self@);
            crate::utils::encoding::lemma_offset_step(self@, idx as int);
        }
        remove_char(self, at)
    }

    fn remove_at_char_with_utf8_idx(&mut self, idx: usize) -> (r: (Utf8Byte, char)) {
        let byte_idx = prev_char_bytes_end(self.as_str(), idx);
        proof {
            lemma_index_at(self@, idx as int);
            lemma_offset_ends(self@);
            crate::utils::encoding::lemma_offset_step(self@, idx as int);
        }
        (byte_idx, remove_char(self, byte_idx))
    }

    fn remove_at_char_with_utf16_idx(&mut self, idx: usize) -> (r: (Utf16Byte, char)) {
        let (byte_idx, utf16_byte) = prev_char_utf8_and_utf16(self.as_str(), idx);
        proof {
            lemma_index_at(self@, idx as int);
            lemma_offset_ends(self@);
            crate::utils::encoding::lemma_offset_step(self@, idx as int);
        }
        (utf16_byte, remove_char(self, byte_idx))
    }

    fn replace_char_range(&mut self, range: core::ops::Range<usize>, string: &str) {
        let start = prev_char_bytes_end(self.as_str(), range.start);
        let end = prev_char_bytes_end(self.as_str(), range.end);
        proof {
            lemma_index_at(self@, range.start as int);
            lemma_index_at(self@, range.end as int);
            crate::utils::encoding::lemma_offset_monotone(
                self@,
                range.start as int,
                range.end as int,
            );
        }
        splice(self, start, end, string);
    }

    fn replace_till_char(&mut self, to: usize, string: &str) {
        let end = prev_char_bytes_end(self.as_str(), to);
        let ghost before = self@;
        proof {
            lemma_offset_ends(self@);
            lemma_index_at(self@, 0);
            lemma_index_at(self@, to as int);
        }
        splice(self, 0, end, string);
        proof {
            assert(before.take(0) =~= Seq::<char>::empty());
            assert(self@ =~= string@ + before.skip(to as int));
        }
    }

    fn replace_from_char(&mut self, from: usize, string: &str) {
        let start = prev_char_bytes_end(self.as_str(), from);
        let n = str_len(self.as_str());
        let ghost before = self@;
        proof {
            lemma_offset_ends(self@);
            lemma_index_at(self@, from as int);
            lemma_index_at(self@, self@.len() as int);
        }
        splice(self, start, n, string);
        proof {
            assert(before.skip(before.len() as int) =~= Seq::<char>::empty());
            assert(self@ =~= before.take(from as int) + string@);
        }
    }

    fn split_off_at_char(&mut self, at: usize) -> (rest: Self) {
        let byte = prev_char_bytes_end(self.as_str(), at);
        proof {
            lemma_index_at(self@, at as int);
        }
        split_off(self, byte)
    }
}

} // verus!
