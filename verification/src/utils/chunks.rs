//! Width-limited pieces of a string, for wrapping text over several lines.
//!
//! A character that is wider than the limit is not split: a placeholder of
//! width 1 stands in for it.
use crate::utils::encoding::{
    byte_len, char_from, index_at, lemma_boundary_index, lemma_byte_len_bounds, lemma_index_at,
    lemma_offset_ends, lemma_offset_monotone, lemma_single_byte_offsets, offset_of, on_boundary,
    slice, str_len,
};
use crate::utils::width::{char_width, cols, fit_len, fit_prefix, unicode_char_width};
use vstd::prelude::*;

verus! {

/// Stands in for a character that is wider than a whole chunk.
pub const PLACEHOLDER: char = '⚠';

/// The placeholder as text.
pub const PLACEHOLDER_TEXT: &'static str = "⚠";

/// A piece of text and the columns it takes.
#[derive(Debug, Clone, Copy, PartialEq)]
pub struct StrChunks<'a> {
    pub width: usize,
    pub text: &'a str,
}

/// Cuts a text into pieces of at most `width` columns.
pub struct WriteChunks<'a> {
    text: &'a str,
    at: usize,
    width: usize,
}

impl<'a> WriteChunks<'a> {
    /// The text that is not handed out yet.
    pub closed spec fn rest(&self) -> Seq<char> {
        self.text@.skip(index_at(self.text@, self.at as int))
    }

    /// The greatest width of a piece.
    pub closed spec fn limit(&self) -> usize {
        self.width
    }

    /// The position in the text is a character boundary.
    pub closed spec fn wf(&self) -> bool {
        on_boundary(self.text@, self.at as int)
    }

    /// Pieces of `text` of at most `width` columns.
    pub fn new(text: &'a str, width: usize) -> (chunks: Self)
        ensures
            chunks.wf(),
            chunks.rest() == text@,
            chunks.limit() == width,
    {
        proof {
            lemma_offset_ends(text@);
            lemma_index_at(text@, 0);
            assert(text@.skip(0) =~= text@);
        }
        Self { text, at: 0, width }
    }

    /// The next piece: the longest start of the rest that fits into the
    /// limit, or the placeholder in place of a first character that is too
    /// wide. `None` at the end of the text, and with a limit of 0.
    pub fn next(&mut self) -> (chunk: Option<StrChunks<'a>>)
        requires
            old(self).wf(),
        ensures
            final(self).wf(),
            final(self).limit() == old(self).limit(),
            old(self).rest().len() == 0 || old(self).limit() == 0 ==> chunk is None && final(self).rest() == old(self).rest(),
            chunk is Some ==> chunk->0.width <= old(self).limit(),
            old(self).rest().len() > 0 && old(self).limit() > 0 ==> chunk is Some && ({
                let fit = fit_len(old(self).rest(), old(self).limit() as nat) as int;
                if fit > 0 {
                    &&& chunk->0.text@ == old(self).rest().take(fit)
                    &&& chunk->0.width == cols(chunk->0.text@)
                    &&& final(self).rest() == old(self).rest().skip(fit)
                } else {
                    &&& chunk->0.text@ == PLACEHOLDER_TEXT@
                    &&& chunk->0.width == 1
                    &&& final(self).rest() == old(self).rest().skip(1)
                }
            }),
    {
        let n = str_len(self.text);
        let ghost k = index_at(self.text@, self.at as int);
        proof {
            lemma_boundary_index(self.text@, self.at as int);
            lemma_offset_ends(self.text@);
            lemma_index_at(self.text@, self.text@.len() as int);
            if self.at == n && k < self.text@.len() {
                lemma_offset_monotone(self.text@, k, self.text@.len() as int);
            }
        }
        if self.at == n || self.width == 0 {
            return None;
        }
        let rest = slice(self.text, self.at, n);
        let (end, used) = fit_prefix(rest, self.width);
        let ghost fit = fit_len(rest@, self.width as nat) as int;
        if end == 0 {
            proof {
                lemma_index_at(rest@, 0);
                lemma_offset_ends(rest@);
                lemma_index_at(self.text@, k + 1);
                assert(self.text@.skip(k).skip(1) =~= self.text@.skip(k + 1));
            }
            let (_, next) = char_from(self.text, self.at);
            self.at = next;
            return Some(StrChunks { width: 1, text: PLACEHOLDER_TEXT });
        }
        proof {
            lemma_offset_ends(rest@);
            lemma_index_at(rest@, 0);
            lemma_index_at(rest@, fit);
            assert(fit > 0);
            assert(self.text@.take(k + fit) =~= self.text@.take(k) + rest@.take(fit));
            crate::utils::encoding::lemma_byte_len_concat(self.text@.take(k), rest@.take(fit));
            lemma_index_at(self.text@, k + fit);
            assert(self.text@.skip(k).skip(fit) =~= self.text@.skip(k + fit));
        }
        let text = slice(rest, 0, end);
        self.at = self.at + end;
        Some(StrChunks { width: used, text })
    }
}

/// Cuts a text of one-byte characters into pieces of `width` characters.
pub struct ByteChunks<'a> {
    text: &'a str,
    at: usize,
    width: usize,
}

impl<'a> ByteChunks<'a> {
    /// The text that is not handed out yet.
    pub closed spec fn rest(&self) -> Seq<char> {
        self.text@.skip(self.at as int)
    }

    /// The length of a piece.
    pub closed spec fn limit(&self) -> usize {
        self.width
    }

    /// Every character of the text takes one byte, and the position lies in the text.
    pub closed spec fn wf(&self) -> bool {
        byte_len(self.text@) == self.text@.len() && self.at <= self.text@.len()
    }

    /// Pieces of `text` of `width` characters; `text` holds one-byte characters only.
    pub fn new(text: &'a str, width: usize) -> (chunks: Self)
        requires
            byte_len(text@) == text@.len(),
        ensures
            chunks.wf(),
            chunks.rest() == text@,
            chunks.limit() == width,
    {
        proof {
            assert(text@.skip(0) =~= text@);
        }
        Self { text, at: 0, width }
    }

    /// The next piece: the first `width` characters of the rest, or all
    /// of it if it is shorter. `None` at the end of the text, and with a
    /// length of 0.
    pub fn next(&mut self) -> (chunk: Option<StrChunks<'a>>)
        requires
            old(self).wf(),
        ensures
            final(self).wf(),
            final(self).limit() == old(self).limit(),
            old(self).rest().len() == 0 || old(self).limit() == 0 ==> chunk is None && final(self).rest() == old(self).rest(),
            old(self).rest().len() > 0 && old(self).limit() > 0 ==> chunk is Some && ({
                let take = if old(self).limit() < old(self).rest().len() {
                    old(self).limit() as int
                } else {
                    old(self).rest().len() as int
                };
                &&& chunk->0.text@ == old(self).rest().take(take)
                &&& chunk->0.width == take
                &&& final(self).rest() == old(self).rest().skip(take)
            }),
    {
        let n = str_len(self.text);
        if self.at == n || self.width == 0 {
            return None;
        }
        let end = if self.width < n - self.at {
            self.at + self.width
        } else {
            n
        };
        proof {
            lemma_single_byte_offsets(self.text@, self.at as int);
            lemma_single_byte_offsets(self.text@, end as int);
            lemma_index_at(self.text@, self.at as int);
            lemma_index_at(self.text@, end as int);
            assert(self.text@.subrange(self.at as int, end as int) =~= self.text@.skip(
                self.at as int,
            ).take(end - self.at));
            assert(self.text@.skip(self.at as int).skip(end - self.at) =~= self.text@.skip(
                end as int,
            ));
        }
        let text = slice(self.text, self.at, end);
        let width = end - self.at;
        self.at = end;
        Some(StrChunks { width, text })
    }
}

/// Walks the characters of a text that show on the screen, each with its width.
pub struct CharLimitedWidths<'a> {
    text: &'a str,
    at: usize,
    limit: usize,
}

/// What the walk yields for `c` under `limit`: nothing for a control
/// character, the placeholder for a character that is too wide.
pub open spec fn limited(c: char, limit: usize) -> Option<(char, usize)> {
    match unicode_char_width(c) {
        Some(w) => if w > limit {
            Some((PLACEHOLDER, 1usize))
        } else {
            Some((c, w))
        },
        None => None,
    }
}

/// Number of control characters at the start of `s`.
pub open spec fn controls(s: Seq<char>) -> int
    decreases s.len(),
{
    if s.len() > 0 && unicode_char_width(s[0]) is None {
        1 + controls(s.drop_first())
    } else {
        0
    }
}

/// No more control characters stand at the start of a text than it has characters.
pub proof fn lemma_controls_bounds(s: Seq<char>)
    ensures
        0 <= controls(s) <= s.len(),
    decreases s.len(),
{
    if s.len() > 0 && unicode_char_width(s[0]) is None {
        lemma_controls_bounds(s.drop_first());
    }
}

impl<'a> CharLimitedWidths<'a> {
    /// The text that is not walked yet.
    pub closed spec fn rest(&self) -> Seq<char> {
        self.text@.skip(index_at(self.text@, self.at as int))
    }

    /// The greatest width that a character is shown with.
    pub closed spec fn limit(&self) -> usize {
        self.limit
    }

    /// The position in the text is a character boundary.
    pub closed spec fn wf(&self) -> bool {
        on_boundary(self.text@, self.at as int)
    }

    /// The characters of `text`, none wider than `limit`.
    pub fn new(text: &'a str, limit: usize) -> (chars: Self)
        ensures
            chars.wf(),
            chars.rest() == text@,
            chars.limit() == limit,
    {
        proof {
            lemma_offset_ends(text@);
            lemma_index_at(text@, 0);
            assert(text@.skip(0) =~= text@);
        }
        Self { text, at: 0, limit }
    }

    /// The next character that is not a control character, as text, with its
    /// width; the placeholder with width 1 if it is wider than the limit.
    pub fn next_str(&mut self) -> (item: Option<(&'a str, usize)>)
        requires
            old(self).wf(),
        ensures
            final(self).wf(),
            final(self).limit() == old(self).limit(),
            0 <= controls(old(self).rest()) <= old(self).rest().len(),
            controls(old(self).rest()) == old(self).rest().len() ==> item is None && final(self).rest().len() == 0,
            controls(old(self).rest()) < old(self).rest().len() ==> final(self).rest() == old(self).rest().skip(controls(old(self).rest()) + 1) && match item {
                Some((text, width)) => text@.len() == 1 && limited(
                    old(self).rest()[controls(old(self).rest())],
                    old(self).limit(),
                ) == Some((text@[0], width)),
                None => false,
            },
    {
        let n = str_len(self.text);
        let ghost k0 = index_at(self.text@, self.at as int);
        let ghost mut k = k0;
        let ghost all = self.text@;
        proof {
            lemma_boundary_index(all, self.at as int);
            lemma_offset_ends(all);
        }
        while self.at < n
            invariant
                n == byte_len(all),
                self.text@ == all,
                self.limit == old(self).limit,
                0 <= k0 <= k <= all.len(),
                self.at == offset_of(all, k),
                self.at <= n,
                controls(all.skip(k0)) == (k - k0) + controls(all.skip(k)),
                old(self).rest() == all.skip(k0),
            decreases n - self.at,
        {
            proof {
                lemma_index_at(all, k);
                lemma_index_at(all, all.len() as int);
                lemma_offset_ends(all);
                assert(k < all.len());
                assert(all.skip(k).drop_first() =~= all.skip(k + 1));
                lemma_controls_bounds(all.skip(k + 1));
            }
            let from = self.at;
            let (ch, next) = char_from(self.text, self.at);
            self.at = next;
            match char_width(ch) {
                Some(w) => {
                    proof {
                        lemma_index_at(all, k + 1);
                        assert(all.skip(k0).skip(k - k0 + 1) =~= all.skip(k + 1));
                        assert(all.skip(k)[0] == all[k]);
                        assert(controls(all.skip(k)) == 0);
                        assert(all.skip(k0)[k - k0] == all[k]);
                        reveal_strlit("⚠");
                        assert(all.subrange(k, k + 1) =~= seq![all[k]]);
                    }
                    if w > self.limit {
                        return Some((PLACEHOLDER_TEXT, 1));
                    }
                    return Some((slice(self.text, from, next), w));
                },
                None => {},
            }
            proof {
                k = k + 1;
            }
        }
        proof {
            lemma_index_at(all, k);
            lemma_index_at(all, all.len() as int);
            assert(all.skip(all.len() as int) =~= Seq::<char>::empty());
            lemma_controls_bounds(all.skip(k0));
        }
        None
    }

    /// The next character that is not a control character, with its width;
    /// the placeholder with width 1 if it is wider than the limit.
    pub fn next(&mut self) -> (item: Option<(char, usize)>)
        requires
            old(self).wf(),
        ensures
            final(self).wf(),
            final(self).limit() == old(self).limit(),
            0 <= controls(old(self).rest()) <= old(self).rest().len(),
            controls(old(self).rest()) == old(self).rest().len() ==> item is None && final(self).rest().len() == 0,
            controls(old(self).rest()) < old(self).rest().len() ==> item == limited(
                old(self).rest()[controls(old(self).rest())],
                old(self).limit(),
            ) && item is Some && final(self).rest() == old(self).rest().skip(
                controls(old(self).rest()) + 1,
            ),
    {
        match self.next_str() {
            Some((text, width)) => {
                proof {
                    lemma_byte_len_bounds(text@);
                }
                Some((text.get_char(0), width))
            },
            None => None,
        }
    }
}

} // verus!
