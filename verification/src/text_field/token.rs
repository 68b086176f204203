//! Tokens: maximal runs of characters that are not whitespace.
use crate::utils::classes::is_whitespace_char;
use crate::utils::encoding::{
    byte_len, char_from, lemma_index_at, lemma_offset_ends, lemma_offset_monotone, offset_of,
    on_boundary, str_len,
};
use core::ops::Range;
use vstd::prelude::*;

verus! {

/// Index of the first whitespace character of `s`, from index `from` on, that
/// starts at byte offset `idx` or behind it; the length of `s` if there is none.
pub open spec fn first_space_from(s: Seq<char>, from: int, idx: int) -> int
    decreases s.len() - from,
{
    if from < 0 || from >= s.len() {
        s.len() as int
    } else if is_whitespace_char(s[from]) && offset_of(s, from) >= idx {
        from
    } else {
        first_space_from(s, from + 1, idx)
    }
}

/// Index of the last character among the first `upto` of `s` that starts a
/// token behind a whitespace character; 0 if there is none.
pub open spec fn last_word_start(s: Seq<char>, upto: int) -> int
    decreases upto,
{
    if upto <= 1 || upto > s.len() {
        0
    } else if !is_whitespace_char(s[upto - 1]) && is_whitespace_char(s[upto - 2]) {
        upto - 1
    } else {
        last_word_start(s, upto - 1)
    }
}

/// The byte range of the token of `s` at byte offset `idx`.
///
/// Let `stop` be the first whitespace at `idx` or behind it, and `start` the
/// last token start in front of `stop`. If `stop` exists the range runs from
/// `start` to `stop`, unless whitespace stands directly in front of `stop`:
/// then `idx` lies between two tokens and the range is empty at `idx`.
/// Without such a whitespace the range runs from `start` to the end of the
/// text where `idx` lies inside the text, and to `idx` itself where `idx` lies
/// at or behind the end of a text that does not end in whitespace; in what is
/// left the range is empty at `idx`.
pub open spec fn token_range(s: Seq<char>, idx: int) -> (int, int) {
    let stop = first_space_from(s, 0, idx);
    let start = offset_of(s, last_word_start(s, stop)) as int;
    if stop < s.len() {
        if stop >= 1 && is_whitespace_char(s[stop - 1]) {
            (idx, idx)
        } else {
            (start, offset_of(s, stop) as int)
        }
    } else if idx < byte_len(s) {
        (start, byte_len(s) as int)
    } else if !(s.len() >= 1 && is_whitespace_char(s[s.len() - 1])) && start <= idx {
        (start, idx)
    } else {
        (idx, idx)
    }
}

/// The ends of a token range are ordered, and on a character boundary they
/// are character boundaries within the text.
pub proof fn lemma_token_range_bounds(s: Seq<char>, idx: int)
    requires
        on_boundary(s, idx),
    ensures
        on_boundary(s, token_range(s, idx).0),
        on_boundary(s, token_range(s, idx).1),
        0 <= token_range(s, idx).0 <= token_range(s, idx).1 <= byte_len(s),
{
    let stop = first_space_from(s, 0, idx);
    lemma_first_space_bounds(s, 0, idx);
    lemma_last_word_start_bounds(s, stop);
    let w = last_word_start(s, stop);
    lemma_index_at(s, w);
    lemma_index_at(s, stop);
    lemma_offset_monotone(s, w, stop);
    lemma_offset_monotone(s, stop, s.len() as int);
    lemma_offset_ends(s);
    crate::utils::encoding::lemma_boundary_index(s, idx);
}

/// Where `first_space_from` lands.
pub proof fn lemma_first_space_bounds(s: Seq<char>, from: int, idx: int)
    requires
        0 <= from <= s.len(),
    ensures
        from <= first_space_from(s, from, idx) <= s.len(),
        first_space_from(s, from, idx) < s.len() ==> is_whitespace_char(
            s[first_space_from(s, from, idx)],
        ) && offset_of(s, first_space_from(s, from, idx)) >= idx,
    decreases s.len() - from,
{
    if from < s.len() && !(is_whitespace_char(s[from]) && offset_of(s, from) >= idx) {
        lemma_first_space_bounds(s, from + 1, idx);
    }
}

/// Where `last_word_start` lands.
pub proof fn lemma_last_word_start_bounds(s: Seq<char>, upto: int)
    requires
        0 <= upto <= s.len(),
    ensures
        0 <= last_word_start(s, upto) <= upto,
        last_word_start(s, upto) < upto || upto == 0,
    decreases upto,
{
    if upto > 1 && !(!is_whitespace_char(s[upto - 1]) && is_whitespace_char(s[upto - 2])) {
        lemma_last_word_start_bounds(s, upto - 1);
    }
}

/// The byte range of the token of `line` at byte offset `idx`.
pub fn arg_range_at(line: &str, idx: usize) -> (r: Range<usize>)
    ensures
        r.start == token_range(line@, idx as int).0,
        r.end == token_range(line@, idx as int).1,
{
    let n = str_len(line);
    let mut token_start: usize = 0;
    let mut last_not_in_token = false;
    let mut char_idx: usize = 0;
    let ghost mut k: int = 0;
    proof {
        lemma_offset_ends(line@);
    }
    while char_idx < n
        invariant
            n == byte_len(line@),
            0 <= k <= line@.len(),
            char_idx == offset_of(line@, k),
            char_idx <= n,
            token_start == offset_of(line@, last_word_start(line@, k)),
            0 <= last_word_start(line@, k) <= k,
            last_not_in_token == (k >= 1 && is_whitespace_char(line@[k - 1])),
            first_space_from(line@, 0, idx as int) == first_space_from(line@, k, idx as int),
        decreases n - char_idx,
    {
        proof {
            lemma_index_at(line@, k);
        }
        let (ch, next) = char_from(line, char_idx);
        proof {
            lemma_last_word_start_bounds(line@, k + 1);
        }
        if !ch.is_whitespace() {
            if last_not_in_token {
                token_start = char_idx;
            }
            last_not_in_token = false;
        } else if char_idx >= idx {
            if last_not_in_token {
                return idx..idx;
            }
            return token_start..char_idx;
        } else {
            last_not_in_token = true;
        }
        char_idx = next;
        proof {
            k = k + 1;
        }
    }
    proof {
        lemma_index_at(line@, k);
        lemma_index_at(line@, line@.len() as int);
    }
    if idx < n {
        token_start..n
    } else if !last_not_in_token && token_start <= idx {
        token_start..idx
    } else {
        idx..idx
    }
}

} // verus!
