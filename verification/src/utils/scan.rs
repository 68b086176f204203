//! Comparing and searching strings character by character.
use crate::utils::encoding::{
    byte_len, char_from, lemma_byte_len_bounds, lemma_index_at, lemma_offset_ends,
    lemma_offset_monotone, offset_of, slice, str_len,
};
use vstd::prelude::*;

verus! {

/// Whether `text` starts with `prefix`.
pub open spec fn starts_with(text: Seq<char>, prefix: Seq<char>) -> bool {
    prefix.len() <= text.len() && text.take(prefix.len() as int) == prefix
}

/// What follows `prefix` in `text`, if `text` starts with it.
pub fn strip_prefix<'a>(text: &'a str, prefix: &str) -> (rest: Option<&'a str>)
    ensures
        rest is Some <==> starts_with(text@, prefix@),
        rest is Some ==> rest->0@ == text@.skip(prefix@.len() as int),
{
    let n = str_len(text);
    let m = str_len(prefix);
    let mut at: usize = 0;
    let ghost mut k: int = 0;
    proof {
        lemma_offset_ends(text@);
        lemma_offset_ends(prefix@);
        assert(text@.take(0) =~= prefix@.take(0));
    }
    while at < m
        invariant
            n == byte_len(text@),
            m == byte_len(prefix@),
            0 <= k <= prefix@.len(),
            k <= text@.len(),
            at == offset_of(prefix@, k),
            at == offset_of(text@, k),
            at <= m,
            at <= n,
            text@.take(k) == prefix@.take(k),
        decreases m - at,
    {
        proof {
            lemma_offset_ends(text@);
            lemma_offset_ends(prefix@);
            lemma_index_at(prefix@, k);
            lemma_index_at(text@, k);
            lemma_index_at(text@, text@.len() as int);
            lemma_index_at(prefix@, prefix@.len() as int);
        }
        if at == n {
            proof {
                assert(k == text@.len());
                if starts_with(text@, prefix@) {
                    assert(prefix@.len() == k);
                }
            }
            return None;
        }
        let (a, next_a) = char_from(text, at);
        let (b, next_b) = char_from(prefix, at);
        if a != b {
            proof {
                if starts_with(text@, prefix@) {
                    assert(text@.take(prefix@.len() as int)[k] == text@[k]);
                }
            }
            return None;
        }
        proof {
            assert(text@.take(k + 1) =~= text@.take(k).push(text@[k]));
            assert(prefix@.take(k + 1) =~= prefix@.take(k).push(prefix@[k]));
            k = k + 1;
        }
        at = next_a;
    }
    proof {
        lemma_index_at(prefix@, k);
        lemma_index_at(prefix@, prefix@.len() as int);
        lemma_index_at(text@, k);
        lemma_index_at(text@, text@.len() as int);
        assert(prefix@.take(k) =~= prefix@);
    }
    Some(slice(text, at, n))
}

/// Whether two strings hold the same characters.
pub fn str_eq(a: &str, b: &str) -> (r: bool)
    ensures
        r == (a@ == b@),
{
    match strip_prefix(a, b) {
        Some(rest) => {
            proof {
                lemma_byte_len_bounds(rest@);
                if rest@.len() == 0 {
                    assert(a@.take(b@.len() as int) =~= a@);
                }
                if a@ == b@ {
                    assert(a@.skip(b@.len() as int) =~= Seq::<char>::empty());
                }
            }
            str_len(rest) == 0
        },
        None => {
            proof {
                if a@ == b@ {
                    assert(a@.take(a@.len() as int) =~= a@);
                }
            }
            false
        },
    }
}

/// Index behind the last `c` in `s`; 0 if there is none.
pub open spec fn after_last(s: Seq<char>, c: char) -> int
    decreases s.len(),
{
    if s.len() == 0 {
        0
    } else if s.last() == c {
        s.len() as int
    } else {
        after_last(s.drop_last(), c)
    }
}

/// How often `c` stands in `s`.
pub open spec fn count_of(s: Seq<char>, c: char) -> int
    decreases s.len(),
{
    if s.len() == 0 {
        0
    } else {
        count_of(s.drop_last(), c) + if s.last() == c {
            1int
        } else {
            0int
        }
    }
}

/// How often `c` stands in `text`, and what follows the last one.
pub fn split_last(text: &str, c: char) -> (r: (usize, &str))
    ensures
        r.0 == count_of(text@, c),
        r.1@ == text@.skip(after_last(text@, c)),
{
    let n = str_len(text);
    let mut at: usize = 0;
    let mut count: usize = 0;
    let mut last: usize = 0;
    let ghost mut k: int = 0;
    proof {
        lemma_offset_ends(text@);
        assert(text@.take(0) =~= Seq::<char>::empty());
    }
    while at < n
        invariant
            n == byte_len(text@),
            0 <= k <= text@.len(),
            at == offset_of(text@, k),
            at <= n,
            count == count_of(text@.take(k), c),
            count <= k,
            k <= at,
            last == offset_of(text@, after_last(text@.take(k), c)),
            0 <= after_last(text@.take(k), c) <= k,
        decreases n - at,
    {
        proof {
            lemma_offset_ends(text@);
            lemma_index_at(text@, k);
            lemma_index_at(text@, text@.len() as int);
            assert(k < text@.len());
            assert(text@.take(k + 1).drop_last() =~= text@.take(k));
            lemma_offset_monotone(text@, 0, k);
        }
        let (ch, next) = char_from(text, at);
        proof {
            lemma_offset_monotone(text@, 0, k + 1);
        }
        if ch == c {
            count = count + 1;
            last = next;
        }
        at = next;
        proof {
            k = k + 1;
        }
    }
    proof {
        lemma_index_at(text@, k);
        lemma_index_at(text@, text@.len() as int);
        assert(text@.take(k) =~= text@);
        lemma_index_at(text@, after_last(text@, c));
        lemma_offset_monotone(text@, after_last(text@, c), text@.len() as int);
        lemma_offset_ends(text@);
    }
    (count, slice(text, last, n))
}

} // verus!
