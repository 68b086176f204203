//! Display width: how many terminal columns characters and strings take.
use crate::utils::encoding::{
    byte_len, char_before, char_from, index_at, lemma_index_at, lemma_offset_ends, offset_of,
    on_boundary, str_len, utf8_len,
};
use unicode_width::UnicodeWidthChar;
use unicode_width::UnicodeWidthStr;
use vstd::prelude::*;

verus! {

/// The width in columns that `unicode_width` gives one character on its own,
/// `None` for a control character.
pub uninterp spec fn unicode_char_width(c: char) -> Option<usize>;

/// The width in columns that `unicode_width` gives a whole string. It looks at
/// neighbouring characters, so it is not always the sum of the characters' widths.
pub uninterp spec fn unicode_str_width(s: Seq<char>) -> usize;

/// What is known of `unicode_char_width` without its tables.
pub open spec fn char_width_facts(c: char, w: Option<usize>) -> bool {
    &&& c < '\u{20}' ==> w is None
    &&& '\u{20}' <= c < '\u{7F}' ==> w == Some(1usize)
    &&& '\u{7F}' <= c < '\u{A0}' ==> w is None
    &&& '\u{A0}' <= c ==> w is Some && w->0 <= 3 && (w->0 == 3 ==> c == '\u{17D8}')
}

/// Calls `unicode_width::UnicodeWidthChar::width`. Names the result, and states
/// what the function's own branches show: control characters below U+00A0 have
/// no width, printable ASCII has width 1, every other character has a width of
/// at most 2, but for U+17D8 which has 3.
#[verifier::external_body]
pub(crate) fn char_width(c: char) -> (w: Option<usize>)
    ensures
        w == unicode_char_width(c),
        char_width_facts(c, w),
{
    UnicodeWidthChar::width(c)
}

/// Calls `unicode_width::UnicodeWidthStr::width` and names the result.
#[verifier::external_body]
pub(crate) fn str_width(s: &str) -> (w: usize)
    ensures
        w == unicode_str_width(s@),
{
    UnicodeWidthStr::width(s)
}

/// Columns that one character takes; a control character takes none.
pub open spec fn char_cols(c: char) -> nat {
    match unicode_char_width(c) {
        Some(w) => w as nat,
        None => 0,
    }
}

/// Columns that the characters of `s` take, each counted on its own.
pub open spec fn cols(s: Seq<char>) -> nat
    decreases s.len(),
{
    if s.len() == 0 {
        0
    } else {
        cols(s.drop_last()) + char_cols(s.last())
    }
}

/// Number of characters in the longest prefix of `s` that fits into `w` columns.
pub open spec fn fit_len(s: Seq<char>, w: nat) -> nat
    decreases s.len(),
{
    if cols(s) <= w || s.len() == 0 {
        s.len()
    } else {
        fit_len(s.drop_last(), w)
    }
}

/// Number of characters in the longest suffix of `s` that fits into `w` columns.
pub open spec fn fit_len_back(s: Seq<char>, w: nat) -> nat
    decreases s.len(),
{
    if cols(s) <= w || s.len() == 0 {
        s.len()
    } else {
        fit_len_back(s.drop_first(), w)
    }
}

/// Columns of one character. The call also tells what is known of the
/// character's width without the tables.
pub fn char_cols_of(c: char) -> (w: usize)
    ensures
        w == char_cols(c),
        w <= utf8_len(c),
        w <= 3,
        char_width_facts(c, unicode_char_width(c)),
{
    match char_width(c) {
        Some(w) => w,
        None => 0,
    }
}

/// The columns of a concatenation are the sum of the columns.
pub proof fn lemma_cols_concat(a: Seq<char>, b: Seq<char>)
    ensures
        cols(a + b) == cols(a) + cols(b),
    decreases b.len(),
{
    if b.len() == 0 {
        assert(a + b =~= a);
    } else {
        lemma_cols_concat(a, b.drop_last());
        assert((a + b).drop_last() =~= a + b.drop_last());
        assert((a + b).last() == b.last());
    }
}

/// The columns of a single character.
pub proof fn lemma_cols_single(c: char)
    ensures
        cols(seq![c]) == char_cols(c),
{
    let s = seq![c];
    assert(s.drop_last() =~= Seq::<char>::empty());
    assert(cols(s.drop_last()) == 0);
}

/// One character further, the columns grow by that character's.
pub proof fn lemma_cols_step(s: Seq<char>, k: int)
    requires
        0 <= k < s.len(),
    ensures
        cols(s.take(k + 1)) == cols(s.take(k)) + char_cols(s[k]),
{
    assert(s.take(k + 1).drop_last() =~= s.take(k));
}

/// One character further to the front, the columns of the suffix grow by that character's.
pub proof fn lemma_cols_step_back(s: Seq<char>, k: int)
    requires
        0 <= k < s.len(),
    ensures
        cols(s.skip(k)) == char_cols(s[k]) + cols(s.skip(k + 1)),
{
    assert(s.skip(k) =~= seq![s[k]] + s.skip(k + 1));
    lemma_cols_concat(seq![s[k]], s.skip(k + 1));
    lemma_cols_single(s[k]);
}

/// A longer prefix takes at least as many columns.
pub proof fn lemma_cols_monotone(s: Seq<char>, j: int, k: int)
    requires
        0 <= j <= k <= s.len(),
    ensures
        cols(s.take(j)) <= cols(s.take(k)),
        cols(s.take(k)) == cols(s.take(j)) + cols(s.subrange(j, k)),
{
    assert(s.take(k) =~= s.take(j) + s.subrange(j, k));
    lemma_cols_concat(s.take(j), s.subrange(j, k));
}

/// A longer suffix takes at least as many columns.
pub proof fn lemma_cols_monotone_back(s: Seq<char>, j: int, k: int)
    requires
        0 <= j <= k <= s.len(),
    ensures
        cols(s.skip(k)) <= cols(s.skip(j)),
{
    assert(s.skip(j) =~= s.subrange(j, k) + s.skip(k));
    lemma_cols_concat(s.subrange(j, k), s.skip(k));
}

/// `fit_len` is the one prefix length that fits and cannot be extended.
pub proof fn lemma_fit_len(s: Seq<char>, w: nat, k: int)
    requires
        0 <= k <= s.len(),
        cols(s.take(k)) <= w,
        k < s.len() ==> cols(s.take(k + 1)) > w,
    ensures
        fit_len(s, w) == k,
    decreases s.len() - k,
{
    assert(s.take(s.len() as int) =~= s);
    if k < s.len() {
        lemma_cols_monotone(s, k + 1, s.len() as int);
        let t = s.drop_last();
        assert(t.take(k) =~= s.take(k));
        if k < t.len() {
            assert(t.take(k + 1) =~= s.take(k + 1));
        }
        lemma_fit_len(t, w, k);
    }
}

/// What `fit_len` returns fits, and one character more would not.
pub proof fn lemma_fit_len_is_longest(s: Seq<char>, w: nat)
    ensures
        fit_len(s, w) <= s.len(),
        cols(s.take(fit_len(s, w) as int)) <= w,
        fit_len(s, w) < s.len() ==> cols(s.take(fit_len(s, w) as int + 1)) > w,
    decreases s.len(),
{
    assert(s.take(s.len() as int) =~= s);
    if cols(s) <= w || s.len() == 0 {
    } else {
        let t = s.drop_last();
        lemma_fit_len_is_longest(t, w);
        let k = fit_len(t, w) as int;
        assert(t.take(k) =~= s.take(k));
        if k < t.len() {
            assert(t.take(k + 1) =~= s.take(k + 1));
        } else {
            assert(s.take(k + 1) =~= s);
        }
    }
}

/// `fit_len_back` is the one suffix length that fits and cannot be extended.
pub proof fn lemma_fit_len_back(s: Seq<char>, w: nat, k: int)
    requires
        0 <= k <= s.len(),
        cols(s.skip(s.len() - k)) <= w,
        k < s.len() ==> cols(s.skip(s.len() - k - 1)) > w,
    ensures
        fit_len_back(s, w) == k,
    decreases s.len() - k,
{
    assert(s.skip(0) =~= s);
    if k < s.len() {
        lemma_cols_monotone_back(s, 0, s.len() - k - 1);
        let t = s.drop_first();
        assert(t.skip(t.len() - k) =~= s.skip(s.len() - k));
        if k < t.len() {
            assert(t.skip(t.len() - k - 1) =~= s.skip(s.len() - k - 1));
        }
        lemma_fit_len_back(t, w, k);
    }
}

/// What `fit_len_back` returns fits, and one character more would not.
pub proof fn lemma_fit_len_back_is_longest(s: Seq<char>, w: nat)
    ensures
        fit_len_back(s, w) <= s.len(),
        cols(s.skip(s.len() - fit_len_back(s, w))) <= w,
        fit_len_back(s, w) < s.len() ==> cols(s.skip(s.len() - fit_len_back(s, w) - 1)) > w,
    decreases s.len(),
{
    assert(s.skip(0) =~= s);
    if cols(s) <= w || s.len() == 0 {
    } else {
        let t = s.drop_first();
        lemma_fit_len_back_is_longest(t, w);
        let k = fit_len_back(t, w) as int;
        assert(t.skip(t.len() - k) =~= s.skip(s.len() - k));
        if k < t.len() {
            assert(t.skip(t.len() - k - 1) =~= s.skip(s.len() - k - 1));
        } else {
            assert(s.skip(s.len() - k - 1) =~= s);
        }
    }
}


/// Finds the longest prefix of `s` that fits into `width` columns: returns the
/// byte offset of its end and the columns it takes.
pub fn fit_prefix(s: &str, width: usize) -> (r: (usize, usize))
    ensures
        r.0 == offset_of(s@, fit_len(s@, width as nat) as int),
        r.1 == cols(s@.take(fit_len(s@, width as nat) as int)),
        r.1 <= width,
        r.1 <= r.0 <= byte_len(s@),
        on_boundary(s@, r.0 as int),
        index_at(s@, r.0 as int) == fit_len(s@, width as nat),
        fit_len(s@, width as nat) <= s@.len(),
        (r.0 == byte_len(s@)) <==> cols(s@) <= width,
{
    let n = str_len(s);
    let mut end: usize = 0;
    let mut used: usize = 0;
    let ghost mut k: int = 0;
    proof {
        lemma_offset_ends(s@);
        assert(s@.take(0) =~= Seq::<char>::empty());
    }
    while end < n
        invariant
            n == byte_len(s@),
            0 <= k <= s@.len(),
            end == offset_of(s@, k),
            end <= n,
            used == cols(s@.take(k)),
            used <= width,
            used <= end,
        decreases n - end,
    {
        proof {
            lemma_index_at(s@, k);
        }
        let (c, next) = char_from(s, end);
        let cw = char_cols_of(c);
        proof {
            lemma_cols_step(s@, k);
        }
        if cw > width - used {
            proof {
                lemma_fit_len(s@, width as nat, k);
                lemma_cols_monotone(s@, k + 1, s@.len() as int);
                assert(s@.take(s@.len() as int) =~= s@);
            }
            return (end, used);
        }
        used = used + cw;
        end = next;
        proof {
            k = k + 1;
        }
    }
    proof {
        lemma_index_at(s@, k);
        lemma_index_at(s@, s@.len() as int);
        assert(s@.take(s@.len() as int) =~= s@);
        lemma_fit_len(s@, width as nat, k);
    }
    (end, used)
}

/// Finds the longest suffix of `s` that fits into `width` columns: returns the
/// byte offset of its start and the columns it takes.
pub fn fit_suffix(s: &str, width: usize) -> (r: (usize, usize))
    ensures
        r.0 == offset_of(s@, s@.len() - fit_len_back(s@, width as nat)),
        r.1 == cols(s@.skip(s@.len() - fit_len_back(s@, width as nat))),
        r.1 <= width,
        r.0 <= byte_len(s@),
        on_boundary(s@, r.0 as int),
        index_at(s@, r.0 as int) == s@.len() - fit_len_back(s@, width as nat),
        fit_len_back(s@, width as nat) <= s@.len(),
        (r.0 == 0) <==> cols(s@) <= width,
{
    let n = str_len(s);
    let mut start: usize = n;
    let mut used: usize = 0;
    let ghost mut k: int = s@.len() as int;
    proof {
        lemma_offset_ends(s@);
        assert(s@.skip(s@.len() as int) =~= Seq::<char>::empty());
    }
    while start > 0
        invariant
            n == byte_len(s@),
            0 <= k <= s@.len(),
            start == offset_of(s@, k),
            start <= n,
            used == cols(s@.skip(k)),
            used <= width,
            used <= n - start,
        decreases start,
    {
        proof {
            lemma_index_at(s@, k);
        }
        let (c, prev) = char_before(s, start);
        let cw = char_cols_of(c);
        proof {
            lemma_cols_step_back(s@, k - 1);
        }
        if cw > width - used {
            proof {
                lemma_fit_len_back(s@, width as nat, s@.len() - k);
                lemma_cols_monotone_back(s@, 0, k - 1);
                assert(s@.skip(0) =~= s@);
            }
            return (start, used);
        }
        used = used + cw;
        start = prev;
        proof {
            k = k - 1;
        }
    }
    proof {
        lemma_index_at(s@, k);
        lemma_index_at(s@, 0);
        assert(s@.skip(0) =~= s@);
        lemma_fit_len_back(s@, width as nat, s@.len() - k);
    }
    (start, used)
}

} // verus!
