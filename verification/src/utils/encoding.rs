//! Byte offsets, character indices and how they relate.
//!
//! A string is modelled by its characters (`Seq<char>`). Byte offsets are
//! those of its UTF-8 encoding: the offset behind the first `k` characters is
//! the length of the encoding of those characters, and only such offsets are
//! character boundaries.
use vstd::prelude::*;
use vstd::utf8::*;

verus! {

/// Number of bytes in the UTF-8 encoding of `c` (between 1 and 4).
pub open spec fn utf8_len(c: char) -> nat {
    encode_scalar(c as u32).len()
}

/// Number of bytes in the UTF-8 encoding of `s`.
pub open spec fn byte_len(s: Seq<char>) -> nat {
    encode_utf8(s).len()
}

/// Byte offset just behind the first `k` characters of `s`.
pub open spec fn offset_of(s: Seq<char>, k: int) -> nat {
    byte_len(s.take(k))
}

/// `b` is a byte offset at which a character of `s` starts, or the end of `s`.
pub open spec fn on_boundary(s: Seq<char>, b: int) -> bool {
    exists|k: int| 0 <= k <= s.len() && #[trigger] offset_of(s, k) == b
}

/// Number of characters of `s` in front of the boundary at byte offset `b`.
pub open spec fn index_at(s: Seq<char>, b: int) -> int {
    choose|k: int| 0 <= k <= s.len() && #[trigger] offset_of(s, k) == b
}

/// Every character takes between one and four bytes.
pub proof fn lemma_utf8_len_bounds(c: char)
    ensures
        1 <= utf8_len(c) <= 4,
{
}

/// The encoding of a concatenation is the concatenation of the encodings.
pub proof fn lemma_encode_concat(a: Seq<char>, b: Seq<char>)
    ensures
        encode_utf8(a + b) == encode_utf8(a) + encode_utf8(b),
    decreases a.len(),
{
    if a.len() == 0 {
        assert(a + b =~= b);
        assert(encode_utf8(a) + encode_utf8(b) =~= encode_utf8(b));
    } else {
        lemma_encode_concat(a.drop_first(), b);
        assert((a + b).drop_first() =~= a.drop_first() + b);
        assert(encode_utf8(a + b) =~= encode_utf8(a) + encode_utf8(b));
    }
}

/// A single character encodes to `utf8_len` bytes.
pub proof fn lemma_encode_single(c: char)
    ensures
        encode_utf8(seq![c]) == encode_scalar(c as u32),
        byte_len(seq![c]) == utf8_len(c),
{
    let s = seq![c];
    assert(s.drop_first() =~= Seq::<char>::empty());
    assert(encode_utf8(s.drop_first()) =~= Seq::<u8>::empty());
    assert(encode_utf8(s) =~= encode_scalar(c as u32));
}

/// The byte length of a concatenation is the sum of the byte lengths.
pub proof fn lemma_byte_len_concat(a: Seq<char>, b: Seq<char>)
    ensures
        byte_len(a + b) == byte_len(a) + byte_len(b),
{
    lemma_encode_concat(a, b);
}

/// A string has at least as many bytes as characters, and at most four times as many.
pub proof fn lemma_byte_len_bounds(s: Seq<char>)
    ensures
        s.len() <= byte_len(s) <= 4 * s.len(),
    decreases s.len(),
{
    if s.len() > 0 {
        lemma_byte_len_bounds(s.drop_first());
        lemma_utf8_len_bounds(s[0]);
    }
}

/// The offsets of the first and of the last boundary.
pub proof fn lemma_offset_ends(s: Seq<char>)
    ensures
        offset_of(s, 0) == 0,
        offset_of(s, s.len() as int) == byte_len(s),
        on_boundary(s, 0),
        on_boundary(s, byte_len(s) as int),
{
    assert(s.take(0) =~= Seq::<char>::empty());
    assert(s.take(s.len() as int) =~= s);
    assert(offset_of(s, 0) == 0);
    assert(offset_of(s, s.len() as int) == byte_len(s));
}

/// The bytes between two boundaries are the encoding of the characters between them.
pub proof fn lemma_offset_diff(s: Seq<char>, j: int, k: int)
    requires
        0 <= j <= k <= s.len(),
    ensures
        offset_of(s, k) == offset_of(s, j) + byte_len(s.subrange(j, k)),
        encode_utf8(s).subrange(offset_of(s, j) as int, offset_of(s, k) as int) == encode_utf8(
            s.subrange(j, k),
        ),
        offset_of(s, k) <= byte_len(s),
{
    let a = s.take(j);
    let m = s.subrange(j, k);
    let z = s.skip(k);
    assert(s.take(k) =~= a + m);
    assert(s =~= s.take(k) + z);
    lemma_encode_concat(a, m);
    lemma_encode_concat(s.take(k), z);
    let ea = encode_utf8(a);
    let em = encode_utf8(m);
    let ez = encode_utf8(z);
    assert(encode_utf8(s) == (ea + em) + ez);
    assert(((ea + em) + ez).subrange(ea.len() as int, (ea.len() + em.len()) as int) =~= em);
}

/// One character further, the offset grows by that character's length.
pub proof fn lemma_offset_step(s: Seq<char>, k: int)
    requires
        0 <= k < s.len(),
    ensures
        offset_of(s, k + 1) == offset_of(s, k) + utf8_len(s[k]),
        offset_of(s, k) < offset_of(s, k + 1) <= byte_len(s),
{
    lemma_offset_diff(s, k, k + 1);
    assert(s.subrange(k, k + 1) =~= seq![s[k]]);
    lemma_encode_single(s[k]);
    lemma_utf8_len_bounds(s[k]);
}

/// Offsets grow strictly with the character index.
pub proof fn lemma_offset_monotone(s: Seq<char>, j: int, k: int)
    requires
        0 <= j <= k <= s.len(),
    ensures
        offset_of(s, j) + (k - j) <= offset_of(s, k),
        offset_of(s, k) <= byte_len(s),
{
    lemma_offset_diff(s, j, k);
    lemma_byte_len_bounds(s.subrange(j, k));
}

/// A boundary is the offset of exactly one character index.
pub proof fn lemma_index_at(s: Seq<char>, k: int)
    requires
        0 <= k <= s.len(),
    ensures
        on_boundary(s, offset_of(s, k) as int),
        index_at(s, offset_of(s, k) as int) == k,
{
    let b = offset_of(s, k) as int;
    let i = index_at(s, b);
    assert(0 <= i <= s.len() && offset_of(s, i) == b);
    if i < k {
        lemma_offset_monotone(s, i, k);
    } else if k < i {
        lemma_offset_monotone(s, k, i);
    }
}

/// What `index_at` is on a boundary.
pub proof fn lemma_boundary_index(s: Seq<char>, b: int)
    requires
        on_boundary(s, b),
    ensures
        0 <= index_at(s, b) <= s.len(),
        offset_of(s, index_at(s, b)) == b,
        0 <= b <= byte_len(s),
{
    let k = index_at(s, b);
    lemma_offset_monotone(s, k, s.len() as int);
    lemma_offset_ends(s);
}


/// Dropping the first character shifts every later boundary by that character's length.
proof fn lemma_boundary_shift(s: Seq<char>, b: int)
    requires
        s.len() > 0,
        b > 0,
    ensures
        on_boundary(s, b) <==> on_boundary(s.drop_first(), b - utf8_len(s[0])),
{
    let t = s.drop_first();
    let l0 = utf8_len(s[0]) as int;
    lemma_offset_ends(s);
    if on_boundary(s, b) {
        let k = index_at(s, b);
        assert(k >= 1);
        assert(s.take(k) =~= seq![s[0]] + t.take(k - 1));
        lemma_byte_len_concat(seq![s[0]], t.take(k - 1));
        lemma_encode_single(s[0]);
        assert(offset_of(t, k - 1) == b - l0);
    }
    if on_boundary(t, b - l0) {
        let k = index_at(t, b - l0);
        assert(s.take(k + 1) =~= seq![s[0]] + t.take(k));
        lemma_byte_len_concat(seq![s[0]], t.take(k));
        lemma_encode_single(s[0]);
        assert(offset_of(s, k + 1) == b);
    }
}

/// The character boundaries of the encoded bytes are the offsets of the characters.
pub proof fn lemma_boundary_iff(s: Seq<char>, b: int)
    ensures
        is_char_boundary(encode_utf8(s), b) <==> on_boundary(s, b),
    decreases s.len(),
{
    let bytes = encode_utf8(s);
    encode_utf8_valid_utf8(s);
    lemma_offset_ends(s);
    if b == 0 {
    } else if b < 0 || bytes.len() < b {
        if on_boundary(s, b) {
            lemma_boundary_index(s, b);
        }
    } else {
        assert(s.len() > 0);
        encode_utf8_first_scalar(s);
        assert(pop_first_scalar(bytes) =~= encode_utf8(s.drop_first()));
        lemma_boundary_iff(s.drop_first(), b - utf8_len(s[0]));
        lemma_boundary_shift(s, b);
    }
}

/// Two strings with the same encoding are the same.
pub proof fn lemma_encode_injective(a: Seq<char>, b: Seq<char>)
    requires
        encode_utf8(a) == encode_utf8(b),
    ensures
        a == b,
{
    encode_utf8_decode_utf8(a);
    encode_utf8_decode_utf8(b);
}

/// Length of `s` in bytes.
pub fn str_len(s: &str) -> (n: usize)
    ensures
        n == byte_len(s@),
{
    s.as_bytes().len()
}

/// Whether byte offset `b` is a character boundary of `s`.
pub fn is_boundary(s: &str, b: usize) -> (r: bool)
    ensures
        r == on_boundary(s@, b as int),
{
    proof {
        lemma_boundary_iff(s@, b as int);
    }
    s.is_char_boundary(b)
}

/// Number of bytes that `c` takes in UTF-8.
pub fn len_utf8(c: char) -> (n: usize)
    ensures
        n == utf8_len(c),
        1 <= n <= 4,
{
    let code: u32 = c as u32;
    if code < 0x80 {
        1
    } else if code < 0x800 {
        2
    } else if code < 0x10000 {
        3
    } else {
        4
    }
}

/// The part of `s` between two character boundaries, given as byte offsets.
pub fn slice<'a>(s: &'a str, from: usize, to: usize) -> (r: &'a str)
    requires
        on_boundary(s@, from as int),
        on_boundary(s@, to as int),
        from <= to,
    ensures
        r@ == s@.subrange(index_at(s@, from as int), index_at(s@, to as int)),
        byte_len(r@) == to - from,
{
    proof {
        lemma_boundary_iff(s@, from as int);
        lemma_boundary_iff(s@, to as int);
        lemma_boundary_index(s@, from as int);
        lemma_boundary_index(s@, to as int);
    }
    let ghost j = index_at(s@, from as int);
    let ghost k = index_at(s@, to as int);
    let (head, _) = s.split_at(to);
    proof {
        if k < j {
            lemma_offset_monotone(s@, k, j);
        }
        lemma_offset_diff(s@, 0, k);
        lemma_offset_ends(s@);
        assert(s@.subrange(0, k) =~= s@.take(k));
        lemma_encode_injective(head@, s@.take(k));
        lemma_offset_diff(s@, j, k);
        lemma_offset_diff(s@.take(k), j, k);
        assert(s@.take(k).take(j) =~= s@.take(j));
        assert(s@.take(k).take(k) =~= s@.take(k));
        lemma_index_at(head@, j);
        lemma_boundary_iff(head@, from as int);
    }
    let (_, r) = head.split_at(from);
    proof {
        assert(head@.subrange(j, k) =~= s@.subrange(j, k));
        assert(encode_utf8(head@).len() == to);
        lemma_encode_injective(r@, s@.subrange(j, k));
    }
    r
}


/// The first character of `s`, if it has one.
pub fn first_char(s: &str) -> (r: Option<char>)
    ensures
        r == if s@.len() == 0 {
            None
        } else {
            Some(s@[0])
        },
{
    proof {
        lemma_byte_len_bounds(s@);
    }
    if str_len(s) == 0 {
        None
    } else {
        Some(s.get_char(0))
    }
}

/// The character that starts at byte offset `at`, or `None` at the end of `s`.
pub fn char_at(s: &str, at: usize) -> (r: Option<char>)
    requires
        on_boundary(s@, at as int),
    ensures
        r == if at == byte_len(s@) {
            None
        } else {
            Some(s@[index_at(s@, at as int)])
        },
        r is Some ==> 0 <= index_at(s@, at as int) < s@.len(),
{
    proof {
        lemma_boundary_index(s@, at as int);
        lemma_offset_ends(s@);
        lemma_index_at(s@, s@.len() as int);
    }
    let rest = slice(s, at, str_len(s));
    proof {
        lemma_byte_len_bounds(rest@);
    }
    first_char(rest)
}

/// The boundary behind the character that starts at `at`.
pub fn next_boundary(s: &str, at: usize) -> (r: usize)
    requires
        on_boundary(s@, at as int),
        at < byte_len(s@),
    ensures
        r == offset_of(s@, index_at(s@, at as int) + 1),
        r == at + utf8_len(s@[index_at(s@, at as int)]),
        on_boundary(s@, r as int),
        at < r <= byte_len(s@),
        index_at(s@, r as int) == index_at(s@, at as int) + 1,
{
    // the text was measured: its length fits a `usize`
    let _ = str_len(s);
    let c = char_at(s, at);
    proof {
        lemma_boundary_index(s@, at as int);
        lemma_offset_step(s@, index_at(s@, at as int));
        lemma_index_at(s@, index_at(s@, at as int) + 1);
    }
    match c {
        Some(c) => at + len_utf8(c),
        None => unreached(),
    }
}

/// The boundary in front of the character that ends at `at`.
pub fn prev_boundary(s: &str, at: usize) -> (r: usize)
    requires
        on_boundary(s@, at as int),
        0 < at,
    ensures
        r == offset_of(s@, index_at(s@, at as int) - 1),
        on_boundary(s@, r as int),
        r < at,
        index_at(s@, r as int) == index_at(s@, at as int) - 1,
        at == r + utf8_len(s@[index_at(s@, r as int)]),
{
    let ghost k = index_at(s@, at as int);
    proof {
        lemma_boundary_index(s@, at as int);
        lemma_offset_ends(s@);
        assert(k >= 1);
        lemma_offset_step(s@, k - 1);
        lemma_index_at(s@, k - 1);
    }
    let mut i: usize = at - 1;
    while !is_boundary(s, i)
        invariant
            offset_of(s@, k - 1) <= i < at,
            at == offset_of(s@, k),
            1 <= k <= s@.len(),
        decreases i,
    {
        i = i - 1;
    }
    proof {
        let j = index_at(s@, i as int);
        lemma_boundary_index(s@, i as int);
        if j < k - 1 {
            lemma_offset_monotone(s@, j, k - 1);
        }
        if j >= k {
            lemma_offset_monotone(s@, k, j);
        }
        assert(j == k - 1);
    }
    i
}

/// Number of characters in `s`.
pub fn char_count(s: &str) -> (n: usize)
    ensures
        n == s@.len(),
{
    s.unicode_len()
}

/// Byte offset just behind the first `idx` characters, or `None` if `s` has fewer.
pub fn offset_of_char(s: &str, idx: usize) -> (r: Option<usize>)
    ensures
        r == if idx <= s@.len() {
            Some(offset_of(s@, idx as int) as usize)
        } else {
            None
        },
        idx <= s@.len() ==> offset_of(s@, idx as int) <= usize::MAX,
{
    let n = str_len(s);
    let mut at: usize = 0;
    let mut k: usize = 0;
    proof {
        lemma_offset_ends(s@);
    }
    while k < idx
        invariant
            k <= idx,
            k <= s@.len(),
            at == offset_of(s@, k as int),
            at <= n,
            n == byte_len(s@),
        decreases idx - k,
    {
        proof {
            lemma_index_at(s@, k as int);
            lemma_offset_ends(s@);
            if at == n && k < s@.len() {
                lemma_offset_step(s@, k as int);
            }
            if at < n && k == s@.len() {
            }
        }
        if at == n {
            proof {
                assert(k == s@.len());
            }
            return None;
        }
        at = next_boundary(s, at);
        k = k + 1;
    }
    Some(at)
}


/// The character that starts at `at`, with the boundary behind it.
pub fn char_from(s: &str, at: usize) -> (r: (char, usize))
    requires
        on_boundary(s@, at as int),
        at < byte_len(s@),
    ensures
        0 <= index_at(s@, at as int) < s@.len(),
        r.0 == s@[index_at(s@, at as int)],
        r.1 == at + utf8_len(r.0),
        r.1 == offset_of(s@, index_at(s@, at as int) + 1),
        r.1 <= byte_len(s@),
        on_boundary(s@, r.1 as int),
        index_at(s@, r.1 as int) == index_at(s@, at as int) + 1,
{
    let n = str_len(s);
    proof {
        lemma_boundary_index(s@, at as int);
        lemma_offset_ends(s@);
        lemma_index_at(s@, s@.len() as int);
        if index_at(s@, at as int) == s@.len() {
            assert(false);
        }
        lemma_offset_step(s@, index_at(s@, at as int));
        lemma_index_at(s@, index_at(s@, at as int) + 1);
    }
    let rest = slice(s, at, n);
    let c = rest.get_char(0);
    (c, at + len_utf8(c))
}

/// The character that ends at `at`, with the boundary in front of it.
pub fn char_before(s: &str, at: usize) -> (r: (char, usize))
    requires
        on_boundary(s@, at as int),
        0 < at,
    ensures
        1 <= index_at(s@, at as int) <= s@.len(),
        r.0 == s@[index_at(s@, at as int) - 1],
        r.1 + utf8_len(r.0) == at,
        r.1 == offset_of(s@, index_at(s@, at as int) - 1),
        on_boundary(s@, r.1 as int),
        index_at(s@, r.1 as int) == index_at(s@, at as int) - 1,
{
    proof {
        lemma_boundary_index(s@, at as int);
        lemma_offset_ends(s@);
    }
    let start = prev_boundary(s, at);
    let (c, _) = char_from(s, start);
    (c, start)
}

/// When every character takes one byte, offsets and indices coincide.
pub proof fn lemma_single_byte_offsets(s: Seq<char>, k: int)
    requires
        byte_len(s) == s.len(),
        0 <= k <= s.len(),
    ensures
        offset_of(s, k) == k,
{
    lemma_offset_ends(s);
    lemma_offset_monotone(s, 0, k);
    lemma_offset_monotone(s, k, s.len() as int);
}

} // verus!
