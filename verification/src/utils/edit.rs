//! In-place edits of a `String` at character boundaries.
use crate::utils::encoding::{
    byte_len, char_from, index_at, lemma_boundary_index, lemma_byte_len_concat, lemma_index_at,
    lemma_offset_diff, lemma_offset_ends, offset_of, on_boundary, slice, str_len,
};
use vstd::prelude::*;
use vstd::string::StringExecFns;

verus! {

/// `String::push` appends one character, as its documentation says.
pub assume_specification[ std::string::String::push ](s: &mut std::string::String, ch: char)
    ensures
        final(s)@ == old(s)@.push(ch),
;

/// What is left when the characters from index `from` up to `to` are replaced by `with`.
pub open spec fn spliced(s: Seq<char>, from: int, to: int, with: Seq<char>) -> Seq<char> {
    s.take(from) + with + s.skip(to)
}

/// After the characters from index `f` up to `t` are replaced by `with`, the
/// offsets up to `f` stay, behind them stands `with`, and the offsets from
/// `t` on move by the difference of the lengths.
pub proof fn lemma_spliced_offsets(s: Seq<char>, f: int, t: int, with: Seq<char>)
    requires
        0 <= f <= t <= s.len(),
    ensures
        forall|j: int|
            0 <= j <= f ==> #[trigger] offset_of(spliced(s, f, t, with), j)
                == offset_of(s, j),
        offset_of(spliced(s, f, t, with), f + with.len()) == offset_of(s, f)
            + byte_len(with),
        forall|j: int|
            t <= j <= s.len() ==> #[trigger] offset_of(
                spliced(s, f, t, with),
                j - t + f + with.len(),
            ) == offset_of(s, j) - offset_of(s, t) + offset_of(s, f) + byte_len(with),
{
    let r = spliced(s, f, t, with);
    assert forall|j: int| 0 <= j <= f implies #[trigger] offset_of(r, j) == offset_of(s, j) by {
        assert(r.take(j) =~= s.take(j));
    }
    assert(r.take(f + with.len()) =~= s.take(f) + with);
    lemma_byte_len_concat(s.take(f), with);
    assert forall|j: int| t <= j <= s.len() implies #[trigger] offset_of(
        r,
        j - t + f + with.len(),
    ) == offset_of(s, j) - offset_of(s, t) + offset_of(s, f) + byte_len(with) by {
        assert(r.take(j - t + f + with.len()) =~= (s.take(f) + with) + s.subrange(t, j));
        lemma_byte_len_concat(s.take(f) + with, s.subrange(t, j));
        lemma_offset_diff(s, t, j);
    }
}

/// Replaces the bytes from `from` up to `to` by `with`; both are character boundaries.
pub fn splice(s: &mut String, from: usize, to: usize, with: &str)
    requires
        on_boundary(old(s)@, from as int),
        on_boundary(old(s)@, to as int),
        from <= to,
    ensures
        final(s)@ == spliced(
            old(s)@,
            index_at(old(s)@, from as int),
            index_at(old(s)@, to as int),
            with@,
        ),
{
    let n = str_len(s.as_str());
    proof {
        lemma_offset_ends(s@);
        lemma_index_at(s@, 0);
        lemma_index_at(s@, s@.len() as int);
        lemma_boundary_index(s@, from as int);
        lemma_boundary_index(s@, to as int);
    }
    let tail = slice(s.as_str(), to, n).to_owned();
    let mut out = slice(s.as_str(), 0, from).to_owned();
    out.append(with);
    out.append(tail.as_str());
    *s = out;
}

/// Inserts the character `ch` at the character boundary `at`.
pub fn insert_char(s: &mut String, at: usize, ch: char)
    requires
        on_boundary(old(s)@, at as int),
    ensures
        final(s)@ == old(s)@.insert(index_at(old(s)@, at as int), ch),
{
    let n = str_len(s.as_str());
    proof {
        lemma_offset_ends(s@);
        lemma_index_at(s@, 0);
        lemma_index_at(s@, s@.len() as int);
        lemma_boundary_index(s@, at as int);
    }
    let ghost before = s@;
    let ghost k = index_at(s@, at as int);
    let tail = slice(s.as_str(), at, n).to_owned();
    let mut out = slice(s.as_str(), 0, at).to_owned();
    out.push(ch);
    out.append(tail.as_str());
    proof {
        assert(out@ =~= before.insert(k, ch));
    }
    *s = out;
}

/// Splits `s` at the character boundary `at`: `s` keeps what is in front, the rest is returned.
pub fn split_off(s: &mut String, at: usize) -> (rest: String)
    requires
        on_boundary(old(s)@, at as int),
    ensures
        final(s)@ == old(s)@.take(index_at(old(s)@, at as int)),
        rest@ == old(s)@.skip(index_at(old(s)@, at as int)),
{
    let n = str_len(s.as_str());
    proof {
        lemma_offset_ends(s@);
        lemma_index_at(s@, 0);
        lemma_index_at(s@, s@.len() as int);
        lemma_boundary_index(s@, at as int);
    }
    let tail = slice(s.as_str(), at, n).to_owned();
    let head = slice(s.as_str(), 0, at).to_owned();
    *s = head;
    tail
}

/// Removes the character that starts at the boundary `at`, and returns it.
pub fn remove_char(s: &mut String, at: usize) -> (ch: char)
    requires
        on_boundary(old(s)@, at as int),
        at < byte_len(old(s)@),
    ensures
        0 <= index_at(old(s)@, at as int) < old(s)@.len(),
        ch == old(s)@[index_at(old(s)@, at as int)],
        final(s)@ == old(s)@.remove(index_at(old(s)@, at as int)),
{
    let ghost before = s@;
    let ghost k = index_at(s@, at as int);
    let (ch, next) = char_from(s.as_str(), at);
    splice(s, at, next, "");
    proof {
        reveal_strlit("");
        assert(s@ =~= before.remove(k));
    }
    ch
}

} // verus!
