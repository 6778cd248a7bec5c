//! Splitting a sequence at a separator, the one scanning step the table
//! reader and the address grammar share.

use vstd::prelude::*;
use vstd::slice::{slice_subrange, slice_to_vec};

verus! {

/// Index of the first occurrence of `sep` in `s`; the length of `s` where it
/// does not occur.
pub open spec fn first_at<T>(s: Seq<T>, sep: T) -> int
    decreases s.len(),
{
    if s.len() == 0 || s[0] == sep {
        0
    } else {
        1 + first_at(s.drop_first(), sep)
    }
}

/// The pieces of `s` between occurrences of `sep`. There is always at least
/// one piece, and a separator at either end gives an empty piece there.
pub open spec fn split<T>(s: Seq<T>, sep: T) -> Seq<Seq<T>>
    decreases s.len(),
{
    let i = first_at(s, sep);
    if 0 <= i < s.len() {
        seq![s.take(i)] + split(s.skip(i + 1), sep)
    } else {
        seq![s]
    }
}

/// `first_at` is the least index that holds the separator.
pub proof fn lemma_first_at<T>(s: Seq<T>, sep: T)
    ensures
        0 <= first_at(s, sep) <= s.len(),
        forall|k: int| 0 <= k < first_at(s, sep) ==> s[k] != sep,
        first_at(s, sep) < s.len() ==> s[first_at(s, sep)] == sep,
    decreases s.len(),
{
    if s.len() != 0 && s[0] != sep {
        let rest = s.drop_first();
        lemma_first_at(rest, sep);
        assert forall|k: int| 0 <= k < first_at(s, sep) implies s[k] != sep by {
            if k > 0 {
                assert(s[k] == rest[k - 1]);
            }
        }
    }
}

/// An index is `first_at` as soon as nothing before it holds the separator
/// and it holds the separator itself or is the end.
pub proof fn lemma_first_at_is<T>(s: Seq<T>, sep: T, n: int)
    requires
        0 <= n <= s.len(),
        forall|k: int| 0 <= k < n ==> s[k] != sep,
        n < s.len() ==> s[n] == sep,
    ensures
        first_at(s, sep) == n,
{
    lemma_first_at(s, sep);
    let f = first_at(s, sep);
    if f < n {
        assert(s[f] == sep);
    }
}

/// Every piece of a split is free of the separator, and there is one piece
/// more than there are separators at the head of each remainder.
pub proof fn lemma_split_pieces<T>(s: Seq<T>, sep: T)
    ensures
        split(s, sep).len() >= 1,
        forall|i: int, k: int|
            0 <= i < split(s, sep).len() && 0 <= k < split(s, sep)[i].len() ==> split(
                s,
                sep,
            )[i][k] != sep,
    decreases s.len(),
{
    lemma_first_at(s, sep);
    let f = first_at(s, sep);
    if f < s.len() {
        lemma_split_pieces(s.skip(f + 1), sep);
        let rest = split(s.skip(f + 1), sep);
        assert forall|i: int, k: int|
            0 <= i < split(s, sep).len() && 0 <= k < split(s, sep)[i].len() implies split(
            s,
            sep,
        )[i][k] != sep by {
            if i > 0 {
                assert(split(s, sep)[i] == rest[i - 1]);
            }
        }
    }
}

/// Index of the first `sep` at or after `from`; the length where none is.
pub fn find_char(s: &[char], from: usize, sep: char) -> (at: usize)
    requires
        from <= s@.len(),
    ensures
        at == from + first_at(s@.skip(from as int), sep),
        from <= at <= s@.len(),
{
    let mut at = from;
    while at < s.len() && s[at] != sep
        invariant
            from <= at <= s@.len(),
            forall|k: int| from <= k < at ==> s@[k] != sep,
        decreases s@.len() - at,
    {
        at += 1;
    }
    proof {
        lemma_first_at_is(s@.skip(from as int), sep, at - from);
    }
    at
}

/// Index of the first `sep` at or after `from`; the length where none is.
pub fn find_byte(s: &[u8], from: usize, sep: u8) -> (at: usize)
    requires
        from <= s@.len(),
    ensures
        at == from + first_at(s@.skip(from as int), sep),
        from <= at <= s@.len(),
{
    let mut at = from;
    while at < s.len() && s[at] != sep
        invariant
            from <= at <= s@.len(),
            forall|k: int| from <= k < at ==> s@[k] != sep,
        decreases s@.len() - at,
    {
        at += 1;
    }
    proof {
        lemma_first_at_is(s@.skip(from as int), sep, at - from);
    }
    at
}

/// The views of a list of owned pieces.
pub open spec fn pieces<T>(v: Seq<Vec<T>>) -> Seq<Seq<T>> {
    Seq::new(v.len(), |i: int| v[i]@)
}

/// Splits `s` at every `sep`.
pub fn split_chars(s: &[char], sep: char) -> (out: Vec<Vec<char>>)
    ensures
        pieces(out@) == split(s@, sep),
{
    let mut out: Vec<Vec<char>> = Vec::new();
    let mut from: usize = 0;
    assert(s@.skip(0) =~= s@);
    loop
        invariant
            from <= s@.len(),
            pieces(out@) + split(s@.skip(from as int), sep) == split(s@, sep),
        decreases s@.len() - from,
    {
        let at = find_char(s, from, sep);
        let piece = slice_to_vec(slice_subrange(s, from, at));
        let ghost rest = s@.skip(from as int);
        let ghost before = pieces(out@);
        assert(piece@ =~= rest.take(at - from));
        out.push(piece);
        if at >= s.len() {
            assert(rest.take(at - from) =~= rest);
            assert(pieces(out@) =~= before + seq![rest]);
            return out;
        }
        assert(rest.skip(at - from + 1) =~= s@.skip(at + 1));
        assert(pieces(out@) =~= before + seq![rest.take(at - from)]);
        assert(pieces(out@) + split(s@.skip(at + 1), sep) =~= before + split(rest, sep));
        from = at + 1;
    }
}

/// Splits `s` at every `sep`.
pub fn split_bytes(s: &[u8], sep: u8) -> (out: Vec<Vec<u8>>)
    ensures
        pieces(out@) == split(s@, sep),
{
    let mut out: Vec<Vec<u8>> = Vec::new();
    let mut from: usize = 0;
    assert(s@.skip(0) =~= s@);
    loop
        invariant
            from <= s@.len(),
            pieces(out@) + split(s@.skip(from as int), sep) == split(s@, sep),
        decreases s@.len() - from,
    {
        let at = find_byte(s, from, sep);
        let piece = slice_to_vec(slice_subrange(s, from, at));
        let ghost rest = s@.skip(from as int);
        let ghost before = pieces(out@);
        assert(piece@ =~= rest.take(at - from));
        out.push(piece);
        if at >= s.len() {
            assert(rest.take(at - from) =~= rest);
            assert(pieces(out@) =~= before + seq![rest]);
            return out;
        }
        assert(rest.skip(at - from + 1) =~= s@.skip(at + 1));
        assert(pieces(out@) =~= before + seq![rest.take(at - from)]);
        assert(pieces(out@) + split(s@.skip(at + 1), sep) =~= before + split(rest, sep));
        from = at + 1;
    }
}

} // verus!
