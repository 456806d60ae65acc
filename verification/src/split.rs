//! Cutting a byte string into the pieces that lie between separator bytes.
//!
//! A string with `n` separator bytes has exactly `n + 1` pieces; a piece may
//! be empty. The empty string has one (empty) piece.

use vstd::prelude::*;

verus! {

/// Length of the longest prefix of `s` that holds no `sep` byte.
pub open spec fn run_len(s: Seq<u8>, sep: u8) -> nat
    decreases s.len(),
{
    if s.len() == 0 || s[0] == sep {
        0
    } else {
        1 + run_len(s.skip(1), sep)
    }
}

/// The pieces of `s` between `sep` bytes, in order.
pub open spec fn split(s: Seq<u8>, sep: u8) -> Seq<Seq<u8>>
    decreases s.len(),
{
    let n = run_len(s, sep) as int;
    if n >= s.len() {
        seq![s]
    } else {
        seq![s.take(n)] + split(s.skip(n + 1), sep)
    }
}

/// `run_len` is the position of the first separator, or the length of the
/// string when there is none.
pub proof fn lemma_run_len(s: Seq<u8>, sep: u8, n: int)
    requires
        0 <= n <= s.len(),
        forall|k: int| 0 <= k < n ==> s[k] != sep,
        n == s.len() || s[n] == sep,
    ensures
        run_len(s, sep) == n,
    decreases s.len(),
{
    if n > 0 {
        let rest = s.skip(1);
        assert forall|k: int| 0 <= k < n - 1 implies rest[k] != sep by {
            assert(rest[k] == s[k + 1]);
        }
        lemma_run_len(rest, sep, n - 1);
    }
}

/// What `run_len` finds: a separator-free prefix that ends at a separator
/// or at the end of the string.
pub proof fn lemma_run_len_bounds(s: Seq<u8>, sep: u8)
    ensures
        run_len(s, sep) <= s.len(),
        forall|k: int| 0 <= k < run_len(s, sep) ==> s[k] != sep,
        run_len(s, sep) < s.len() ==> s[run_len(s, sep) as int] == sep,
    decreases s.len(),
{
    if !(s.len() == 0 || s[0] == sep) {
        let rest = s.skip(1);
        lemma_run_len_bounds(rest, sep);
        assert forall|k: int| 0 <= k < run_len(s, sep) implies s[k] != sep by {
            if k > 0 {
                assert(rest[k - 1] == s[k]);
            }
        }
        if run_len(s, sep) < s.len() {
            assert(rest[run_len(rest, sep) as int] == s[run_len(s, sep) as int]);
        }
    }
}

/// A string without a separator is its own single piece.
pub proof fn lemma_split_single(s: Seq<u8>, sep: u8)
    requires
        forall|k: int| 0 <= k < s.len() ==> s[k] != sep,
    ensures
        split(s, sep) == seq![s],
{
    lemma_run_len(s, sep, s.len() as int);
}

/// The pieces of two strings joined by a separator are the pieces of the
/// first followed by the pieces of the second.
pub proof fn lemma_split_joined(a: Seq<u8>, b: Seq<u8>, sep: u8)
    ensures
        split(a + seq![sep] + b, sep) == split(a, sep) + split(b, sep),
    decreases a.len(),
{
    let joined = a + seq![sep] + b;
    lemma_run_len_bounds(a, sep);
    let n = run_len(a, sep) as int;
    assert forall|k: int| 0 <= k < n implies joined[k] != sep by {
        assert(joined[k] == a[k]);
    }
    if n < a.len() {
        assert(joined[n] == a[n]);
    } else {
        assert(joined[n] == sep);
    }
    lemma_run_len(joined, sep, n);
    assert(joined.take(n) =~= a.take(n));
    if n < a.len() {
        let rest = a.skip(n + 1);
        assert(joined.skip(n + 1) =~= rest + seq![sep] + b);
        lemma_split_joined(rest, b, sep);
        assert(split(joined, sep) =~= split(a, sep) + split(b, sep));
    } else {
        assert(a.take(n) =~= a);
        assert(joined.skip(n + 1) =~= b);
        assert(split(joined, sep) =~= split(a, sep) + split(b, sep));
    }
}

/// Every byte of a string that is not the separator stands in one of its
/// pieces.
pub proof fn lemma_split_covers(s: Seq<u8>, sep: u8, k: int)
    requires
        0 <= k < s.len(),
        s[k] != sep,
    ensures
        exists|i: int, j: int|
            0 <= i < split(s, sep).len() && 0 <= j < split(s, sep)[i].len() && #[trigger] split(
                s,
                sep,
            )[i][j] == s[k],
    decreases s.len(),
{
    lemma_run_len_bounds(s, sep);
    let n = run_len(s, sep) as int;
    if k < n || n >= s.len() {
        assert(split(s, sep)[0][k] == s[k]);
    } else {
        let rest = s.skip(n + 1);
        assert(rest[k - n - 1] == s[k]);
        lemma_split_covers(rest, sep, k - n - 1);
        let (i, j) = choose|i: int, j: int|
            0 <= i < split(rest, sep).len() && 0 <= j < split(rest, sep)[i].len() && #[trigger] split(
                rest,
                sep,
            )[i][j] == s[k];
        assert(split(s, sep)[i + 1] == split(rest, sep)[i]);
        assert(split(s, sep)[i + 1][j] == s[k]);
    }
}

/// Finds the end of the piece that starts at `from`: the position of the
/// next `sep` at or after `from`, or `data.len()` when there is none.
pub fn piece_end(data: &[u8], from: usize, sep: u8) -> (end: usize)
    requires
        from <= data.len(),
    ensures
        from <= end <= data.len(),
        end - from == run_len(data@.skip(from as int), sep),
        forall|k: int| from <= k < end ==> data[k] != sep,
        end < data.len() ==> data[end as int] == sep,
{
    let mut end: usize = from;
    while end < data.len() && data[end] != sep
        invariant
            from <= end <= data.len(),
            forall|k: int| from <= k < end ==> data[k] != sep,
        decreases data.len() - end,
    {
        end += 1;
    }
    proof {
        let tail = data@.skip(from as int);
        assert forall|k: int| 0 <= k < end - from implies tail[k] != sep by {
            assert(tail[k] == data[from + k]);
        }
        lemma_run_len(tail, sep, end - from);
    }
    end
}

} // verus!
