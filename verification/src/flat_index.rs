//! Flattening of two-dimensional index pairs into one position, where the
//! second ("fast") index runs fastest.

use vstd::prelude::*;
use vstd::arithmetic::div_mod::lemma_fundamental_div_mod_converse;

verus! {

/// The position of `(slow, fast)` when `fast` runs over `fast_len` values.
pub open spec fn flat(slow: int, fast: int, fast_len: int) -> int {
    slow * fast_len + fast
}

/// A pair inside a `slow_len` by `fast_len` grid lands strictly inside the
/// flat range `[0, slow_len * fast_len)`.
pub proof fn lemma_flat_in_range(slow: int, fast: int, slow_len: int, fast_len: int)
    requires
        0 <= slow < slow_len,
        0 <= fast < fast_len,
    ensures
        0 <= flat(slow, fast, fast_len) < slow_len * fast_len,
{
    assert(0 <= slow * fast_len + fast < slow_len * fast_len) by (nonlinear_arith)
        requires
            0 <= slow < slow_len,
            0 <= fast < fast_len,
    ;
}

/// Dividing a flat position by `fast_len` gives back the pair it came from.
pub proof fn lemma_unflat_flat(slow: int, fast: int, fast_len: int)
    requires
        0 <= slow,
        0 <= fast < fast_len,
    ensures
        flat(slow, fast, fast_len) / fast_len == slow,
        flat(slow, fast, fast_len) % fast_len == fast,
{
    lemma_fundamental_div_mod_converse(flat(slow, fast, fast_len), fast_len, slow, fast);
}

/// Every position of the flat range is the flattening of exactly the pair
/// `(k / fast_len, k % fast_len)`, which lies inside the grid.
pub proof fn lemma_flat_unflat(k: int, slow_len: int, fast_len: int)
    requires
        0 <= k < slow_len * fast_len,
        0 < fast_len,
    ensures
        0 <= k / fast_len < slow_len,
        0 <= k % fast_len < fast_len,
        flat(k / fast_len, k % fast_len, fast_len) == k,
{
    assert(k == fast_len * (k / fast_len) + k % fast_len) by (nonlinear_arith)
        requires 0 < fast_len;
    assert(0 <= k / fast_len < slow_len) by (nonlinear_arith)
        requires
            0 <= k < slow_len * fast_len,
            0 < fast_len,
            k == fast_len * (k / fast_len) + k % fast_len,
            0 <= k % fast_len < fast_len,
    ;
    assert(flat(k / fast_len, k % fast_len, fast_len) == k) by (nonlinear_arith)
        requires k == fast_len * (k / fast_len) + k % fast_len;
}

/// Two pairs of the grid with the same flat position are the same pair.
pub proof fn lemma_flat_injective(s1: int, f1: int, s2: int, f2: int, fast_len: int)
    requires
        0 <= s1,
        0 <= s2,
        0 <= f1 < fast_len,
        0 <= f2 < fast_len,
        flat(s1, f1, fast_len) == flat(s2, f2, fast_len),
    ensures
        s1 == s2,
        f1 == f2,
{
    lemma_unflat_flat(s1, f1, fast_len);
    lemma_unflat_flat(s2, f2, fast_len);
}

/// The flat position of `(slow, fast)` in a `slow_len` by `fast_len` grid.
pub fn flat_index(slow: usize, fast: usize, slow_len: usize, fast_len: usize) -> (k: usize)
    requires
        slow < slow_len,
        fast < fast_len,
        slow_len * fast_len <= usize::MAX,
    ensures
        k == flat(slow as int, fast as int, fast_len as int),
        k < slow_len * fast_len,
{
    proof {
        lemma_flat_in_range(slow as int, fast as int, slow_len as int, fast_len as int);
    }
    slow * fast_len + fast
}

} // verus!
