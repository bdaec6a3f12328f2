//! Occupied and virtual orbital counts of one spin channel, and the
//! virtual-major pair index `a * occ + i` (virtual `a`, occupied `i`).
//!
//! This index orders the Hessian diagonal and the explicit assembly of the
//! A and B matrices. The gradient, the trial vectors and the Hessian-vector
//! products are instead `vir` by `occ` matrices stored column by column,
//! entry `(a, i)` at `a + i * vir`; the two orders agree only when `occ` or
//! `vir` is at most 1, and the diagonal is paired in virtual-major order as
//! it is.

use vstd::prelude::*;
use crate::flat_index::{flat, lemma_flat_in_range, lemma_flat_injective, lemma_flat_unflat};

verus! {

/// The occupied and virtual orbitals of one spin channel.
#[derive(Clone, Copy, Debug, PartialEq, Eq, Structural)]
pub struct OrbitalSpace {
    pub occ: usize,
    pub vir: usize,
}

impl OrbitalSpace {
    /// The number of virtual-occupied pairs, `occ * vir`.
    pub open spec fn ov_spec(self) -> int {
        self.occ * self.vir
    }

    /// The pair count fits the machine word.
    pub open spec fn fits(self) -> bool {
        self.occ * self.vir <= usize::MAX
    }

    /// The index of the pair (virtual `a`, occupied `i`): virtual outer,
    /// occupied inner, `a * occ + i`.
    pub open spec fn vo_spec(self, a: int, i: int) -> int {
        flat(a, i, self.occ as int)
    }

    /// The pair (virtual, occupied) whose index is `k`.
    pub open spec fn vo_pair_spec(self, k: int) -> (int, int) {
        (k / self.occ as int, k % self.occ as int)
    }

    /// The orbitals of a channel whose highest occupied orbital is `homo`
    /// among `num_state` orbitals: `homo + 1` occupied, the rest virtual.
    pub fn from_homo(homo: usize, num_state: usize) -> (space: OrbitalSpace)
        requires
            homo < num_state,
        ensures
            space.occ == homo + 1,
            space.vir == num_state - (homo + 1),
            space.occ + space.vir == num_state,
    {
        let occ = homo + 1;
        OrbitalSpace { occ, vir: num_state - occ }
    }

    /// The number of virtual-occupied pairs.
    pub fn ov(&self) -> (n: usize)
        requires
            self.fits(),
        ensures
            n == self.ov_spec(),
    {
        self.occ * self.vir
    }

    /// The index of the pair (virtual `a`, occupied `i`).
    pub fn vo_index(&self, a: usize, i: usize) -> (k: usize)
        requires
            a < self.vir,
            i < self.occ,
            self.fits(),
        ensures
            k == a * self.occ + i,
            k == self.vo_spec(a as int, i as int),
            k < self.occ * self.vir,
    {
        proof {
            lemma_flat_in_range(a as int, i as int, self.vir as int, self.occ as int);
            assert(self.vir * self.occ == self.occ * self.vir) by (nonlinear_arith);
        }
        a * self.occ + i
    }
}

impl OrbitalSpace {
    /// The pairs (virtual diagonal term, occupied diagonal term) in pair-index
    /// order: entry `a * occ + i` holds `(vdiag[a], odiag[i])`. The Hessian
    /// diagonal is the difference of each pair.
    pub fn diagonal_pairs<T: Copy>(&self, vdiag: &Vec<T>, odiag: &Vec<T>) -> (pairs: Vec<(T, T)>)
        requires
            self.fits(),
            vdiag.len() == self.vir,
            odiag.len() == self.occ,
        ensures
            pairs.len() == self.occ * self.vir,
            forall|a: int, i: int|
                #![trigger vdiag@[a], odiag@[i]]
                0 <= a < self.vir && 0 <= i < self.occ ==> pairs@[a * self.occ + i] == (vdiag@[a], odiag@[i]),
            forall|a: int, i: int|
                0 <= a < self.vir && 0 <= i < self.occ ==> #[trigger] pairs@[self.vo_spec(a, i)] == (
                vdiag@[a], odiag@[i]),
            forall|k: int|
                0 <= k < self.ov_spec() ==> #[trigger] pairs@[k] == (
                vdiag@[self.vo_pair_spec(k).0], odiag@[self.vo_pair_spec(k).1]),
    {
        let mut pairs: Vec<(T, T)> = Vec::new();
        let mut a: usize = 0;
        while a < self.vir
            invariant
                self.fits(),
                vdiag.len() == self.vir,
                odiag.len() == self.occ,
                a <= self.vir,
                pairs.len() == a * self.occ,
                forall|b: int, i: int|
                    0 <= b < a && 0 <= i < self.occ ==> #[trigger] pairs@[self.vo_spec(b, i)] == (
                    vdiag@[b], odiag@[i]),
            decreases self.vir - a,
        {
            let mut i: usize = 0;
            while i < self.occ
                invariant
                    self.fits(),
                    vdiag.len() == self.vir,
                    odiag.len() == self.occ,
                    a < self.vir,
                    i <= self.occ,
                    pairs.len() == a * self.occ + i,
                    forall|b: int, j: int|
                        0 <= b < a && 0 <= j < self.occ ==> #[trigger] pairs@[self.vo_spec(b, j)]
                            == (vdiag@[b], odiag@[j]),
                    forall|j: int| 0 <= j < i ==> #[trigger] pairs@[self.vo_spec(a as int, j)] == (
                        vdiag@[a as int], odiag@[j]),
                decreases self.occ - i,
            {
                proof {
                    lemma_flat_in_range(a as int, i as int, self.vir as int, self.occ as int);
                    assert(self.vir * self.occ == self.occ * self.vir) by (nonlinear_arith);
                }
                let ghost before = pairs@;
                pairs.push((vdiag[a], odiag[i]));
                proof {
                    assert forall|b: int, j: int| 0 <= b < a && 0 <= j < self.occ implies #[trigger] pairs@[self.vo_spec(b, j)]
                        == (vdiag@[b], odiag@[j]) by {
                        lemma_flat_in_range(b, j, a as int, self.occ as int);
                        assert(pairs@[self.vo_spec(b, j)] == before[self.vo_spec(b, j)]);
                    }
                }
                i = i + 1;
            }
            proof {
                assert(a * self.occ + self.occ == (a + 1) * self.occ) by (nonlinear_arith);
            }
            a = a + 1;
        }
        proof {
            assert(self.vir * self.occ == self.occ * self.vir) by (nonlinear_arith);
            lemma_vo_index_bijective(*self);
            assert forall|b: int, j: int|
                #![trigger vdiag@[b], odiag@[j]]
                0 <= b < self.vir && 0 <= j < self.occ implies pairs@[b * self.occ + j] == (vdiag@[b], odiag@[j]) by {
                assert(pairs@[self.vo_spec(b, j)] == (vdiag@[b], odiag@[j]));
            }
        }
        pairs
    }
}

/// The pair index is virtual-major: pair `(a, i)` sits at `a * occ + i`, and
/// index `k` holds the pair `(k / occ, k % occ)`.
pub proof fn lemma_vo_index_explicit(space: OrbitalSpace)
    ensures
        forall|a: int, i: int| #[trigger] space.vo_spec(a, i) == a * space.occ + i,
        forall|k: int| #[trigger] space.vo_pair_spec(k) == (k / space.occ as int, k % space.occ as int),
        space.ov_spec() == space.occ * space.vir,
{
}

/// The pair index is a bijection between the virtual-occupied grid and
/// `[0, occ * vir)`: every pair lands inside the range, distinct pairs land
/// on distinct indices, and every index is the index of the pair `vo_pair_spec(k)`.
pub proof fn lemma_vo_index_bijective(space: OrbitalSpace)
    ensures
        forall|a: int, i: int|
            0 <= a < space.vir && 0 <= i < space.occ ==> 0 <= #[trigger] space.vo_spec(a, i)
                < space.ov_spec(),
        forall|a1: int, i1: int, a2: int, i2: int|
            0 <= a1 < space.vir && 0 <= i1 < space.occ && 0 <= a2 < space.vir && 0 <= i2
                < space.occ && #[trigger] space.vo_spec(a1, i1) == #[trigger] space.vo_spec(a2, i2)
                ==> a1 == a2 && i1 == i2,
        forall|k: int|
            0 <= k < space.ov_spec() ==> {
                let (a, i) = #[trigger] space.vo_pair_spec(k);
                0 <= a < space.vir && 0 <= i < space.occ && space.vo_spec(a, i) == k
            },
{
    assert(space.vir * space.occ == space.occ * space.vir) by (nonlinear_arith);
    assert forall|a: int, i: int| 0 <= a < space.vir && 0 <= i < space.occ implies 0
        <= #[trigger] space.vo_spec(a, i) < space.ov_spec() by {
        lemma_flat_in_range(a, i, space.vir as int, space.occ as int);
    }
    assert forall|a1: int, i1: int, a2: int, i2: int|
        0 <= a1 < space.vir && 0 <= i1 < space.occ && 0 <= a2 < space.vir && 0 <= i2 < space.occ
            && #[trigger] space.vo_spec(a1, i1) == #[trigger] space.vo_spec(a2, i2) implies a1 == a2
        && i1 == i2 by {
        lemma_flat_injective(a1, i1, a2, i2, space.occ as int);
    }
    assert forall|k: int| 0 <= k < space.ov_spec() implies {
        let (a, i) = #[trigger] space.vo_pair_spec(k);
        0 <= a < space.vir && 0 <= i < space.occ && space.vo_spec(a, i) == k
    } by {
        if space.occ == 0 {
            assert(space.occ * space.vir == 0) by (nonlinear_arith)
                requires space.occ == 0;
        }
        lemma_flat_unflat(k, space.vir as int, space.occ as int);
    }
}

} // verus!
