//! Positions touched by the explicit (slow) assembly of the restricted
//! orbital Hessian blocks A and B, which are `ov` by `ov` matrices stored
//! column by column.

use vstd::prelude::*;
use crate::flat_index::{flat, lemma_flat_in_range};
use crate::orbital::OrbitalSpace;

verus! {

/// The positions used by one term `(i, j, a, b)` of the assembly, with `i`,
/// `j` occupied and `a`, `b` virtual.
#[derive(Clone, Copy, Debug, PartialEq, Eq, Structural)]
pub struct SlowHessianIndices {
    /// Pair (a, i) of the column.
    pub ia: usize,
    /// Pair (b, j) of the row.
    pub jb: usize,
    /// Entry (a, b) of the virtual-virtual factor.
    pub ab: usize,
    /// Entry (i, j) of the occupied-occupied factor.
    pub ij: usize,
    /// Pair (b, i) of the exchange-like factor of B.
    pub ib: usize,
    /// Pair (a, j) of the exchange-like factor of B.
    pub ja: usize,
    /// Entry (jb, ia) of A and B.
    pub pos: usize,
}

/// The Hessian blocks of this space fit the machine word.
pub open spec fn hessian_fits(space: OrbitalSpace) -> bool {
    space.fits() && space.ov_spec() * space.ov_spec() <= usize::MAX
}

/// The positions of term `(i, j, a, b)`.
pub fn rhf_slow_indices(space: OrbitalSpace, i: usize, j: usize, a: usize, b: usize) -> (idx: SlowHessianIndices)
    requires
        hessian_fits(space),
        i < space.occ,
        j < space.occ,
        a < space.vir,
        b < space.vir,
    ensures
        idx == slow_indices_spec(space, i as int, j as int, a as int, b as int),
        idx.ia == a * space.occ + i,
        idx.jb == b * space.occ + j,
        idx.ib == b * space.occ + i,
        idx.ja == a * space.occ + j,
        idx.ab == b * space.vir + a,
        idx.ij == j * space.occ + i,
        idx.pos == idx.jb * (space.occ * space.vir) + idx.ia,
        idx.ia == space.vo_spec(a as int, i as int),
        idx.jb == space.vo_spec(b as int, j as int),
        idx.ib == space.vo_spec(b as int, i as int),
        idx.ja == space.vo_spec(a as int, j as int),
        idx.ab == flat(b as int, a as int, space.vir as int),
        idx.ij == flat(j as int, i as int, space.occ as int),
        idx.pos == flat(idx.jb as int, idx.ia as int, space.ov_spec()),
        idx.ia < space.ov_spec(),
        idx.jb < space.ov_spec(),
        idx.ib < space.ov_spec(),
        idx.ja < space.ov_spec(),
        idx.ab < space.vir * space.vir,
        idx.ij < space.occ * space.occ,
        idx.pos < space.ov_spec() * space.ov_spec(),
{
    let ov = space.ov();
    proof {
        let o = space.occ as int;
        let v = space.vir as int;
        assert(v * v <= (o * v) * (o * v) && o * o <= (o * v) * (o * v)) by (nonlinear_arith)
            requires 1 <= o, 1 <= v;
        lemma_flat_in_range(b as int, a as int, v, v);
        lemma_flat_in_range(j as int, i as int, o, o);
    }
    let ia = space.vo_index(a, i);
    let jb = space.vo_index(b, j);
    let ib = space.vo_index(b, i);
    let ja = space.vo_index(a, j);
    proof {
        lemma_flat_in_range(jb as int, ia as int, ov as int, ov as int);
    }
    SlowHessianIndices {
        ia,
        jb,
        ab: b * space.vir + a,
        ij: j * space.occ + i,
        ib,
        ja,
        pos: jb * ov + ia,
    }
}

/// The position of the diagonal entry (ia, ia) of A.
pub fn rhf_slow_diagonal(space: OrbitalSpace, ia: usize) -> (pos: usize)
    requires
        hessian_fits(space),
        ia < space.ov_spec(),
    ensures
        pos == ia * (space.occ * space.vir) + ia,
        pos == flat(ia as int, ia as int, space.ov_spec()),
        pos < space.ov_spec() * space.ov_spec(),
{
    let ov = space.ov();
    proof {
        lemma_flat_in_range(ia as int, ia as int, ov as int, ov as int);
    }
    ia * ov + ia
}

/// The positions of term `(i, j, a, b)`, as a value.
pub open spec fn slow_indices_spec(space: OrbitalSpace, i: int, j: int, a: int, b: int) -> SlowHessianIndices {
    SlowHessianIndices {
        ia: space.vo_spec(a, i) as usize,
        jb: space.vo_spec(b, j) as usize,
        ab: flat(b, a, space.vir as int) as usize,
        ij: flat(j, i, space.occ as int) as usize,
        ib: space.vo_spec(b, i) as usize,
        ja: space.vo_spec(a, j) as usize,
        pos: flat(space.vo_spec(b, j), space.vo_spec(a, i), space.ov_spec()) as usize,
    }
}

/// The assembly is symmetric: the mirrored term `(j, i, b, a)` writes the
/// transposed entry of A and B, reads the transposed entries of the
/// virtual-virtual and occupied-occupied factors, and the same two pair
/// entries for B (in swapped roles).
pub proof fn lemma_slow_indices_transpose(space: OrbitalSpace, i: int, j: int, a: int, b: int)
    requires
        hessian_fits(space),
        0 <= i < space.occ,
        0 <= j < space.occ,
        0 <= a < space.vir,
        0 <= b < space.vir,
    ensures
        ({
            let t = slow_indices_spec(space, i, j, a, b);
            let m = slow_indices_spec(space, j, i, b, a);
            &&& m.ia == t.jb
            &&& m.jb == t.ia
            &&& m.ib == t.ja
            &&& m.ja == t.ib
            &&& m.ab == flat(a, b, space.vir as int)
            &&& m.ij == flat(i, j, space.occ as int)
            &&& m.pos == flat(space.vo_spec(a, i), space.vo_spec(b, j), space.ov_spec())
        }),
{
    let o = space.occ as int;
    let v = space.vir as int;
    assert(v * v <= (o * v) * (o * v) && o * o <= (o * v) * (o * v)) by (nonlinear_arith)
        requires 1 <= o, 1 <= v;
    lemma_flat_in_range(a, b, v, v);
    lemma_flat_in_range(i, j, o, o);
    assert(v * o == o * v) by (nonlinear_arith);
    lemma_flat_in_range(a, i, v, o);
    lemma_flat_in_range(b, j, v, o);
    lemma_flat_in_range(space.vo_spec(a, i), space.vo_spec(b, j), o * v, o * v);
}

} // verus!
