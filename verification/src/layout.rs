//! The layout of the orbital-rotation vectors of the stability problem: one
//! block of virtual-occupied pairs per spin channel, the alpha block first.

use vstd::prelude::*;
use crate::orbital::OrbitalSpace;

verus! {

/// The orbital space of channel `s` for a reference whose highest occupied
/// orbitals are `homo`, or the empty space for a channel that is not used.
pub open spec fn channel_space(homo: Seq<usize>, num_state: usize, spin_channel: usize, s: int) -> OrbitalSpace {
    if s < spin_channel {
        OrbitalSpace { occ: (homo[s] + 1) as usize, vir: (num_state - (homo[s] + 1)) as usize }
    } else {
        OrbitalSpace { occ: 0, vir: 0 }
    }
}

/// The inputs for which the layout exists: one or two channels, a highest
/// occupied orbital for each below `num_state`, and pair counts (and their
/// sum) that fit the machine word.
pub open spec fn layout_admissible(homo: Seq<usize>, num_state: usize, spin_channel: usize) -> bool {
    &&& spin_channel == 1 || spin_channel == 2
    &&& homo.len() >= spin_channel
    &&& forall|s: int| 0 <= s < spin_channel ==> #[trigger] homo[s] < num_state
    &&& channel_space(homo, num_state, spin_channel, 0).fits()
    &&& channel_space(homo, num_state, spin_channel, 1).fits()
    &&& channel_space(homo, num_state, spin_channel, 0).ov_spec()
        + channel_space(homo, num_state, spin_channel, 1).ov_spec() <= usize::MAX
}

/// The accepted inputs, spelled out: one or two channels, enough highest
/// occupied orbitals, each below `num_state`, and pair counts
/// `(homo[s] + 1) * (num_state - homo[s] - 1)` whose sum fits the machine
/// word. No relation between occupied and virtual counts is asked.
pub open spec fn admissible_explicit(homo: Seq<usize>, num_state: usize, spin_channel: usize) -> bool {
    &&& spin_channel == 1 || spin_channel == 2
    &&& homo.len() >= spin_channel
    &&& homo[0] < num_state
    &&& spin_channel == 2 ==> homo[1] < num_state
    &&& (homo[0] + 1) * (num_state - homo[0] - 1)
        + (if spin_channel == 2 { (homo[1] + 1) * (num_state - homo[1] - 1) } else { 0 }) <= usize::MAX
}

/// The channel spaces take `homo[s] + 1` occupied orbitals and the rest of
/// the `num_state` orbitals as virtual, for each channel in use; an unused
/// channel is empty.
pub proof fn lemma_channel_space_explicit(homo: Seq<usize>, num_state: usize, spin_channel: usize, s: int)
    requires
        0 <= s < homo.len(),
        s < spin_channel,
        homo[s] < num_state,
    ensures
        channel_space(homo, num_state, spin_channel, s).occ == homo[s] + 1,
        channel_space(homo, num_state, spin_channel, s).vir == num_state - (homo[s] + 1),
{
}

/// The layout exists exactly for the inputs `admissible_explicit` spells out.
pub proof fn lemma_admissible_explicit(homo: Seq<usize>, num_state: usize, spin_channel: usize)
    ensures
        layout_admissible(homo, num_state, spin_channel) == admissible_explicit(homo, num_state, spin_channel),
{
    if (spin_channel == 1 || spin_channel == 2) && homo.len() >= spin_channel {
        let s0 = channel_space(homo, num_state, spin_channel, 0);
        let s1 = channel_space(homo, num_state, spin_channel, 1);
        if spin_channel == 1 {
            assert(s1.occ * s1.vir == 0) by (nonlinear_arith)
                requires s1.occ == 0;
        }
        if homo[0] < num_state && (spin_channel == 2 ==> homo[1] < num_state) {
            let a0 = (homo[0] + 1) * (num_state - homo[0] - 1);
            let a1 = if spin_channel == 2 { (homo[1] + 1) * (num_state - homo[1] - 1) } else { 0 };
            assert(s0.occ * s0.vir == a0);
            assert(s1.occ * s1.vir == a1);
            assert(0 <= s0.occ * s0.vir && 0 <= s1.occ * s1.vir) by (nonlinear_arith)
                requires 0 <= s0.occ, 0 <= s0.vir, 0 <= s1.occ, 0 <= s1.vir;
        }
        if layout_admissible(homo, num_state, spin_channel) {
            assert(homo[0] < num_state);
            if spin_channel == 2 {
                assert(homo[1] < num_state);
            }
        }
        if admissible_explicit(homo, num_state, spin_channel) {
            assert forall|s: int| 0 <= s < spin_channel implies #[trigger] homo[s] < num_state by {
                if s == 1 {
                    assert(homo[1] < num_state);
                }
            }
        }
    }
}

/// The block of channel `s` has `occ * vir` entries of that channel, the
/// alpha block starts at 0, the beta block right after it, and the whole
/// vector is as long as both pair counts together.
pub proof fn lemma_block_sizes(layout: HessianLayout)
    requires
        layout.wf(),
    ensures
        layout.dim_spec(0) == layout.spaces[0].occ * layout.spaces[0].vir,
        layout.dim_spec(1) == layout.spaces[1].occ * layout.spaces[1].vir,
        layout.start_spec(0) == 0,
        layout.start_spec(1) == layout.spaces[0].occ * layout.spaces[0].vir,
        layout.end_spec(1) == layout.total_spec(),
        layout.total_spec() == layout.spaces[0].occ * layout.spaces[0].vir
            + layout.spaces[1].occ * layout.spaces[1].vir,
{
}

/// Orbital spaces of the (one or two) spin channels and the blocks they
/// occupy in a flattened orbital-rotation vector.
pub struct HessianLayout {
    pub spin_channel: usize,
    /// Always two spaces; the second is empty for a single channel.
    pub spaces: Vec<OrbitalSpace>,
}

impl HessianLayout {
    pub open spec fn wf(&self) -> bool {
        &&& self.spin_channel == 1 || self.spin_channel == 2
        &&& self.spaces.len() == 2
        &&& self.spaces[0].fits()
        &&& self.spaces[1].fits()
        &&& self.spin_channel == 1 ==> self.spaces[1] == OrbitalSpace { occ: 0, vir: 0 }
        &&& self.spaces[0].ov_spec() + self.spaces[1].ov_spec() <= usize::MAX
    }

    /// The number of pairs of channel `s`.
    pub open spec fn dim_spec(&self, s: int) -> int {
        self.spaces[s].ov_spec()
    }

    /// The length of a whole orbital-rotation vector.
    pub open spec fn total_spec(&self) -> int {
        self.dim_spec(0) + self.dim_spec(1)
    }

    /// Where the block of channel `s` starts.
    pub open spec fn start_spec(&self, s: int) -> int {
        if s == 0 { 0 } else { self.dim_spec(0) }
    }

    /// Where the block of channel `s` ends.
    pub open spec fn end_spec(&self, s: int) -> int {
        self.start_spec(s) + self.dim_spec(s)
    }

    /// The block of channel `s` of the vector `x`.
    pub open spec fn block_spec<T>(&self, x: Seq<T>, s: int) -> Seq<T> {
        x.subrange(self.start_spec(s), self.end_spec(s))
    }

    /// Whether the layout exists for these inputs.
    pub fn admissible(homo: &Vec<usize>, num_state: usize, spin_channel: usize) -> (ok: bool)
        ensures
            ok == layout_admissible(homo@, num_state, spin_channel),
            ok == admissible_explicit(homo@, num_state, spin_channel),
    {
        proof {
            lemma_admissible_explicit(homo@, num_state, spin_channel);
        }
        if spin_channel != 1 && spin_channel != 2 {
            return false;
        }
        if homo.len() < spin_channel {
            return false;
        }
        let mut total: usize = 0;
        let mut s: usize = 0;
        while s < spin_channel
            invariant
                spin_channel == 1 || spin_channel == 2,
                homo.len() >= spin_channel,
                s <= spin_channel,
                forall|t: int| 0 <= t < s ==> #[trigger] homo@[t] < num_state,
                forall|t: int| 0 <= t < s ==> (#[trigger] channel_space(homo@, num_state, spin_channel, t)).fits(),
                total == (if s == 0 { 0 } else { channel_space(homo@, num_state, spin_channel, 0).ov_spec() })
                    + (if s <= 1 { 0 } else { channel_space(homo@, num_state, spin_channel, 1).ov_spec() }),
            decreases spin_channel - s,
        {
            if homo[s] >= num_state {
                return false;
            }
            let occ = homo[s] + 1;
            let vir = num_state - occ;
            let ov = match occ.checked_mul(vir) {
                Some(ov) => ov,
                None => {
                    assert(!channel_space(homo@, num_state, spin_channel, s as int).fits());
                    return false;
                },
            };
            total = match total.checked_add(ov) {
                Some(t) => t,
                None => {
                    return false;
                },
            };
            s = s + 1;
        }
        proof {
            if spin_channel == 1 {
                let z = channel_space(homo@, num_state, spin_channel, 1);
                assert(z == OrbitalSpace { occ: 0, vir: 0 });
                assert(z.occ * z.vir == 0) by (nonlinear_arith)
                    requires z.occ == 0;
            }
        }
        true
    }

    /// The layout of a reference with highest occupied orbitals `homo` among
    /// `num_state` orbitals in `spin_channel` channels.
    pub fn new(homo: &Vec<usize>, num_state: usize, spin_channel: usize) -> (layout: HessianLayout)
        requires
            layout_admissible(homo@, num_state, spin_channel),
        ensures
            layout.wf(),
            layout.spin_channel == spin_channel,
            layout.spaces[0] == channel_space(homo@, num_state, spin_channel, 0),
            layout.spaces[1] == channel_space(homo@, num_state, spin_channel, 1),
            layout.spaces[0].occ == homo@[0] + 1,
            layout.spaces[0].vir == num_state - (homo@[0] + 1),
            spin_channel == 2 ==> layout.spaces[1].occ == homo@[1] + 1
                && layout.spaces[1].vir == num_state - (homo@[1] + 1),
            spin_channel == 1 ==> layout.spaces[1].occ == 0 && layout.spaces[1].vir == 0,
    {
        assert(homo@[0] < num_state);
        let first = OrbitalSpace::from_homo(homo[0], num_state);
        let second = if spin_channel == 2 {
            assert(homo@[1] < num_state);
            OrbitalSpace::from_homo(homo[1], num_state)
        } else {
            OrbitalSpace { occ: 0, vir: 0 }
        };
        HessianLayout { spin_channel, spaces: vec![first, second] }
    }

    /// The orbital space of channel `s`.
    pub fn space(&self, s: usize) -> (space: OrbitalSpace)
        requires
            self.wf(),
            s < 2,
        ensures
            space == self.spaces[s as int],
    {
        self.spaces[s]
    }

    /// The number of pairs of channel `s`.
    pub fn dim(&self, s: usize) -> (n: usize)
        requires
            self.wf(),
            s < 2,
        ensures
            n == self.dim_spec(s as int),
            n == self.spaces[s as int].occ * self.spaces[s as int].vir,
    {
        self.spaces[s].ov()
    }

    /// The length of a whole orbital-rotation vector.
    pub fn total_dim(&self) -> (n: usize)
        requires
            self.wf(),
        ensures
            n == self.total_spec(),
            n == self.spaces[0].occ * self.spaces[0].vir + self.spaces[1].occ * self.spaces[1].vir,
    {
        self.spaces[0].ov() + self.spaces[1].ov()
    }

    /// The range `[start, end)` of the block of channel `s`.
    pub fn block_range(&self, s: usize) -> (range: (usize, usize))
        requires
            self.wf(),
            s < 2,
        ensures
            range.0 == self.start_spec(s as int),
            range.1 == self.end_spec(s as int),
            range.1 <= self.total_spec(),
            range.0 == (if s == 0 { 0 } else { self.spaces[0].occ * self.spaces[0].vir }),
            range.1 == range.0 + self.spaces[s as int].occ * self.spaces[s as int].vir,
    {
        let ov0 = self.spaces[0].ov();
        let ov1 = self.spaces[1].ov();
        let start = if s == 0 { 0 } else { ov0 };
        let end = if s == 0 { ov0 } else { ov0 + ov1 };
        (start, end)
    }

    /// The block of channel `s` of an orbital-rotation vector; entries past
    /// the end of the block are not read, so the vector may be longer.
    pub fn block<T: Copy>(&self, x: &Vec<T>, s: usize) -> (b: Vec<T>)
        requires
            self.wf(),
            s < 2,
            self.end_spec(s as int) <= x.len(),
        ensures
            b@ == self.block_spec(x@, s as int),
            b.len() == self.dim_spec(s as int),
            b.len() == self.spaces[s as int].occ * self.spaces[s as int].vir,
            b@ == x@.subrange(
                if s == 0 { 0 } else { self.spaces[0].occ * self.spaces[0].vir },
                (if s == 0 { 0 } else { self.spaces[0].occ * self.spaces[0].vir })
                    + self.spaces[s as int].occ * self.spaces[s as int].vir,
            ),
    {
        let (start, end) = self.block_range(s);
        let mut b: Vec<T> = Vec::new();
        let mut k = start;
        while k < end
            invariant
                start <= k <= end,
                end <= x.len(),
                b@ == x@.subrange(start as int, k as int),
            decreases end - k,
        {
            b.push(x[k]);
            k = k + 1;
        }
        b
    }

    /// The whole orbital-rotation vector made of the block of each channel,
    /// the alpha block first.
    pub fn concat_blocks<T: Copy>(&self, blocks: &Vec<Vec<T>>) -> (x: Vec<T>)
        requires
            self.wf(),
            blocks.len() == 2,
            blocks[0].len() == self.dim_spec(0),
            blocks[1].len() == self.dim_spec(1),
        ensures
            x@ == blocks[0]@ + blocks[1]@,
            x.len() == self.total_spec(),
            x.len() == self.spaces[0].occ * self.spaces[0].vir + self.spaces[1].occ * self.spaces[1].vir,
    {
        let mut x: Vec<T> = Vec::new();
        let mut s: usize = 0;
        while s < 2
            invariant
                blocks.len() == 2,
                s <= 2,
                x@ == if s == 0 { Seq::<T>::empty() } else if s == 1 { blocks[0]@ } else { blocks[0]@ + blocks[1]@ },
            decreases 2 - s,
        {
            let ghost before = x@;
            let block = &blocks[s];
            let mut k: usize = 0;
            while k < block.len()
                invariant
                    k <= block.len(),
                    x@ == before + block@.subrange(0, k as int),
                decreases block.len() - k,
            {
                x.push(block[k]);
                k = k + 1;
                assert(before + block@.subrange(0, k as int) =~= x@);
            }
            assert(block@.subrange(0, block.len() as int) =~= block@);
            s = s + 1;
        }
        x
    }
}

/// Taking the block of each channel of a concatenation gives back that
/// channel's block.
pub proof fn lemma_block_of_concat<T>(layout: HessianLayout, b0: Seq<T>, b1: Seq<T>)
    requires
        layout.wf(),
        b0.len() == layout.dim_spec(0),
        b1.len() == layout.dim_spec(1),
    ensures
        layout.block_spec(b0 + b1, 0) == b0,
        layout.block_spec(b0 + b1, 1) == b1,
{
    assert(layout.block_spec(b0 + b1, 0) =~= b0);
    assert(layout.block_spec(b0 + b1, 1) =~= b1);
}

/// Concatenating the blocks of a whole vector gives back the vector.
pub proof fn lemma_concat_of_blocks<T>(layout: HessianLayout, x: Seq<T>)
    requires
        layout.wf(),
        x.len() == layout.total_spec(),
    ensures
        layout.block_spec(x, 0) + layout.block_spec(x, 1) == x,
{
    assert(layout.block_spec(x, 0) + layout.block_spec(x, 1) =~= x);
}

/// The factor applied to the Hessian diagonal and to each Hessian-vector
/// product: 4 for an internal check of one channel, 2 for an internal check
/// of two channels, and none (1) for an external check.
pub fn hessian_scale(spin_channel: usize, external: bool) -> (f: u32)
    ensures
        f == (if external { 1u32 } else if spin_channel == 1 { 4u32 } else { 2u32 }),
{
    if external {
        1
    } else if spin_channel == 1 {
        4
    } else {
        2
    }
}

/// The factor on the transition density built from a trial vector: 2 for
/// one channel (both spins share the orbitals), 1 for two channels.
pub fn density_scale(spin_channel: usize) -> (f: u32)
    ensures
        f == (if spin_channel == 1 { 2u32 } else { 1u32 }),
{
    if spin_channel == 1 {
        2
    } else {
        1
    }
}

} // verus!
