//! Which stability checks are run for a reference, how their outcome is
//! reported, and which Coulomb, exchange and kernel terms make up the
//! orbital response to a trial density.

use vstd::prelude::*;

verus! {

/// The kind of reference determinant.
#[derive(Clone, Copy, Debug, PartialEq, Eq, Structural)]
pub enum Reference {
    /// One set of orbitals shared by both spins (one spin channel).
    Restricted,
    /// Separate alpha and beta orbitals.
    Unrestricted,
}

/// One stability check: the Hessian of the given reference, for rotations
/// that keep its kind (internal) or leave it (external, the restricted to
/// unrestricted instability).
#[derive(Clone, Copy, Debug, PartialEq, Eq, Structural)]
pub struct StabilityCheck {
    pub reference: Reference,
    pub external: bool,
}

impl StabilityCheck {
    /// Whether the first entry of the initial guess is raised to break the
    /// symmetry of the guess; done for the unrestricted check.
    pub fn breaks_guess_symmetry(&self) -> (b: bool)
        ensures
            b == (self.reference == Reference::Unrestricted),
    {
        match self.reference {
            Reference::Restricted => false,
            Reference::Unrestricted => true,
        }
    }
}

/// The checks run, in order: for one channel the internal check and, unless
/// a density functional is used, the external one; for two channels the
/// internal unrestricted check.
pub open spec fn stability_plan_spec(spin_channel: usize, is_dfa: bool) -> Seq<StabilityCheck> {
    if spin_channel == 1 {
        if is_dfa {
            seq![StabilityCheck { reference: Reference::Restricted, external: false }]
        } else {
            seq![
                StabilityCheck { reference: Reference::Restricted, external: false },
                StabilityCheck { reference: Reference::Restricted, external: true },
            ]
        }
    } else {
        seq![StabilityCheck { reference: Reference::Unrestricted, external: false }]
    }
}

/// The checks run for a reference with `spin_channel` channels.
pub fn stability_plan(spin_channel: usize, is_dfa: bool) -> (plan: Vec<StabilityCheck>)
    ensures
        plan@ == stability_plan_spec(spin_channel, is_dfa),
{
    let mut plan: Vec<StabilityCheck> = Vec::new();
    if spin_channel == 1 {
        plan.push(StabilityCheck { reference: Reference::Restricted, external: false });
        if !is_dfa {
            plan.push(StabilityCheck { reference: Reference::Restricted, external: true });
        }
    } else {
        plan.push(StabilityCheck { reference: Reference::Unrestricted, external: false });
    }
    proof {
        assert(plan@ =~= stability_plan_spec(spin_channel, is_dfa));
    }
    plan
}

/// Every plan starts with the internal check of the reference's own kind,
/// and an external check is run exactly for a restricted reference without
/// a density functional, after the internal one.
pub proof fn lemma_stability_plan_shape(spin_channel: usize, is_dfa: bool)
    ensures
        ({
            let plan = stability_plan_spec(spin_channel, is_dfa);
            let reference = if spin_channel == 1 { Reference::Restricted } else { Reference::Unrestricted };
            &&& 1 <= plan.len() <= 2
            &&& plan[0] == StabilityCheck { reference, external: false }
            &&& forall|k: int| 0 <= k < plan.len() ==> (#[trigger] plan[k]).reference == reference
            &&& (exists|k: int| 0 <= k < plan.len() && (#[trigger] plan[k]).external)
                <==> (spin_channel == 1 && !is_dfa)
            &&& plan.len() == 2 ==> plan[1].external
        }),
{
    let plan = stability_plan_spec(spin_channel, is_dfa);
    if spin_channel == 1 && !is_dfa {
        assert(plan[1].external);
    }
}

/// The word that names a check in the report.
pub fn check_label(external: bool) -> (label: &'static str)
    ensures
        label@ == (if external { "external"@ } else { "internal"@ }),
{
    if external {
        "external"
    } else {
        "internal"
    }
}

/// The word that reports the outcome of a check.
pub fn stability_label(stable: bool) -> (label: &'static str)
    ensures
        label@ == (if stable { "stable"@ } else { "unstable"@ }),
{
    if stable {
        "stable"
    } else {
        "unstable"
    }
}

/// One term of the response potential to a trial density.
#[derive(Clone, Copy, Debug, PartialEq, Eq, Structural)]
pub enum ResponseTerm {
    /// Add the Coulomb potential of the density of channel `source` to the
    /// response of channel `target`.
    Coulomb { target: usize, source: usize },
    /// Add the exchange potential of channel `spin` times `-hyb / 2` when
    /// `halved`, else times `-hyb`, where `hyb` is the exact-exchange share.
    Exchange { spin: usize, halved: bool },
    /// Add the exchange-correlation kernel response of channel `spin`.
    Kernel { spin: usize },
}

/// The configurations for which a response exists: one or two channels, and
/// with a density functional only the internal check of one channel on a
/// grid.
pub open spec fn response_supported(spin_channel: usize, external: bool, is_dfa: bool, has_grids: bool) -> bool {
    &&& spin_channel == 1 || spin_channel == 2
    &&& is_dfa ==> (spin_channel == 1 && !external && has_grids)
}

/// The exchange terms: one per channel, halved for one channel, none when
/// there is no exact exchange.
pub open spec fn exchange_terms_spec(spin_channel: usize, has_exchange: bool) -> Seq<ResponseTerm> {
    if !has_exchange {
        seq![]
    } else if spin_channel == 1 {
        seq![ResponseTerm::Exchange { spin: 0, halved: true }]
    } else {
        seq![
            ResponseTerm::Exchange { spin: 0, halved: false },
            ResponseTerm::Exchange { spin: 1, halved: false },
        ]
    }
}

/// The Coulomb terms: none for an external check; for an internal check each
/// channel takes the Coulomb potential of every channel, its own first.
pub open spec fn coulomb_terms_spec(spin_channel: usize, external: bool) -> Seq<ResponseTerm> {
    if external {
        seq![]
    } else if spin_channel == 1 {
        seq![ResponseTerm::Coulomb { target: 0, source: 0 }]
    } else {
        seq![
            ResponseTerm::Coulomb { target: 0, source: 0 },
            ResponseTerm::Coulomb { target: 0, source: 1 },
            ResponseTerm::Coulomb { target: 1, source: 1 },
            ResponseTerm::Coulomb { target: 1, source: 0 },
        ]
    }
}

/// The whole response: Coulomb terms, exchange terms, then the kernel term
/// of a density functional.
pub open spec fn response_plan_spec(spin_channel: usize, external: bool, is_dfa: bool, has_exchange: bool) -> Seq<ResponseTerm> {
    let hf = coulomb_terms_spec(spin_channel, external) + exchange_terms_spec(spin_channel, has_exchange);
    if is_dfa { hf.push(ResponseTerm::Kernel { spin: 0 }) } else { hf }
}

/// The terms of the response for a check, where `has_exchange` says whether
/// the exact-exchange share is nonzero.
pub fn response_plan(spin_channel: usize, external: bool, is_dfa: bool, has_exchange: bool, has_grids: bool) -> (plan: Vec<ResponseTerm>)
    requires
        response_supported(spin_channel, external, is_dfa, has_grids),
    ensures
        plan@ == response_plan_spec(spin_channel, external, is_dfa, has_exchange),
{
    let mut plan: Vec<ResponseTerm> = Vec::new();
    if !external {
        plan.push(ResponseTerm::Coulomb { target: 0, source: 0 });
        if spin_channel == 2 {
            plan.push(ResponseTerm::Coulomb { target: 0, source: 1 });
            plan.push(ResponseTerm::Coulomb { target: 1, source: 1 });
            plan.push(ResponseTerm::Coulomb { target: 1, source: 0 });
        }
    }
    if has_exchange {
        if spin_channel == 1 {
            plan.push(ResponseTerm::Exchange { spin: 0, halved: true });
        } else {
            plan.push(ResponseTerm::Exchange { spin: 0, halved: false });
            plan.push(ResponseTerm::Exchange { spin: 1, halved: false });
        }
    }
    if is_dfa {
        plan.push(ResponseTerm::Kernel { spin: 0 });
    }
    proof {
        assert(plan@ =~= response_plan_spec(spin_channel, external, is_dfa, has_exchange));
    }
    plan
}

/// The channel a term adds to.
pub open spec fn term_target(t: ResponseTerm) -> int {
    match t {
        ResponseTerm::Coulomb { target, .. } => target as int,
        ResponseTerm::Exchange { spin, .. } => spin as int,
        ResponseTerm::Kernel { spin } => spin as int,
    }
}

/// The properties of every response: all channels named exist; exchange
/// appears exactly when there is exact exchange, halved exactly for one
/// channel; Coulomb appears exactly for internal checks, each channel then
/// taking the Coulomb potential of every channel; the kernel appears exactly
/// for a density functional.
pub proof fn lemma_response_plan_shape(spin_channel: usize, external: bool, is_dfa: bool, has_exchange: bool, has_grids: bool)
    requires
        response_supported(spin_channel, external, is_dfa, has_grids),
    ensures
        ({
            let plan = response_plan_spec(spin_channel, external, is_dfa, has_exchange);
            &&& forall|k: int| 0 <= k < plan.len() ==> 0 <= term_target(#[trigger] plan[k]) < spin_channel
            &&& forall|k: int| 0 <= k < plan.len() ==> (#[trigger] plan[k] matches ResponseTerm::Coulomb { source, .. } ==> source < spin_channel)
            &&& (exists|k: int| 0 <= k < plan.len() && #[trigger] plan[k] is Exchange) <==> has_exchange
            &&& forall|k: int| 0 <= k < plan.len() ==> (#[trigger] plan[k] matches ResponseTerm::Exchange { halved, .. } ==> halved == (spin_channel == 1))
            &&& (exists|k: int| 0 <= k < plan.len() && #[trigger] plan[k] is Coulomb) <==> !external
            &&& !external ==> forall|t: usize, s: usize| t < spin_channel && s < spin_channel ==> plan.contains(ResponseTerm::Coulomb { target: t, source: s })
            &&& (exists|k: int| 0 <= k < plan.len() && #[trigger] plan[k] is Kernel) <==> is_dfa
        }),
{
    let plan = response_plan_spec(spin_channel, external, is_dfa, has_exchange);
    let c = coulomb_terms_spec(spin_channel, external);
    let x = exchange_terms_spec(spin_channel, has_exchange);
    let hf = c + x;
    assert(forall|k: int| 0 <= k < c.len() ==> plan[k] == c[k]);
    assert(forall|k: int| 0 <= k < x.len() ==> plan[c.len() + k] == x[k]);
    if has_exchange {
        assert(plan[c.len() as int] is Exchange);
    }
    if !external {
        assert(plan[0] is Coulomb);
        assert forall|t: usize, s: usize| t < spin_channel && s < spin_channel implies plan.contains(ResponseTerm::Coulomb { target: t, source: s }) by {
            if spin_channel == 1 {
                assert(plan[0] == ResponseTerm::Coulomb { target: t, source: s });
            } else {
                let k: int = if t == 0 && s == 0 { 0 } else if t == 0 { 1 } else if s == 1 { 2 } else { 3 };
                assert(plan[k] == ResponseTerm::Coulomb { target: t, source: s });
            }
        }
    }
    if is_dfa {
        assert(plan[hf.len() as int] is Kernel);
    }
}

/// Without a density functional the response is the Hartree-Fock response
/// with full exact exchange: the Coulomb terms, then one exchange term per
/// channel, and no kernel term.
pub proof fn lemma_response_without_functional(spin_channel: usize, external: bool, has_grids: bool)
    requires
        response_supported(spin_channel, external, false, has_grids),
    ensures
        ({
            let plan = response_plan_spec(spin_channel, external, false, true);
            let halved = spin_channel == 1;
            &&& plan == coulomb_terms_spec(spin_channel, external) + exchange_terms_spec(spin_channel, true)
            &&& exchange_terms_spec(spin_channel, true).len() == spin_channel
            &&& forall|s: usize| s < spin_channel ==> #[trigger] plan.contains(ResponseTerm::Exchange { spin: s, halved })
            &&& forall|k: int| 0 <= k < plan.len() ==> !(#[trigger] plan[k] is Kernel)
        }),
{
    let plan = response_plan_spec(spin_channel, external, false, true);
    let c = coulomb_terms_spec(spin_channel, external);
    let x = exchange_terms_spec(spin_channel, true);
    let halved = spin_channel == 1;
    assert(forall|k: int| 0 <= k < x.len() ==> plan[c.len() + k] == x[k]);
    assert forall|s: usize| s < spin_channel implies #[trigger] plan.contains(ResponseTerm::Exchange { spin: s, halved }) by {
        assert(x[s as int] == ResponseTerm::Exchange { spin: s, halved });
        assert(plan[c.len() + s] == x[s as int]);
    }
}

/// The shapes of the zero exchange response returned when the exchange share
/// is zero: a square matrix for the first channel, and for the second one a
/// square matrix with two channels, an empty one otherwise.
pub fn zero_exchange_shapes(num_basis: usize, spin_channel: usize) -> (shapes: Vec<(usize, usize)>)
    ensures
        shapes@ == seq![(num_basis, num_basis), if spin_channel == 2 { (num_basis, num_basis) } else { (0usize, 0usize) }],
{
    let mut shapes: Vec<(usize, usize)> = Vec::new();
    shapes.push((num_basis, num_basis));
    if spin_channel == 2 {
        shapes.push((num_basis, num_basis));
    } else {
        shapes.push((0, 0));
    }
    proof {
        assert(shapes@ =~= seq![(num_basis, num_basis), if spin_channel == 2 { (num_basis, num_basis) } else { (0usize, 0usize) }]);
    }
    shapes
}

} // verus!
