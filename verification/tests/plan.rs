use scf_stability::plan::{
    check_label, response_plan, stability_label, stability_plan, zero_exchange_shapes, Reference,
    ResponseTerm, StabilityCheck,
};

const RI: StabilityCheck = StabilityCheck { reference: Reference::Restricted, external: false };
const RE: StabilityCheck = StabilityCheck { reference: Reference::Restricted, external: true };
const UI: StabilityCheck = StabilityCheck { reference: Reference::Unrestricted, external: false };

#[test]
fn restricted_hartree_fock_runs_internal_then_external() {
    assert_eq!(stability_plan(1, false), vec![RI, RE]);
}

#[test]
fn restricted_functional_runs_internal_only() {
    assert_eq!(stability_plan(1, true), vec![RI]);
}

#[test]
fn unrestricted_runs_internal_only() {
    assert_eq!(stability_plan(2, false), vec![UI]);
    assert_eq!(stability_plan(2, true), vec![UI]);
}

#[test]
fn only_unrestricted_guess_is_perturbed() {
    assert!(!RI.breaks_guess_symmetry());
    assert!(!RE.breaks_guess_symmetry());
    assert!(UI.breaks_guess_symmetry());
}

#[test]
fn labels() {
    assert_eq!(check_label(false), "internal");
    assert_eq!(check_label(true), "external");
    assert_eq!(stability_label(true), "stable");
    assert_eq!(stability_label(false), "unstable");
}

#[test]
fn restricted_internal_response_is_coulomb_minus_half_exchange() {
    assert_eq!(
        response_plan(1, false, false, true, false),
        vec![
            ResponseTerm::Coulomb { target: 0, source: 0 },
            ResponseTerm::Exchange { spin: 0, halved: true },
        ]
    );
}

#[test]
fn restricted_external_response_is_exchange_only() {
    assert_eq!(
        response_plan(1, true, false, true, false),
        vec![ResponseTerm::Exchange { spin: 0, halved: true }]
    );
    assert_eq!(response_plan(1, true, false, false, false), vec![]);
}

#[test]
fn unrestricted_internal_response_couples_both_channels() {
    assert_eq!(
        response_plan(2, false, false, true, false),
        vec![
            ResponseTerm::Coulomb { target: 0, source: 0 },
            ResponseTerm::Coulomb { target: 0, source: 1 },
            ResponseTerm::Coulomb { target: 1, source: 1 },
            ResponseTerm::Coulomb { target: 1, source: 0 },
            ResponseTerm::Exchange { spin: 0, halved: false },
            ResponseTerm::Exchange { spin: 1, halved: false },
        ]
    );
}

#[test]
fn unrestricted_external_response_is_full_exchange() {
    assert_eq!(
        response_plan(2, true, false, true, false),
        vec![
            ResponseTerm::Exchange { spin: 0, halved: false },
            ResponseTerm::Exchange { spin: 1, halved: false },
        ]
    );
}

#[test]
fn pure_functional_response_has_no_exchange_and_adds_kernel() {
    assert_eq!(
        response_plan(1, false, true, false, true),
        vec![ResponseTerm::Coulomb { target: 0, source: 0 }, ResponseTerm::Kernel { spin: 0 }]
    );
}

#[test]
fn hybrid_functional_response() {
    assert_eq!(
        response_plan(1, false, true, true, true),
        vec![
            ResponseTerm::Coulomb { target: 0, source: 0 },
            ResponseTerm::Exchange { spin: 0, halved: true },
            ResponseTerm::Kernel { spin: 0 },
        ]
    );
}

#[test]
fn zero_exchange_shapes_follow_channels() {
    assert_eq!(zero_exchange_shapes(5, 1), vec![(5, 5), (0, 0)]);
    assert_eq!(zero_exchange_shapes(5, 2), vec![(5, 5), (5, 5)]);
}

#[test]
fn response_without_functional_is_hartree_fock_with_full_exchange() {
    for spin_channel in 1..=2 {
        for external in [false, true] {
            for has_grids in [false, true] {
                let plan = response_plan(spin_channel, external, false, true, has_grids);
                assert!(!plan.iter().any(|t| matches!(t, ResponseTerm::Kernel { .. })));
                let exchange = plan.iter().filter(|t| matches!(t, ResponseTerm::Exchange { .. })).count();
                assert_eq!(exchange, spin_channel);
            }
        }
    }
}
