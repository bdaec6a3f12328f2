use scf_stability::flat_index::flat_index;
use scf_stability::orbital::OrbitalSpace;
use scf_stability::slow_hessian::{rhf_slow_diagonal, rhf_slow_indices, SlowHessianIndices};

#[test]
fn flat_index_places_fast_index_innermost() {
    assert_eq!(flat_index(2, 3, 4, 5), 13);
    assert_eq!(flat_index(0, 0, 1, 1), 0);
    assert_eq!(flat_index(3, 4, 4, 5), 19);
}

#[test]
fn flat_index_covers_the_grid_once() {
    let mut seen = vec![false; 20];
    for slow in 0..4 {
        for fast in 0..5 {
            let k = flat_index(slow, fast, 4, 5);
            assert!(!seen[k]);
            seen[k] = true;
        }
    }
    assert!(seen.iter().all(|s| *s));
}

#[test]
fn orbital_space_from_homo_splits_states() {
    let space = OrbitalSpace::from_homo(2, 7);
    assert_eq!(space, OrbitalSpace { occ: 3, vir: 4 });
    assert_eq!(space.ov(), 12);
    let full = OrbitalSpace::from_homo(6, 7);
    assert_eq!(full, OrbitalSpace { occ: 7, vir: 0 });
    assert_eq!(full.ov(), 0);
}

#[test]
fn vo_index_is_virtual_outer_occupied_inner() {
    let space = OrbitalSpace { occ: 3, vir: 4 };
    assert_eq!(space.vo_index(0, 0), 0);
    assert_eq!(space.vo_index(0, 2), 2);
    assert_eq!(space.vo_index(1, 0), 3);
    assert_eq!(space.vo_index(1, 2), 5);
    assert_eq!(space.vo_index(3, 2), 11);
}

#[test]
fn vo_index_is_a_bijection_on_the_pair_grid() {
    let space = OrbitalSpace { occ: 3, vir: 4 };
    let mut seen = vec![false; space.ov()];
    for a in 0..space.vir {
        for i in 0..space.occ {
            let k = space.vo_index(a, i);
            assert!(!seen[k]);
            seen[k] = true;
            assert_eq!((k / space.occ, k % space.occ), (a, i));
        }
    }
    assert!(seen.iter().all(|s| *s));
}

#[test]
fn diagonal_pairs_follow_pair_order() {
    let space = OrbitalSpace { occ: 3, vir: 2 };
    let pairs = space.diagonal_pairs(&vec![10, 20], &vec![1, 2, 3]);
    assert_eq!(pairs, vec![(10, 1), (10, 2), (10, 3), (20, 1), (20, 2), (20, 3)]);
    for a in 0..2 {
        for i in 0..3 {
            assert_eq!(pairs[space.vo_index(a, i)], ([10, 20][a], [1, 2, 3][i]));
        }
    }
}

#[test]
fn diagonal_pairs_give_orbital_energy_differences() {
    let space = OrbitalSpace { occ: 2, vir: 2 };
    let fvv = vec![0.5_f64, 0.75];
    let foo = vec![-1.0_f64, -0.25];
    let hdiag: Vec<f64> = space.diagonal_pairs(&fvv, &foo).iter().map(|(v, o)| v - o).collect();
    assert_eq!(hdiag, vec![1.5, 0.75, 1.75, 1.0]);
}

#[test]
fn diagonal_pairs_of_empty_space_are_empty() {
    let space = OrbitalSpace { occ: 2, vir: 0 };
    let pairs: Vec<(u8, u8)> = space.diagonal_pairs(&vec![], &vec![7, 8]);
    assert!(pairs.is_empty());
}

#[test]
fn slow_indices_of_one_term() {
    let space = OrbitalSpace { occ: 2, vir: 3 };
    let idx = rhf_slow_indices(space, 1, 0, 2, 1);
    assert_eq!(
        idx,
        SlowHessianIndices { ia: 5, jb: 2, ab: 5, ij: 1, ib: 3, ja: 4, pos: 17 }
    );
}

#[test]
fn slow_indices_of_mirrored_term_are_transposed() {
    let space = OrbitalSpace { occ: 2, vir: 3 };
    let ov = space.ov();
    for i in 0..2 {
        for j in 0..2 {
            for a in 0..3 {
                for b in 0..3 {
                    let t = rhf_slow_indices(space, i, j, a, b);
                    let m = rhf_slow_indices(space, j, i, b, a);
                    assert_eq!((m.ia, m.jb, m.ib, m.ja), (t.jb, t.ia, t.ja, t.ib));
                    assert_eq!(m.ab, a * 3 + b);
                    assert_eq!(m.ij, i * 2 + j);
                    assert_eq!(m.pos, t.ia * ov + t.jb);
                    assert!(t.pos < ov * ov);
                }
            }
        }
    }
}

#[test]
fn slow_diagonal_positions() {
    let space = OrbitalSpace { occ: 2, vir: 3 };
    assert_eq!(rhf_slow_diagonal(space, 0), 0);
    assert_eq!(rhf_slow_diagonal(space, 1), 7);
    assert_eq!(rhf_slow_diagonal(space, 5), 35);
}
