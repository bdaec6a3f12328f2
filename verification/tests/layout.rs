use scf_stability::layout::{density_scale, hessian_scale, HessianLayout};
use scf_stability::orbital::OrbitalSpace;

#[test]
fn admissible_rejects_what_has_no_layout() {
    assert!(HessianLayout::admissible(&vec![1], 4, 1));
    assert!(HessianLayout::admissible(&vec![1, 0], 4, 2));
    assert!(!HessianLayout::admissible(&vec![1, 0], 4, 3));
    assert!(!HessianLayout::admissible(&vec![1, 0], 4, 0));
    assert!(!HessianLayout::admissible(&vec![1], 4, 2));
    assert!(!HessianLayout::admissible(&vec![4], 4, 1));
    assert!(!HessianLayout::admissible(&vec![1, 4], 4, 2));
    assert!(!HessianLayout::admissible(&vec![usize::MAX / 2, 0], usize::MAX, 1));
    assert!(HessianLayout::admissible(&vec![0, 0], usize::MAX, 1));
    assert!(!HessianLayout::admissible(&vec![0, 0], usize::MAX, 2));
}

#[test]
fn one_channel_layout_has_an_empty_second_block() {
    let layout = HessianLayout::new(&vec![1, 5], 4, 1);
    assert_eq!(layout.space(0), OrbitalSpace { occ: 2, vir: 2 });
    assert_eq!(layout.space(1), OrbitalSpace { occ: 0, vir: 0 });
    assert_eq!(layout.dim(0), 4);
    assert_eq!(layout.dim(1), 0);
    assert_eq!(layout.total_dim(), 4);
    assert_eq!(layout.block_range(0), (0, 4));
    assert_eq!(layout.block_range(1), (4, 4));
}

#[test]
fn two_channel_layout_puts_alpha_first() {
    let layout = HessianLayout::new(&vec![1, 0], 4, 2);
    assert_eq!(layout.space(0), OrbitalSpace { occ: 2, vir: 2 });
    assert_eq!(layout.space(1), OrbitalSpace { occ: 1, vir: 3 });
    assert_eq!(layout.total_dim(), 7);
    assert_eq!(layout.block_range(0), (0, 4));
    assert_eq!(layout.block_range(1), (4, 7));
}

#[test]
fn blocks_of_a_concatenation_are_the_blocks() {
    let layout = HessianLayout::new(&vec![1, 0], 4, 2);
    let alpha = vec![1.0_f64, 2.0, 3.0, 4.0];
    let beta = vec![5.0_f64, 6.0, 7.0];
    let x = layout.concat_blocks(&vec![alpha.clone(), beta.clone()]);
    assert_eq!(x, vec![1.0, 2.0, 3.0, 4.0, 5.0, 6.0, 7.0]);
    assert_eq!(layout.block(&x, 0), alpha);
    assert_eq!(layout.block(&x, 1), beta);
}

#[test]
fn concatenation_of_the_blocks_is_the_vector() {
    let layout = HessianLayout::new(&vec![0, 1], 3, 2);
    let x: Vec<u32> = (0..4).collect();
    let blocks = vec![layout.block(&x, 0), layout.block(&x, 1)];
    assert_eq!(blocks, vec![vec![0, 1], vec![2, 3]]);
    assert_eq!(layout.concat_blocks(&blocks), x);
}

#[test]
fn one_channel_concatenation_is_the_alpha_block() {
    let layout = HessianLayout::new(&vec![0], 3, 1);
    let x = layout.concat_blocks(&vec![vec![9, 8], vec![]]);
    assert_eq!(x, vec![9, 8]);
    assert_eq!(layout.block(&x, 0), vec![9, 8]);
    assert!(layout.block(&x, 1).is_empty());
}

#[test]
fn hessian_scale_values() {
    assert_eq!(hessian_scale(1, false), 4);
    assert_eq!(hessian_scale(2, false), 2);
    assert_eq!(hessian_scale(1, true), 1);
    assert_eq!(hessian_scale(2, true), 1);
}

#[test]
fn density_scale_values() {
    assert_eq!(density_scale(1), 2);
    assert_eq!(density_scale(2), 1);
}

#[test]
fn blocks_ignore_entries_past_the_end() {
    let layout = HessianLayout::new(&vec![1, 0], 4, 2);
    let x: Vec<i32> = (0..10).collect();
    assert_eq!(layout.block(&x, 0), vec![0, 1, 2, 3]);
    assert_eq!(layout.block(&x, 1), vec![4, 5, 6]);
    let short: Vec<i32> = (0..5).collect();
    assert_eq!(layout.block(&short, 0), vec![0, 1, 2, 3]);
}
