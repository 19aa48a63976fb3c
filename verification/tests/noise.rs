use augustus::noise::{crest_variation_bits, grid_triangles, next_random_bits};

#[test]
fn xorshift_steps_match_known_values() {
    let mut state: u64 = 1;
    assert_eq!(next_random_bits(&mut state), 0);
    assert_eq!(state, 1_082_269_761);
    assert_eq!(next_random_bits(&mut state), 1_048_641);
    assert_eq!(state, 1_152_992_998_833_853_505);
}

#[test]
fn a_zero_state_never_sticks() {
    let mut state: u64 = 0;
    next_random_bits(&mut state);
    assert_eq!(state, 1);
}

#[test]
fn crest_variation_mixes_seed_cycle_and_channel() {
    assert_eq!(crest_variation_bits(12_345, 7), [1_520_814, 7_907_386, 2_590_527]);
    let samples = crest_variation_bits(12_345, 8);
    assert!(samples.iter().all(|bits| *bits < 1 << 24));
    assert_ne!(samples, crest_variation_bits(12_345, 7));
}

#[test]
fn water_grid_has_two_triangles_per_cell() {
    let indices = grid_triangles(3, 2);
    assert_eq!(indices, vec![0, 1, 4, 0, 4, 3, 1, 2, 5, 1, 5, 4]);
    assert_eq!(grid_triangles(4, 5).len(), (4 - 1) * (5 - 1) * 6);
    assert!(grid_triangles(1, 7).is_empty());
}

#[test]
fn wave_crests_disappear_before_reforming_with_a_new_shape() {
    let first = crest_variation_bits(1289, 0);
    let second = crest_variation_bits(1289, 1);
    let unit = 1u32 << 24;
    assert!(first.iter().zip(second).any(|(a, b)| a.abs_diff(b) as f64 > 0.2 * unit as f64));
    assert!(first.iter().chain(second.iter()).all(|bits| *bits < unit));
}
