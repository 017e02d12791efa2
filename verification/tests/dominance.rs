use agent_resonance::dominance::dominant_index;

#[test]
fn no_dominant_member_of_empty_fleet() {
    assert_eq!(dominant_index(&vec![]), None);
}

#[test]
fn single_member_dominates() {
    assert_eq!(dominant_index(&vec![7]), Some(0));
}

#[test]
fn greatest_key_dominates() {
    // amplitudes 1.0, 0.8, 0.5: positive floats order as their bit patterns
    let keys = vec![1.0f64.to_bits(), 0.8f64.to_bits(), 0.5f64.to_bits()];
    assert_eq!(dominant_index(&keys), Some(0));
    assert_eq!(dominant_index(&vec![3, 9, 4]), Some(1));
    assert_eq!(dominant_index(&vec![3, 4, 9]), Some(2));
}

#[test]
fn last_of_equal_keys_dominates() {
    assert_eq!(dominant_index(&vec![5, 5]), Some(1));
    assert_eq!(dominant_index(&vec![2, 9, 1, 9, 3]), Some(3));
    assert_eq!(dominant_index(&vec![u64::MAX, 0, u64::MAX]), Some(2));
}
