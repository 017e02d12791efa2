use agent_resonance::pairs::pair_indices;
use agent_resonance::selection::select_pairs;

#[test]
fn pairs_of_empty_fleet() {
    assert!(pair_indices(0).is_empty());
}

#[test]
fn pairs_of_single_agent() {
    assert!(pair_indices(1).is_empty());
}

#[test]
fn pairs_of_two_agents() {
    assert_eq!(pair_indices(2), vec![(0, 1)]);
}

#[test]
fn pairs_of_three_agents() {
    assert_eq!(pair_indices(3), vec![(0, 1), (0, 2), (1, 2)]);
}

#[test]
fn pairs_of_four_agents_in_order() {
    assert_eq!(
        pair_indices(4),
        vec![(0, 1), (0, 2), (0, 3), (1, 2), (1, 3), (2, 3)]
    );
}

#[test]
fn pair_count_is_n_choose_two() {
    for n in 0..30usize {
        let pairs = pair_indices(n);
        assert_eq!(pairs.len(), n * n.saturating_sub(1) / 2);
        for &(i, j) in &pairs {
            assert!(i < j && j < n);
        }
        for w in pairs.windows(2) {
            assert!(w[0] < w[1]);
        }
    }
}

#[test]
fn select_keeps_flagged_pairs_in_order() {
    // three agents: a-b anti-phase, a-c aligned, b-c anti-phase
    let pairs = pair_indices(3);
    let constructive = select_pairs(&pairs, &vec![false, true, false]);
    assert_eq!(constructive, vec![(0, 2)]);
    let destructive = select_pairs(&pairs, &vec![true, false, true]);
    assert_eq!(destructive, vec![(0, 1), (1, 2)]);
}

#[test]
fn select_with_no_flags_is_empty() {
    let pairs = pair_indices(5);
    let none = vec![false; pairs.len()];
    assert!(select_pairs(&pairs, &none).is_empty());
}

#[test]
fn select_with_all_flags_is_identity() {
    let pairs = pair_indices(5);
    let all = vec![true; pairs.len()];
    assert_eq!(select_pairs(&pairs, &all), pairs);
}

#[test]
fn select_on_empty_fleet() {
    let pairs = pair_indices(0);
    assert!(select_pairs(&pairs, &vec![]).is_empty());
}
