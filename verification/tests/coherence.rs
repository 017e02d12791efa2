use agent_resonance::coherence::aligned_share;

#[test]
fn empty_fleet_has_no_share() {
    assert_eq!(aligned_share(0, &vec![]), None);
}

#[test]
fn single_agent_has_no_share() {
    assert_eq!(aligned_share(1, &vec![]), None);
}

#[test]
fn two_aligned_agents() {
    assert_eq!(aligned_share(2, &vec![true]), Some((1, 1)));
}

#[test]
fn two_unaligned_agents() {
    assert_eq!(aligned_share(2, &vec![false]), Some((0, 1)));
}

#[test]
fn partially_aligned_fleet() {
    assert_eq!(aligned_share(3, &vec![true, false, true]), Some((2, 3)));
    assert_eq!(
        aligned_share(4, &vec![true, false, false, false, false, true]),
        Some((2, 6))
    );
}
