use agent_resonance::tuning::TuningVerdict;

#[test]
fn verdict_from_needs() {
    assert_eq!(TuningVerdict::from_needs(true, true), TuningVerdict::OutOfTuneAndPhase);
    assert_eq!(TuningVerdict::from_needs(true, false), TuningVerdict::FrequencyOff);
    assert_eq!(TuningVerdict::from_needs(false, true), TuningVerdict::PhaseOff);
    assert_eq!(TuningVerdict::from_needs(false, false), TuningVerdict::WellTuned);
}

#[test]
fn verdict_round_trips_its_needs() {
    for f in [false, true] {
        for p in [false, true] {
            let v = TuningVerdict::from_needs(f, p);
            assert_eq!(v.needs_frequency(), f);
            assert_eq!(v.needs_phase(), p);
        }
    }
}

#[test]
fn reasons() {
    assert_eq!(
        TuningVerdict::OutOfTuneAndPhase.reason(),
        "Agent is out of tune and out of phase with fleet"
    );
    assert_eq!(
        TuningVerdict::FrequencyOff.reason(),
        "Agent frequency needs adjustment to match fleet"
    );
    assert_eq!(TuningVerdict::PhaseOff.reason(), "Agent phase needs alignment with fleet");
    assert_eq!(TuningVerdict::WellTuned.reason(), "Agent is well-tuned");
}

#[test]
fn off_frequency_reason_mentions_tuning() {
    // an agent far from the target frequency, whatever its phase
    for p in [false, true] {
        let reason = TuningVerdict::from_needs(true, p).reason();
        assert!(reason.contains("out of tune") || reason.contains("needs adjustment"));
    }
}
