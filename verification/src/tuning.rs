//! The tuning verdict for one agent: whether its frequency and its phase
//! need adjusting, and the reason given for it.
use vstd::prelude::*;

verus! {

/// What a tuning suggestion asks of an agent.
#[derive(Clone, Copy, Debug, PartialEq, Eq, Structural)]
pub enum TuningVerdict {
    /// Both the frequency and the phase need adjusting.
    OutOfTuneAndPhase,
    /// Only the frequency needs adjusting.
    FrequencyOff,
    /// Only the phase needs adjusting.
    PhaseOff,
    /// Nothing needs adjusting.
    WellTuned,
}

impl TuningVerdict {
    /// The verdict asks for a frequency adjustment.
    pub open spec fn asks_frequency(self) -> bool {
        self is OutOfTuneAndPhase || self is FrequencyOff
    }

    /// The verdict asks for a phase adjustment.
    pub open spec fn asks_phase(self) -> bool {
        self is OutOfTuneAndPhase || self is PhaseOff
    }

    /// The reason text given with the verdict.
    pub open spec fn reason_text(self) -> Seq<char> {
        match self {
            TuningVerdict::OutOfTuneAndPhase => "Agent is out of tune and out of phase with fleet"@,
            TuningVerdict::FrequencyOff => "Agent frequency needs adjustment to match fleet"@,
            TuningVerdict::PhaseOff => "Agent phase needs alignment with fleet"@,
            TuningVerdict::WellTuned => "Agent is well-tuned"@,
        }
    }

    /// The verdict for an agent whose frequency does or does not need
    /// adjusting, and whose phase does or does not.
    pub fn from_needs(needs_frequency: bool, needs_phase: bool) -> (verdict: TuningVerdict)
        ensures
            verdict.asks_frequency() == needs_frequency,
            verdict.asks_phase() == needs_phase,
    {
        match (needs_frequency, needs_phase) {
            (true, true) => TuningVerdict::OutOfTuneAndPhase,
            (true, false) => TuningVerdict::FrequencyOff,
            (false, true) => TuningVerdict::PhaseOff,
            (false, false) => TuningVerdict::WellTuned,
        }
    }

    /// Whether the suggestion moves the agent to the target frequency.
    pub fn needs_frequency(&self) -> (needed: bool)
        ensures
            needed == self.asks_frequency(),
    {
        match self {
            TuningVerdict::OutOfTuneAndPhase | TuningVerdict::FrequencyOff => true,
            _ => false,
        }
    }

    /// Whether the suggestion moves the agent to the reference phase.
    pub fn needs_phase(&self) -> (needed: bool)
        ensures
            needed == self.asks_phase(),
    {
        match self {
            TuningVerdict::OutOfTuneAndPhase | TuningVerdict::PhaseOff => true,
            _ => false,
        }
    }

    /// The reason given with the verdict.
    pub fn reason(&self) -> (text: String)
        ensures
            text@ == self.reason_text(),
    {
        match self {
            TuningVerdict::OutOfTuneAndPhase => "Agent is out of tune and out of phase with fleet".to_owned(),
            TuningVerdict::FrequencyOff => "Agent frequency needs adjustment to match fleet".to_owned(),
            TuningVerdict::PhaseOff => "Agent phase needs alignment with fleet".to_owned(),
            TuningVerdict::WellTuned => "Agent is well-tuned".to_owned(),
        }
    }
}

/// A verdict is determined by the two adjustments it asks for: two verdicts
/// that ask for the same adjustments are the same verdict.
pub proof fn lemma_verdict_determined(v: TuningVerdict, w: TuningVerdict)
    requires
        v.asks_frequency() == w.asks_frequency(),
        v.asks_phase() == w.asks_phase(),
    ensures
        v == w,
{
}

/// Distinct verdicts give distinct reasons.
pub proof fn lemma_reasons_distinct(v: TuningVerdict, w: TuningVerdict)
    requires
        v != w,
    ensures
        v.reason_text() != w.reason_text(),
{
    reveal_strlit("Agent is out of tune and out of phase with fleet");
    reveal_strlit("Agent frequency needs adjustment to match fleet");
    reveal_strlit("Agent phase needs alignment with fleet");
    reveal_strlit("Agent is well-tuned");
    assert("Agent is out of tune and out of phase with fleet"@[6] != "Agent frequency needs adjustment to match fleet"@[6]);
    assert("Agent is out of tune and out of phase with fleet"@[6] != "Agent phase needs alignment with fleet"@[6]);
    assert("Agent is out of tune and out of phase with fleet"@.len() != "Agent is well-tuned"@.len());
    assert("Agent frequency needs adjustment to match fleet"@[6] != "Agent phase needs alignment with fleet"@[6]);
    assert("Agent frequency needs adjustment to match fleet"@[6] != "Agent is well-tuned"@[6]);
    assert("Agent phase needs alignment with fleet"@[6] != "Agent is well-tuned"@[6]);
}

} // verus!
