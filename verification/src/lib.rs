//! The index-level core of agent resonance analysis.
//!
//! A fleet of agents is analysed pair by pair: every unordered pair of agents
//! is enumerated, pairs are kept or dropped according to a per-pair verdict,
//! the dominant agent is the one with the greatest amplitude, fleet coherence
//! is the share of aligned pairs, and each agent receives a tuning verdict.
//! The signal arithmetic itself (frequencies, phases, amplitudes) is carried
//! by the caller; this crate decides which agents and pairs the results are
//! about, and proves those decisions against their specifications.
pub mod pairs;
pub mod selection;
pub mod dominance;
pub mod coherence;
pub mod tuning;
