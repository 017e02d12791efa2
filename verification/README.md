# agent_resonance

Resonance analysis for agent fleets: constructive and destructive
interference between agents, fleet coherence, and tuning advice.

- `src/` is the verified core. It works on agent indices and plain values:
  `pairs` enumerates every unordered pair of agents, `selection` keeps the
  pairs on which a per-pair verdict holds, `dominance` picks the dominant
  agent from amplitude order keys, `coherence` gives the aligned share of a
  fleet, and `tuning` maps the two tuning needs of an agent to its verdict
  and reason. Each function's contract, and the laws stated as proof
  functions, are checked by Verus.
- `app/` holds the floating-point signal model (frequencies, phases,
  amplitudes, sampling, interference factors, the weighted optimal
  frequency) and the public types built on it, which call the core for every
  decision about pairs, dominance, coherence and tuning verdicts.
- `tests/` runs the core on concrete fleets.
