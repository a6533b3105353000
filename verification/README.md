# ddos_mitigation_tool

A packet-capture based DDoS detector and mitigator. It counts traffic per
one-second window, learns a baseline of packet rates, scores each window,
raises alerts by severity, blocks the busiest source for a configured time
and keeps runtime metrics.

Layout:

- `src/` — the library, written and proved with Verus: traffic statistics
  and rankings, packet description from parsed Ethernet frames, the baseline
  window, alert classification and history, the block list with expiry,
  firewall rule arguments, metrics, configuration parsing and alert
  analysis. Contracts are stated over mathematical models (`Seq`, `Map`,
  integers); laws that relate several operations are public proof functions.
  Floating-point scores are carried as IEEE 754 bit patterns and compared
  by a verified ordering on them.
- `app/` — the program around it: reading the environment, listing devices,
  the capture loop, file persistence with serde, the firewall command, and
  the floating-point statistics (mean, deviation, z-score, rates).
- `tests/` — tests of the library through its public interface.
