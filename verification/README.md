# Kraftverk

Kraftverk measures a machine, tries small reversible changes to process-level
knobs (worker and rayon thread counts, priority, CPU affinity), benchmarks
each candidate against a baseline and keeps only what measurably helps. It
runs on AMD hardware only (policy `amd-only-v1`).

## Layout

- `src/` — the verified library (Verus). It holds the hardware eligibility
  policy and its exit codes, hot-plug rechecks, the interpretation of what
  sysfs, the Windows registry and `/proc/cpuinfo` report, machine reports and
  fingerprints, the optimization vocabulary (goals, modes, profiles, plugins,
  comparison classes), candidates and their content hashes, the hill-climb's
  neighborhood, ordering, stop rules and proposals, the bandit's arms,
  lineage selection, the native parameter table and the change plans for it,
  the recovery journal's transitions, evidence receipt checks, constraint
  findings and HTML escaping. SHA-256 (`sha2`) and hex rendering (`hex`) are
  called through two trusted wrappers in `src/digest.rs`; a candidate's
  metadata is an `indexmap::IndexMap`, filled through trusted wrappers in
  `src/candidate.rs`.
- `app/` — the desktop program around the library: OS reads (sysinfo, sysfs,
  registry, sensors), SQLite storage, serde forms of the library's types,
  floating-point statistics, the Kraft Index and the Bayesian and ε-greedy
  scoring, and the local web UI.
- `tests/` — tests of the library on concrete values.
