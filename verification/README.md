# rts_core

The verified core of a real-time Wikipedia recent-changes pipeline, in Verus.

- `src/` is the library. Every function in it carries a `requires`/`ensures`
  contract that Verus proves. It holds the leaderboards and their ranking, the
  fail-safe latency controller, the bounded rings, SSE line framing,
  reconnect back-off, routing and deadline decisions, the latency histograms,
  and the seeded synthetic event stream. Calls into `dashmap`,
  `crossbeam-queue`, `hdrhistogram` and `rand` go through small trusted
  wrappers whose contracts state what those crates document.
- `tests/` runs the library on concrete values.
- `app/` is the executable around it: the `async` and `threaded` pipelines,
  the comparison run, clock reads, network and file I/O, threads and tasks,
  and the floating-point percentile queries. It hands the library plain
  values and acts on the decisions the library returns.
