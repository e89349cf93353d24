# savanna_smell_detector

A test-smell detector for Rust, shell (Bash/Bats), Go, Python and Swift test
files, written in Verus.

- `src/` is the verified library: the language front ends (`languages/`), the
  plain syntax tree they read (`syntax.rs`, with `ts_bridge.rs` copying
  tree-sitter trees into it), the smell model, the detectors and the registry
  (`model/`, `detectors/`), `smell-allow` suppression and the triage of a run
  (`model/smell_allow.rs`, `model/triage.rs`), the decisions of agent detection
  (`agent/`), the choice of settings and front ends (`settings.rs`), and the
  layout of the Markdown report (`reporters.rs`).
  Regular expressions go through the `regex` crate (`pattern.rs`).
- `app/` is the command-line program: arguments, the project file, file
  discovery, `syn` for Rust sources, running the model command, the console and
  JSON reports, and the clock reading stamped on the Markdown report.
- `tests/` holds the tests.
