# taintlint

The verified core of a static analyser for source code: taint analysis for Go, Java, C#, C, Bash
and Apex, pattern rules for Go, Java, C# and server configuration, and patterns on plain text.
It is written in Verus; every function states what it returns, and Verus proves it.

## Layout

- `src/tree.rs`: the syntax tree, a list of nodes in pre-order, with its well-formedness.
- `src/text.rs`, `src/text_map.rs`, `src/pattern.rs`: text, maps keyed by text, regular
  expressions (through the `regex` crate).
- `src/taint_engine.rs`, `src/scope.rs`, `src/taint_rule.rs`, `src/cross_file.rs`: what the taint
  analyses share.
- `src/*_taint.rs`: the taint analysis of each language.
- `src/go.rs`, `src/java.rs`, `src/csharp.rs`, `src/c.rs`, `src/bash.rs`, `src/apex.rs`,
  `src/config.rs`: the rules.
- `src/generic_mode.rs`: token patterns on plain text.
- `src/*_laws.rs`, `src/go_batching.rs`: what holds of the analyses as a whole, as proof functions.
- `app/`: trees of the `tree_sitter` crate turned into the library's trees, and what needs
  floating-point numbers: entropy thresholds and fractional confidence.
- `tests/`: the rules and engines on parsed fixtures.

## What is trusted

Regular expressions (`regex::Regex`), `str::to_uppercase`, `String::push` and `Arc::clone` are
called through contracts that are believed. Each stands with a comment that says what is claimed.
