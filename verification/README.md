# piston_meta

A parsing library for human readable text documents, driven by rules
written in a meta language, with its behaviour proved in Verus.

- `src/meta_rules/`: the rules and how they read text. `semantics.rs`
  states what each rule does as mathematical functions; each `parse`
  method is proved to give exactly that. `laws.rs`, `kept_tokens.rs`,
  `range_end.rs`, `store_alike.rs` and `references.rs` hold what holds of
  every reading.
- `src/bootstrap/`: the rules of the meta language, and the conversion of
  what they read into rules.
- `src/optimize.rs`: lookup tables for selects, with the laws that tie a
  table to the select it comes from.
- `src/json.rs`, `src/parse_error_handler.rs`: JSON output and error
  reports, as text.
- `src/read_token.rs`: the calls into the `read_token` crate, each with the
  contract it is trusted to meet.
- `app/`: files, standard streams and floating point around the library.
