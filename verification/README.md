# crev

The data types and rules of `crev`, a distributed code review system, as a
library verified with Verus.

- `src/` — the library. Proof framing (`framing`), signed proofs (`proofs`),
  ids and signatures (`id`, `crypto`), trust proofs (`trust`), package and
  code reviews (`package_review`, `code_review`, `review`, `package`),
  versions (`version`), helpers (`text`, `common`, `comment`, `util`,
  `digest`, `url`, `level`, `proof_id`), the commands of `cargo crev`, `crev`
  and `cargo trust` as values (`opts`, `crev_bin_opts`, `cargo_trust_opts`)
  and the decisions of the `cargo crev` command line (`cli`), what
  `verify` accumulates over dependencies and prints of them (`crate_stats`,
  `verify_output`), the report of `crate info` (`crate_info`), the log of a
  walk through the web of trust (`trust_log`), the order of listed ids
  (`id_query`), the arguments of `trust` (`trust_args`), the text a proof
  is edited as (`proof_edit`) and tables written as markdown (`table`).
  Every function carries a contract; laws that relate several functions are
  public proof functions (`lemma_*`).
- `tests/` — tests run against the compiled library.
- `app/` — the I/O around the library: YAML forms of the proof types, reading
  proofs from text, files, prompts and the terminal.
