# distributed_diagnostics

The decision logic of a stateful diagnostic assistant for distributed-systems
incidents, verified with Verus.

- `src/` — the library. Each pipeline step is a type whose contracts state
  exactly what it decides: input normalization, information adequacy,
  candidate card selection and re-ranking, card hydration, evidence search
  plans, chunk ranking and round-robin packing, prompt context assembly, the
  acceptance of model answers (finish reasons, JSON shape, local repairs,
  one repair request), the observation boundary and extraction rules, the
  reading of model answers and prompt asset texts as JSON (through
  `serde_json`), and the check of each prompt asset against its JSON schema
  (through `jsonschema`).  Tokens are counted by a `TokenCounter`, whose
  answer is a function of the text; `WordLevelTokenizer` is the library's
  own.
  Laws that span calls are public proof functions beside the code they
  speak of (`lemma_*`).
- `tests/` — scenario tests run against the compiled library.
- `app/` — the I/O around it: prompt asset and schema files read from
  disk, serialization of contexts and deserialization of the checked
  assets, the asynchronous calls to the model and to the retrieval stores,
  and error types with their messages.

Retrieval scores are carried as IEEE-754 bit patterns (`score_bits`) inside
the library; `app/scores.rs` converts at the edges.
