# chronon_script_model

The decisions behind the `#[script]` attribute for Chronon scripts: it
parses the attribute's arguments, checks the script function's signature,
builds the signature metadata and plans the items to generate, each step
verified against its contract.

- `src/attrs.rs` — the grammar of the attribute arguments
  (`name = "..."`, `default_job(...)`) over token trees.
- `src/script_default_job.rs` — the `default_job(...)` grammar and the
  bootstrap plan it expands to.
- `src/signature.rs` — the signature a script function must have
  (`async`, `Box<dyn ScriptContext>` first, `Result<()>` returned).
- `src/metadata.rs` — the signature metadata: a JSON object from parameter
  names to type texts, and its hash.
- `src/naming.rs` — `snake_case` to `PascalCase` and the generated names.
- `src/expand.rs` — the plan of the generated items, and the whole pipeline.
- `app/` — the macro edge: reads token streams and syntax trees into the
  model, and writes the planned items with `quote`.
