# texe

texe creates and builds LaTeX papers: it resolves the packages a paper needs
through pqty, runs the engine until the document converges, and publishes the
PDF and its SyncTeX data. This library holds the decisions behind that work:
what a build may reuse, when discovery has converged or must give up, when the
final passes stop, what goes into pqty's requests and the engine's
environment, and how editor settings are merged. Running the tools is left to
the program around it.

This crate is texe's logic as a library proved with Verus. Its public
functions carry `requires`/`ensures` contracts stated over mathematical
models (`Seq`, `Set`, `Map`, spec functions of the inputs); private helpers
carry what their callers need. The laws that tie several functions together
stand as proof functions in `src/laws.rs`.

## Layout

- `src/` — the verified library, one module per concern: the manifest and its
  validation (`config`, `paths`), project setup and adoption (`setup`,
  `adoption`), pqty's protocol (`package`, `lockfile`, `tracefile`), the
  engine's environment and passes (`environment`, `engine`, `bibliography`,
  `index`), build state and caches (`state`, `cache`, `clean`), progress and
  estimates (`progress`, `estimate`, `timing`, `report`), editor integration
  (`editor`, `settings`, `settings_file`, `settings_restore`, `texls`,
  `texls_file`, `integrations`), the build's state machines (`building`, `watching`) and
  published artifacts (`synctex`, `formats`).
- `src/laws.rs` — properties stated across functions and proved.
- `tests/` — tests run against the compiled library.
- `app/` — the command line: argument parsing, the filesystem, prompts and
  output around the library (`texe init`, `texe adopt` with its VS Code
  settings merge, `texe editor` and `texe editor --remove`, `texe clean`). The
  build and watch loops are stated in `src/building.rs` and
  `src/watching.rs` as transitions from state and event to next state and
  action; the program that runs the tools around them is not part of `app/`.

Outside crates are reached only through small trusted items whose contracts
are documented beside them: SHA-256 and hex (`digest`), gzip (`synctex`),
TOML string quoting (`setup`), JSON parsing (`state`, serde_json), reading and
editing VS Code's JSONC settings (`settings_file`, `settings_restore`,
jsonc-parser), reading and editing the language server's TOML (`texls_file`,
toml_edit), and a few std conversions.
