# libra

The verified core of Libra's AI runtime, written in Verus. Functions in
`src/` carry `requires`/`ensures` contracts that Verus proves; the few
small wrappers around calls into std, `sha2`, `chrono`, `url` and
`git_internal` (marked `external_body`) state contracts that are trusted,
not proved.

- `src/` — the library: workflow-gate recovery (`workflow`, `runtime`),
  web admission and turn settlement (`admission`, `web_turn`, `headless`),
  approval and hook configuration merging (`approval`, `hooks`,
  `approval_cache`), Codex envelope normalization (`codex`), browser write
  guards (`guards`), the SSE wire (`sse`), snapshot deltas
  (`snapshot_delta`), the scheduler state machine (`scheduler`), thread
  and capture graphs (`graph`, `thread_graph`, `projection_graph`,
  `object_summary`, `capture_graph`, `overlay`), the rename-probe walk and
  its budgets (`status_probe`), usage records (`usage`), review-fix protocol checks
  (`review_fix`), bridge mutations (`bridge`), automation rule matching
  (`automation`), checkpoint inputs (`checkpoint`), prompt context modes
  (`prompt`), the fake completion provider (`fake_provider`), and text
  helpers (`text`, `order`, `ids`, `seqs`).
- `tests/` — the tests, run against the compiled library.
- `app/` — the I/O shell: command-line arguments, environment settings,
  configuration files, checkpoint-input files, and JSON conversions.
