# fikuthy

The scheduling, skill-lifecycle and setup rules of the fikuthy agent terminal, written in
Verus and verified.

- `src/text.rs` – white-space splitting and trimming, substring search, decimal numbers.
- `src/time.rs` – UTC instants and whole-day differences (through chrono).
- `src/ident.rs` – random UUID text (through uuid).
- `src/cron.rs` – cron expressions, natural-language schedules, the job store's rules.
- `src/skills.rs` – skill manifests, usage recording and lifecycle promotion, curation passes.
- `src/setup.rs` – key masking and checks, provider and model menus, progress bars, the
  scan summary and the workspace configuration.
- `app/` – JSON files, console prompts and process spawning around the library.
- `tests/` – tests of the library on concrete values.
