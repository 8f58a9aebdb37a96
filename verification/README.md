# Baibo

Baibo is a local-first workspace for running terminal-based coding agents
(Codex CLI and Pi) side by side, with PTY terminals per workspace.

## Layout

- `src/` is the verified library: Verus checks every function there. Those
  that decide something state it in an `ensures`; a few small trusted
  wrappers around outside calls are listed below.
  - `domain/` — identifiers, records and enums (workspaces, terminals,
    providers, agent sessions) and the stored text of each enum value.
  - `persistence/` — the workspace registry and its rules (registration,
    opening, renaming, removal, listing order), the lifecycle of stored
    terminal sessions (restart recovery, lifecycle events), shell titles, and
    the byte limit and summary of terminal logs.
  - `services/` — name and path validation, terminal sizes, input limits and
    exit classification, login-environment parsing, provider detection
    decisions, agent launch preparation, Pi project trust (reading Pi's
    `trust.json` and `settings.json` from their bytes) and Pi RPC answer
    validation, and the store of agent sessions.
  - `adapters/` — the Codex and Pi adapters: names, arguments, capabilities and
    launch specifications.
  - `paths.rs`, `text.rs` — path and text helpers; calls into `std::path`,
    `std::str`, `String::from_utf8_lossy` and `serde_json` sit behind small
    trusted wrappers whose contracts name their results.
- `tests/` exercises the library on concrete values.
- `app/` is the command-line shell around the library: SQLite storage
  (`rusqlite`, `rusqlite_migration`), Git discovery (`git2`), PTY processes
  (`portable-pty`), system calls (`libc`) and JSON output (`serde`).
