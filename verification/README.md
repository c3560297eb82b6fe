# agent-loom-runtime

An outbound runtime for the Agent Loom control plane: it enrolls, polls for commands,
runs `hermes.run` instructions with the locally configured Hermes binary, and reports
each command's lifecycle (ack, running progress, one result or error) through a local
queue that survives network failures.

## Layout

- `src/` is the verified library (Verus). Every function there carries a contract:
  - `json` — JSON values as plain data and strict, schema-checked field access;
  - `protocol` — v1 envelopes, their JSON form and strict decoders;
  - `hermes` — instruction validation, the runner's invocation, bounded output, redaction;
  - `repo_sync` — `repo.sync` validation, git plans, credential environment, output redaction;
  - `state` — the local state (identity, command records, event queue, delivered
    evidence with its retention window, metadata) and the journal of changes to persist;
  - `daemon` — the decisions of the daemon: startup, routing of instructions, the command
    lifecycle, delivery outcomes;
  - `clock` — the current time and fresh message ids, reported as errors when unavailable;
  - `client`, `config`, `tui`, `doctor`, `text` — endpoints, configuration, screens and
    text helpers.
- `app/` is the program around it: command line, environment, SQLite persistence,
  HTTP, processes, the terminal UI.
- `tests/` exercises the library on concrete values.

Proof functions named `law_*` state properties that span several operations (bounded
output, the retention window, queueing and delivery, retrying in order, the command
lifecycle, ignoring replays, resuming an enrolled identity).

## Dependencies

The outside crates are those of the runtime itself, plus `getrandom`: message ids are
version-4 UUIDs, and `uuid::Uuid::new_v4` panics when the operating system gives no random
bytes, so the library draws the bytes with `getrandom::fill` (the source `uuid` uses) and
reports that failure as an error instead.
