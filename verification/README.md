# gong

Gong retrieval turns: the user's question goes to a retrieval sidecar, and what
the sidecar reports is shown as tool calls and agent messages.

- `src/` is the library, verified with Verus. `turn.rs` is the state machine of
  a turn, `history.rs` what holds of every run of it; `events.rs` and
  `requests.rs` are the wire format; `plan.rs`, `results.rs`, `stages.rs` and
  `choice.rs` are what the user sees.
- `app/` runs turns: it starts the sidecar process, performs the actions of a
  turn, and formats measured quantities, which are floating point.
- `tests/` runs the library on concrete values.

Two environment variables configure the sidecar: `CODEX_GONG_SIDECAR` is its
command line, split at white space, and `CODEX_GONG_CWD` its working directory,
which defaults to the current one.
