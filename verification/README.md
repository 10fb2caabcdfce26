# codex-tamer

A command-line controller for Codex app-server sessions: it starts, steers, interrupts and
follows turns over a websocket or a Unix socket, and it runs one shared app-server per
`CODEX_HOME`.

Everything that decides something is a library, written and proved in Verus. What touches the
outside (sockets, processes, files, the clock) is a thin program around it.

## Layout

- `src/turns/`: the life of a turn. `registry` joins what live notifications, snapshots and
  polls say of one message under different ids; `replay` and `overlap` take out of an attach
  what the snapshot already holds; `events`, `wait`, `poll`, `waiter`, `attach` and `search`
  turn server messages into records and into the report of a turn's end. `laws`, `wait_laws`,
  `record_laws` and `progress_laws` state what holds across them.
- `src/rpc.rs`, `src/session.rs`: the protocol of a connection, and the submission of input
  to a thread.
- `src/managed_server.rs`, `src/records.rs`, `src/lifecycle.rs`, `src/shutdown.rs`: the managed
  app-server, what is written down of it, and the state machines that start and stop it.
- `src/codex_runtime.rs`, `src/config.rs`, `src/rate_limit_reset.rs`: the choice of a Codex
  binary, targets, and the choice of a rate-limit reset credit.
- `src/json.rs`, `src/parse.rs`, `src/text.rs`, `src/words.rs`, `src/paths.rs`,
  `src/windows_paths.rs`, `src/bytes.rs`, `src/faults.rs`, `src/digest.rs`, `src/errors.rs`:
  values and texts.
- `app/`: the program.
- `tests/`: examples that run.

## What is trusted

The library rests on the contracts of a few calls that Verus does not see into: `blake3`
digests (`digest`), reading and quoting JSON with `serde_json` (`parse`, `json`), decoding of
bytes (`bytes`), the texts of std's conversion errors (`faults`), `Path::is_absolute` (`rpc`)
and std's random hasher (`turns/overlap`). Each stands in a function of its own, with a comment
on what it claims.
