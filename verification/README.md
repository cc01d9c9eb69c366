# Miden services

The decision logic of a set of services around a note-based chain, verified with Verus, and the
ordinary Rust which runs it.

- `src/transport`: private note delivery. Storage assigns each note a cursor, keeps within its byte
  limit and removes expired notes; receivers page through the notes with their tags.
- `src/funding`: answers a funding request with a note and creates the note later, in a transaction
  of the funding account. `worker` is a state machine which takes what the node answered and returns
  what to do next.
- `src/monitor`: what the network monitor concludes from its checks, and what its dashboard shows.
- `src/prover`: the stages of a remote prover and the answer of each failure, and what its client
  concludes.
- `src/node`: the steps of the commands which administer a node.
- `src/chain.rs`, `src/text.rs`, `src/clock.rs`, `src/status.rs`, `src/filtering.rs`: what these
  share.

Each module states its contracts over plain models of its data. The properties which span several
functions are proof functions named `law_*`. The functions which call another crate are marked
`external_body`, and their doc comments say what is believed of the call.

`app` holds the command line, the SQLite database, the network and the markup. `tests` runs the
library with the crates it calls.
