# ntx_builder

The decisions of a network transaction builder, verified with Verus.

A network transaction builder follows the committed blocks of a chain and builds transactions for
the accounts that have notes waiting for them. The library in `src/` checks blocks, derives chain
snapshots, schedules builds, charges failures to notes, and decides what the event loop and the
supervision of long-running tasks do next. It performs no I/O: it takes what happened and returns
what to do.

- `src/chain_state.rs`, `src/protocol.rs`: blocks, headers and chain snapshots. Everything that is
  trusted about the protocol crate stands in `src/protocol.rs`. `src/range.rs` says when the nodes
  of a mountain range belong to its peaks.
- `src/scheduler.rs`, `src/committed_block.rs`: builds, slots and in-flight transactions.
- `src/network_transaction.rs`, `src/candidate.rs`: one build, and the bookkeeping of its notes.
- `src/builder.rs`: the event loop.
- `src/tasks.rs`: task sets and their supervision.
- `src/text.rs`: how identifiers are written in messages.
- `app/`: the asynchronous service around the library.
