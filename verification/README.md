# capnp-sync

Synchronisation toolkit shared by the finder, the worker and the backends:
one `SyncService` protocol (`pull`, `ack`, `checkIds`, `dump`, `update`,
`getIds`) over Cap'n Proto RPC.

- `src/` — the verified library (Verus): the domain model and its wire
  encoding (`ops`), reply messages (`wire`), the backend handler over the
  `ActionPool`/`Records` traits (`backend`), what a client makes of each reply
  (`client`), the decisions of a distribution pass (`distributor`), the error
  type (`error`) and UTF-8/decimal text (`text`).
- `app/` — the network half on the ntex/compio runtime: transport, server,
  `SyncClient`, the backend service and the distribution pass. It needs the
  Cap'n Proto bindings of `capnp/finder.capnp`.
- `tests/` — the protocol run in-process (handler ↔ client), and concrete
  checks of the contracts.

Window contract: operations carry monotonic `seq` numbers; `cursor` is the
first unconfirmed seq; `next_cursor` is the last returned seq + 1 (or the
input cursor when the window is empty); `ack(up_to)` deletes `seq < up_to`.
Both sides refuse a window that returns operations without moving the cursor.
