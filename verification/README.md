# orbit_haul

The verified core of the OrbitHaul logistics contracts, written in Verus.

- `src/rate_limit.rs` — the per-actor sliding-window quota tracker.
- `src/token.rs` — the OrbitHaul token ledger: balances, allowances, minting,
  and admin-controlled metadata behind a key allowlist; `src/supply.rs` and
  `src/assoc.rs` hold the lemmas about sums of balances and association lists.
- `src/shipment.rs` — the shipment contract: roles, shipments, escrow
  deposits, releases, refunds, milestone payments, disputes and the
  settlement record, each operation stated as an exact change of the abstract
  ledger state; milestones can also be recorded in all-or-nothing batches.
- `src/shipment_events.rs`, `src/event_topics.rs`, `src/events.rs` — the
  events the shipment contract publishes, their payloads, and their SHA-256
  idempotency keys (the hash is computed by the Soroban host).
- `src/multisig.rs` — the admin council: proposals of administrative actions,
  approvals up to a threshold, fresh ids for every proposal, and no
  execution or approval twice.
- `src/mock_tokens.rs` — stand-in token contracts whose transfers always fail
  or do nothing.

Token movements are handed to a caller-supplied transfer function, so the
library is verified for every answer the token contract may give.  SHA-256 is
computed by the host, which charges it against the invocation's budget and
aborts the invocation once that budget is spent; the library bounds what one
call hashes, but cannot know what earlier calls spent.

The quota tracker is verified on its own; no shipment operation consults it.

`app/` binds the library to the Soroban host: the stand-in token contracts,
their contract error, an address book that numbers host addresses, and the
publication of events.

The tests under `tests/` exercise the library; the event tests compute
idempotency keys with the real `soroban-sdk` host, the others route token
movements through small in-test hosts built on the library's own token ledger.
