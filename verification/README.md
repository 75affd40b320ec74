# ollamamq

The verified core of the ollamaMQ gateway, written in Verus.

- `src/auth.rs` — the registry of API users: built from the parsed users
  file, it authenticates a raw token by the lower-case hex of its SHA-256
  digest and lists the VIP users.
- `src/order.rs` — byte-wise string order, sort keys, a verified insertion
  sort, and the lemma that a strictly ordered listing is unique.
- `src/snapshot.rs` — a snapshot of the gateway's counters, and the rows of
  the dashboard's tables (users, queues, blocked items) in their order.
- `src/dashboard.rs` — the dashboard's state machine: what each key does,
  how the selection moves and is kept inside the tables, and the stats bar.
- `app/` — plain Rust around the library: reading `users.yaml` (serde,
  serde_yaml), and the terminal loop and widgets (crossterm, ratatui).
- `tests/` — tests on concrete values.
