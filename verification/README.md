# monee

Personal finance bookkeeping: wallets, debts and loans kept in a snapshot
that operations and events update, with the records (currencies, actors,
item tags, wallets) that nodes synchronise with their host.

- `src/` is the library, written in Verus: each public function carries a
  contract, and the laws of the books (an operation undone by its inverse, a
  transfer that moves exactly its amount, stored books that read back as the
  same books, ...) are public proof functions.
- `tests/` runs the library on concrete values.
- `app/` is the ordinary Rust around it: serialization with serde, dates
  with chrono, messages users read, and the use cases that talk to a store.
