# samsa

A small publish/subscribe message broker whose logic is verified with Verus.

Producers publish messages to topics; the broker stores the events of each topic
in offset order (the event at index *i* of a topic has offset *i*); consumers pull
events from a position they keep themselves.

- `src/` — the verified library: `message` (messages, events, the clock),
  `storage` (the `StorageBackend` contract and the in-memory backend), `broker`
  (offset assignment, fetches, and the laws they obey), `producer`, `consumer`,
  `error`.
- `app/` — unverified plumbing: the error type with `Display`/`std::error::Error`
  derived by `thiserror`, and `SharedBroker`, a mutex-guarded handle that lets
  several threads share one broker.
- `tests/` — tests of the library.
