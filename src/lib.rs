//! Pull-driven sequences over push-style producers. A producer delivers its
//! values one at a time through a sender; each pull of the sequence installs
//! a single empty slot, resumes the producer until it sends or completes, and
//! hands out what the slot received. Between the producer and the consumer
//! nothing is passed but through that slot. The producers the library itself
//! runs are written out as lists of steps, built before the first pull; the
//! sequence can also be driven over a producer resumed outside the library,
//! through `AsyncStream::enter`, `SlotStack::leave` and
//! `AsyncStream::finish_pull`.
pub mod adapter;
pub mod laws;
pub mod sender;
pub mod slot;
pub mod stream;
