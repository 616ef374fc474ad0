//! Streaming conversion of OpenStreetMap XML extracts into typed records.
//!
//! The library consumes ordered XML tokenizer events (start, empty, end,
//! end-of-input) and assembles them into `Node`, `Way` and `Relation`
//! records, with per-kind filtering, fail-fast drivers, and a bounded-queue
//! producer/consumer pipeline model. The tokenizer itself, decompression and
//! file I/O live outside the library; they hand events in as plain values.

pub mod assembler;
pub mod attrs;
pub mod builder;
pub mod bytestr;
pub mod coord;
pub mod drivers;
pub mod events;
pub mod filter;
pub mod input;
pub mod laws;
pub mod model;
pub mod names;
pub mod numeric;
pub mod pipeline;
