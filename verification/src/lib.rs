//! Conformance and benchmark harness for an RFC 6330 (RaptorQ) codec.
//!
//! The crate generates deterministic binary test vectors - RQ01 fixtures -
//! that exercise a codec's encode/decode path under varied payload sizes,
//! symbol sizes and loss patterns, and it measures encode/decode throughput
//! with a warmup-then-median-sampling discipline. The fixture format, the
//! packet-selection strategies and the timing methodology are the contract
//! that independent codec implementations must agree on; they are specified
//! and verified here. The codec itself is outside the contract: it is called
//! through the trusted boundary in `codec`, and the clock through `clock`.

pub mod bench;
pub mod clock;
pub mod codec;
pub mod fixture;
pub mod payload;
pub mod strategy;
pub mod wire;
