//! Device-presence aggregation engine.
//!
//! Given a stream of periodic device-sighting events over a bounded scan
//! window, this library deduplicates and enriches each sighting with a vendor
//! identity, merges repeated sightings of the same device into contiguous
//! presence intervals under a gap-tolerance rule, and renders one of two
//! report shapes depending on the operating mode (instant snapshot or
//! scheduled scan).

pub mod codec;
pub mod intervals;
pub mod jsonio;
pub mod numfmt;
pub mod report;
pub mod sanitize;
pub mod session;
pub mod text;
pub mod vendor;
