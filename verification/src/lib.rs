//! Daily batch processor for a cryptocurrency market-data archive.
//!
//! For one calendar day and one (exchange, market type, message type) tuple,
//! hourly capture files are split into per-symbol daily buckets under
//! deduplication and a day filter, then each bucket is sorted by timestamp
//! and recompressed. This crate holds the verified core: the per-line split
//! decisions, deduplication, filename construction, day arithmetic, the
//! timestamp sort, and the memory-admission accounting. File and process
//! I/O live outside the library.

pub mod admission;
pub mod dates;
pub mod dedup;
pub mod driver;
pub mod hashing;
pub mod parsers;
pub mod sanitize;
pub mod sortcore;
pub mod split;
pub mod strutil;
pub mod types;
