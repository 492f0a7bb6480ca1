//! Day-ahead electricity price cache.
//!
//! The crate keeps an ordered series of hourly price points, decides when a
//! refresh from the provider is due, computes how long to sleep until the
//! next refresh or the next price change, and holds the retry/back-off and
//! publication rules used by a background updater.

mod clock;
pub mod points;
pub mod pricing;
pub mod retry;
pub mod schedule;
pub mod shared_buffer;
pub mod tibberapi;
pub mod utils;
