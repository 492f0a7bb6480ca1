//! The state shared between the background updater and the readers: one
//! current series, replaced wholesale and only by something strictly newer.
//!
//! The rules here are the whole content of the exchange; the surrounding
//! process wraps a value of this type in its mutual-exclusion and wake-up
//! machinery and takes every decision by calling in.

use crate::points::PricePoint;
use crate::pricing::{clamp_to_u64, spec_newer_than, PricePoints};
use rand::RngExt;
use vstd::prelude::*;

verus! {

/// The largest random slack added to the worker's sleep between refresh
/// cycles, so that independent instances do not fetch in step.
pub const JITTER_MAX_MS: u64 = 60_000;

/// The recency of the held series strictly exceeds the baseline instant.
pub open spec fn spec_recency_exceeds(s: Seq<PricePoint>, baseline_ms: int) -> bool {
    s.len() > 0 && s.last().starts_at_ms > baseline_ms
}

/// The current price series, shared between one updater and any readers.
pub struct SharedPricePoints {
    prices: PricePoints,
}

impl View for SharedPricePoints {
    type V = Seq<PricePoint>;

    closed spec fn view(&self) -> Seq<PricePoint> {
        self.prices@
    }
}

impl SharedPricePoints {
    /// Starts holding `initial_prices`.
    pub fn new(initial_prices: PricePoints) -> (r: Self)
        ensures
            r@ == initial_prices@,
    {
        SharedPricePoints { prices: initial_prices }
    }

    /// A detached snapshot of the current series; the caller's copy never
    /// changes under it.
    pub fn clone_prices(&self) -> (r: PricePoints)
        ensures
            r@ == self@,
    {
        self.prices.clone()
    }

    /// The sole mutation path: installs `new_prices` exactly when it is
    /// strictly newer than the current series, and reports whether it did —
    /// the moment at which waiting readers are to be woken. A candidate that
    /// is not strictly newer leaves the state untouched.
    pub fn set_new_prices(&mut self, new_prices: PricePoints) -> (r: bool)
        ensures
            r == spec_newer_than(new_prices@, old(self)@),
            r ==> final(self)@ == new_prices@,
            !r ==> final(self)@ == old(self)@,
    {
        self.prices.adopt_if_newer(new_prices)
    }

    /// Whether the held series is already strictly newer than `after_ms` —
    /// the check a reader makes before it first blocks and again after every
    /// wake-up, so that neither a missed nor a spurious wake-up can change
    /// the answer it returns.
    pub fn has_prices_newer_than(&self, after_ms: i64) -> (r: bool)
        ensures
            r == spec_recency_exceeds(self@, after_ms as int),
    {
        match self.prices.latest_price_date() {
            Some(latest) => latest > after_ms,
            None => false,
        }
    }
}

/// Relies on rand's `random_range`: a sample drawn uniformly from
/// `0..=bound`, so never above `bound`.
#[verifier::external_body]
fn random_at_most(bound: u64) -> (r: u64)
    ensures
        r <= bound,
{
    rand::rng().random_range(0..=bound)
}

/// The worker's sleep before its next refresh cycle: the base interval plus
/// a random slack of at most [`JITTER_MAX_MS`], saturating at the top of the
/// range.
pub fn jittered_sleep_ms(base_ms: u64) -> (r: u64)
    ensures
        exists|j: u64| j <= JITTER_MAX_MS && r == #[trigger] clamp_to_u64(base_ms + j),
{
    let j = random_at_most(JITTER_MAX_MS);
    let r = match base_ms.checked_add(j) {
        Some(total) => total,
        None => u64::MAX,
    };
    proof {
        assert(j <= JITTER_MAX_MS && r == clamp_to_u64(base_ms + j));
    }
    r
}

} // verus!
