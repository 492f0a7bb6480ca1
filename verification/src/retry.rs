//! The retry/back-off policy wrapped around the provider fetch: exponential
//! delays with a cap, and a hard ceiling on the number of attempts.
//!
//! The surrounding process owns the network call and the sleep; it reports
//! each failure here and obeys the returned delay, so the policy itself is
//! checked while the transport stays outside.

use vstd::prelude::*;

verus! {

/// Why a fetch from the provider failed.
#[derive(Debug)]
pub enum FetchError {
    /// The transport broke before any answer arrived (network, DNS, TLS).
    Transport(String),
    /// The provider answered with a non-success HTTP status.
    Upstream { status: u16, body: String },
    /// An answer arrived but its shape was not the expected one.
    Malformed(String),
    /// The attempt budget ran out; carries the attempt count and the last
    /// underlying failure.
    Exhausted { attempts: u64, last: Box<FetchError> },
}

/// The delay after a failed attempt, doubled and capped.
pub open spec fn spec_next_delay(delay_ms: int, max_delay_ms: int) -> int {
    if 2 * delay_ms <= max_delay_ms {
        2 * delay_ms
    } else {
        max_delay_ms
    }
}

/// The retry state of one fetch: how many attempts have failed, what delay
/// the next pause takes, and the configured ceilings.
pub struct RetryingFetcher {
    /// Failed attempts after which no further retry is made; the total
    /// number of attempts is one more.
    pub max_retries: u32,
    /// Upper bound the doubling delay never exceeds.
    pub max_delay_ms: u64,
    /// The pause before the next retry.
    pub next_delay_ms: u64,
    /// Failed attempts that were answered with a retry so far.
    pub failures: u32,
}

impl RetryingFetcher {
    /// A fresh policy: no failures yet, first pause `initial_delay_ms`.
    pub fn new(max_retries: u32, initial_delay_ms: u64, max_delay_ms: u64) -> (r: Self)
        ensures
            r.max_retries == max_retries,
            r.max_delay_ms == max_delay_ms,
            r.next_delay_ms == initial_delay_ms,
            r.failures == 0,
    {
        RetryingFetcher { max_retries, max_delay_ms, next_delay_ms: initial_delay_ms, failures: 0 }
    }

    /// One failed attempt: within the budget the caller is told to pause for
    /// the current delay and retry, and the delay doubles up to the cap;
    /// past the budget the answer is `None` and the fetch is over.
    pub fn on_failure(&mut self) -> (r: Option<u64>)
        ensures
            final(self).max_retries == old(self).max_retries,
            final(self).max_delay_ms == old(self).max_delay_ms,
            old(self).failures < old(self).max_retries ==> {
                &&& r == Some(old(self).next_delay_ms)
                &&& final(self).failures == old(self).failures + 1
                &&& final(self).next_delay_ms == spec_next_delay(
                    old(self).next_delay_ms as int,
                    old(self).max_delay_ms as int,
                )
            },
            old(self).failures >= old(self).max_retries ==> r is None && *final(self) == *old(
                self,
            ),
    {
        if self.failures < self.max_retries {
            let pause = self.next_delay_ms;
            self.failures = self.failures + 1;
            self.next_delay_ms = match self.next_delay_ms.checked_mul(2) {
                Some(doubled) => {
                    if doubled <= self.max_delay_ms {
                        doubled
                    } else {
                        self.max_delay_ms
                    }
                },
                None => self.max_delay_ms,
            };
            Some(pause)
        } else {
            None
        }
    }

    /// The terminal error once the budget is exhausted: every attempt —
    /// the retried failures and the final one — counted, wrapping the last
    /// underlying failure.
    pub fn give_up(&self, last: FetchError) -> (r: FetchError)
        ensures
            r == (FetchError::Exhausted {
                attempts: (self.failures + 1) as u64,
                last: Box::new(last),
            }),
    {
        FetchError::Exhausted { attempts: self.failures as u64 + 1, last: Box::new(last) }
    }
}

} // verus!
