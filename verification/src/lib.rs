//! A polite web crawler core: URL frontier with insertion-time dedup,
//! per-domain politeness (minimum request interval, exclusive in-flight
//! token, exponential backoff), robots.txt policy cache with default-allow,
//! conditional-fetch bookkeeping, and link/text extraction.

pub mod frontier;
pub mod model;
pub mod orchestrator;
pub mod parser;
pub mod politeness;
pub mod stopwords;
pub mod strutil;
pub mod urlutil;

use vstd::prelude::*;

verus! {

/// Doubles a delay without overflowing: a rate-limit signal doubles the
/// per-domain interval, saturating at the largest representable value.
pub fn double_delay(delay_ms: u64) -> (r: u64)
    ensures
        r == double_delay_spec(delay_ms),
{
    if delay_ms <= u64::MAX / 2 {
        delay_ms * 2
    } else {
        u64::MAX
    }
}

/// The doubled (saturating) value of a politeness delay.
pub open spec fn double_delay_spec(delay_ms: u64) -> u64 {
    if 2 * delay_ms <= u64::MAX {
        (2 * delay_ms) as u64
    } else {
        u64::MAX
    }
}

} // verus!
