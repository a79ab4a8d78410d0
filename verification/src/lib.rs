//! Historical price statistics and moving-average crossover signals.
//!
//! Quote history for an instrument symbol is cached in a [`store::QuoteStore`]
//! and refreshed from an upstream provider at most once per UTC day. On top of
//! the cached history the library resolves caller-supplied date parameters
//! into concrete intervals, computes range statistics (count, mean, min, max,
//! last close), and detects the days on which a short-window moving average
//! crosses a long-window moving average.
//!
//! Dates are day numbers in the proleptic Gregorian calendar; prices are
//! fixed-point integers, so that every computation here is exact.

use vstd::prelude::*;

pub mod dates;
pub mod models;
pub mod stats;
pub mod store;
pub mod crossover;
pub mod errors;
pub mod freshness;

use crate::models::{Instrument, Summary};
use crate::store::QuoteStore;

verus! {

/// The root-route summary: the service language and every tracked
/// instrument, in insertion order.
pub fn system_summary(store: &QuoteStore) -> (r: Summary)
    ensures
        r.language@ == "Rust"@,
        r.instruments@.map_values(|x: Instrument| x@) == store.insts(),
{
    Summary { language: "Rust".to_owned(), instruments: store.get_instruments() }
}

} // verus!
