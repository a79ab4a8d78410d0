//! The error taxonomy of the library.

use vstd::prelude::*;

verus! {

/// Why a request could not be served.
///
/// - `InvalidDate`: a date string could not be parsed as a calendar date.
/// - `ParameterConflict`: the supplied start/end/duration parameters are
///   mutually inconsistent, or imply a negative duration.
/// - `EmptyRange`: no cached quote falls inside the requested interval.
/// - `UpstreamFetchFailed`: the provider call failed or returned a response
///   the library rejects; the cache is left at its previous state.
/// - `StoreFailure`: the persistence layer failed.
#[derive(Clone, Copy, Debug, PartialEq, Eq, Structural)]
pub enum MsdError {
    InvalidDate,
    ParameterConflict,
    EmptyRange,
    UpstreamFetchFailed,
    StoreFailure,
}

} // verus!
