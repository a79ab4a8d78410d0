//! Request, record and response shapes, and the date-range resolver.
//!
//! Prices are fixed-point integers: a price field holds the price multiplied
//! by `PRICE_SCALE`. Dates and timestamps are day numbers (see
//! [`crate::dates`]).

use vstd::prelude::*;
use vstd::string::StringSliceAdditionalSpecFns;

use crate::dates::{parse_date, parse_day, TODAY_LIMIT};
use crate::errors::MsdError;

verus! {

/// Price unit: a stored price of `PRICE_SCALE` is one currency unit.
pub const PRICE_SCALE: i64 = 10000;

/// Strict upper bound on a stored price (one hundred million currency units).
pub const PRICE_LIMIT: i64 = 1000000000000;

/// Days an interval spans when the parameters leave its length open.
pub const DEFAULT_DURATION: i64 = 10;

/// Raw optional date-range request parameters.
pub struct DateTimeParams {
    pub start: Option<String>,
    pub end: Option<String>,
    pub duration: Option<i32>,
}

/// Raw date-range parameters plus the two moving-average window sizes.
pub struct DateTimeWindowParams {
    pub start: Option<String>,
    pub end: Option<String>,
    pub duration: Option<i32>,
    pub small: Option<i32>,
    pub large: Option<i32>,
}

/// A resolved, internally consistent date interval: `end - start` always
/// equals `duration` whole days.
#[derive(Clone, Copy, PartialEq, Eq, Structural, Debug)]
pub struct DateTimePeriod {
    pub start: i64,
    pub end: i64,
    pub duration: i64,
}

/// A tracked instrument: its symbol and the day its quotes were last
/// refreshed (`NEVER_FETCHED` until the first successful refresh).
pub struct Instrument {
    pub symbol: String,
    pub fetched: i64,
}

/// `fetched` value of an instrument whose quotes were never fetched; smaller
/// than every real day number, so it forces an immediate refresh.
pub const NEVER_FETCHED: i64 = -1;

/// One cached quote row, keyed by `(symbol, date)`.
pub struct Quote {
    pub symbol: String,
    pub date: i64,
    pub open: i64,
    pub high: i64,
    pub low: i64,
    pub close: i64,
    pub volume: i64,
}

/// Response shape for a quote-range query.
pub struct Quotes {
    pub symbol: String,
    pub start: i64,
    pub end: i64,
    pub duration: i64,
    pub quotes: Vec<Quote>,
}

/// Range statistics over the closes of a date interval. `sum` is the exact
/// close total; `mean` is `sum / count` rounded toward zero.
pub struct Stats {
    pub symbol: String,
    pub start: i64,
    pub end: i64,
    pub duration: i64,
    pub count: usize,
    pub sum: i64,
    pub close: i64,
    pub mean: i64,
    pub min: i64,
    pub max: i64,
}

/// One evaluated day of the crossover scan. `long` / `short` say whether the
/// short-window mean is above / below the long-window mean that day (both
/// false on exact equality); `sm_sma` / `lg_sma` are the two rounded means.
#[derive(Clone, Copy, PartialEq, Eq, Structural, Debug)]
pub struct Signal {
    pub date: i64,
    pub long: bool,
    pub short: bool,
    pub close: i64,
    pub sm_sma: i64,
    pub lg_sma: i64,
}

/// Response shape for a crossover scan.
pub struct CrossoverResponse {
    pub symbol: String,
    pub small_window: i64,
    pub large_window: i64,
    pub signals: Vec<Signal>,
}

/// Root-route response: the service language and every tracked instrument.
pub struct Summary {
    pub language: String,
    pub instruments: Vec<Instrument>,
}

/// Mathematical value of an `Instrument`.
pub struct InstrumentView {
    pub symbol: Seq<char>,
    pub fetched: int,
}

impl View for Instrument {
    type V = InstrumentView;

    open spec fn view(&self) -> InstrumentView {
        InstrumentView { symbol: self.symbol@, fetched: self.fetched as int }
    }
}

/// Mathematical value of a `Quote`.
pub struct QuoteView {
    pub symbol: Seq<char>,
    pub date: int,
    pub open: int,
    pub high: int,
    pub low: int,
    pub close: int,
    pub volume: int,
}

impl View for Quote {
    type V = QuoteView;

    open spec fn view(&self) -> QuoteView {
        QuoteView {
            symbol: self.symbol@,
            date: self.date as int,
            open: self.open as int,
            high: self.high as int,
            low: self.low as int,
            close: self.close as int,
            volume: self.volume as int,
        }
    }
}

/// The UTF-8 bytes of an optional request string.
pub open spec fn opt_bytes(o: Option<String>) -> Option<Seq<u8>> {
    match o {
        Option::Some(s) => Option::Some(vstd::utf8::encode_utf8(s@)),
        Option::None => Option::None,
    }
}

/// What the resolver answers, as `(start, end, duration)` day numbers: the
/// resolution policy of the library.
///
/// Priority order: dates that both ends pin down win over a given duration
/// (a disagreement is a `ParameterConflict`); a missing end is derived from
/// start and duration; a missing start from end and duration; a missing
/// duration defaults to `DEFAULT_DURATION`; a missing end with no start is
/// `today`. Unparseable dates are an `InvalidDate`; a negative (explicit or
/// derived) duration is a `ParameterConflict`.
pub open spec fn resolve_spec(
    start: Option<Seq<u8>>,
    end: Option<Seq<u8>>,
    duration: Option<int>,
    today: int,
) -> Result<(int, int, int), MsdError> {
    match (start, end, duration) {
        (Option::Some(s), Option::Some(e), Option::Some(d)) => match (parse_day(s), parse_day(e)) {
            (Option::Some(sd), Option::Some(ed)) => if ed - sd == d && d >= 0 {
                Result::Ok((sd, ed, d))
            } else {
                Result::Err(MsdError::ParameterConflict)
            },
            _ => Result::Err(MsdError::InvalidDate),
        },
        (Option::Some(s), Option::Some(e), Option::None) => match (parse_day(s), parse_day(e)) {
            (Option::Some(sd), Option::Some(ed)) => if ed - sd >= 0 {
                Result::Ok((sd, ed, ed - sd))
            } else {
                Result::Err(MsdError::ParameterConflict)
            },
            _ => Result::Err(MsdError::InvalidDate),
        },
        (Option::Some(s), Option::None, Option::Some(d)) => match parse_day(s) {
            Option::Some(sd) => if d >= 0 {
                Result::Ok((sd, sd + d, d))
            } else {
                Result::Err(MsdError::ParameterConflict)
            },
            Option::None => Result::Err(MsdError::InvalidDate),
        },
        (Option::Some(s), Option::None, Option::None) => match parse_day(s) {
            Option::Some(sd) => Result::Ok(
                (sd, sd + DEFAULT_DURATION, DEFAULT_DURATION as int),
            ),
            Option::None => Result::Err(MsdError::InvalidDate),
        },
        (Option::None, Option::Some(e), Option::Some(d)) => match parse_day(e) {
            Option::Some(ed) => if d >= 0 {
                Result::Ok((ed - d, ed, d))
            } else {
                Result::Err(MsdError::ParameterConflict)
            },
            Option::None => Result::Err(MsdError::InvalidDate),
        },
        (Option::None, Option::Some(e), Option::None) => match parse_day(e) {
            Option::Some(ed) => Result::Ok(
                (ed - DEFAULT_DURATION, ed, DEFAULT_DURATION as int),
            ),
            Option::None => Result::Err(MsdError::InvalidDate),
        },
        (Option::None, Option::None, Option::Some(d)) => if d >= 0 {
            Result::Ok((today - d, today, d))
        } else {
            Result::Err(MsdError::ParameterConflict)
        },
        (Option::None, Option::None, Option::None) => Result::Ok(
            (today - DEFAULT_DURATION, today, DEFAULT_DURATION as int),
        ),
    }
}

/// Resolve optional request parameters into a concrete date interval, with
/// `today` standing for the current UTC day.
pub fn parse_params(dtp: DateTimeParams, today: i64) -> (r: Result<DateTimePeriod, MsdError>)
    requires
        0 <= today < TODAY_LIMIT,
    ensures
        r is Ok <==> resolve_spec(
            opt_bytes(dtp.start),
            opt_bytes(dtp.end),
            match dtp.duration {
                Option::Some(d) => Option::Some(d as int),
                Option::None => Option::None,
            },
            today as int,
        ) is Ok,
        r is Ok ==> ({
            let sp = resolve_spec(
                opt_bytes(dtp.start),
                opt_bytes(dtp.end),
                match dtp.duration {
                    Option::Some(d) => Option::Some(d as int),
                    Option::None => Option::None,
                },
                today as int,
            )->Ok_0;
            r->Ok_0.start == sp.0 && r->Ok_0.end == sp.1 && r->Ok_0.duration == sp.2
        }),
        r is Err ==> r->Err_0 == resolve_spec(
            opt_bytes(dtp.start),
            opt_bytes(dtp.end),
            match dtp.duration {
                Option::Some(d) => Option::Some(d as int),
                Option::None => Option::None,
            },
            today as int,
        )->Err_0,
        r is Ok ==> r->Ok_0.end - r->Ok_0.start == r->Ok_0.duration && r->Ok_0.duration >= 0,
        r is Ok ==> -0x100000000 < r->Ok_0.start && r->Ok_0.end < TODAY_LIMIT,
{
    match (&dtp.start, &dtp.end, dtp.duration) {
        (Some(s), Some(e), Some(d)) => {
            let sd = match parse_date(s.as_str()) {
                Ok(v) => v,
                Err(err) => {
                    return Err(err);
                },
            };
            let ed = match parse_date(e.as_str()) {
                Ok(v) => v,
                Err(err) => {
                    return Err(err);
                },
            };
            if ed - sd == d as i64 && d >= 0 {
                Ok(DateTimePeriod { start: sd, end: ed, duration: d as i64 })
            } else {
                Err(MsdError::ParameterConflict)
            }
        },
        (Some(s), Some(e), None) => {
            let sd = match parse_date(s.as_str()) {
                Ok(v) => v,
                Err(err) => {
                    return Err(err);
                },
            };
            let ed = match parse_date(e.as_str()) {
                Ok(v) => v,
                Err(err) => {
                    return Err(err);
                },
            };
            if ed - sd >= 0 {
                Ok(DateTimePeriod { start: sd, end: ed, duration: ed - sd })
            } else {
                Err(MsdError::ParameterConflict)
            }
        },
        (Some(s), None, Some(d)) => {
            let sd = match parse_date(s.as_str()) {
                Ok(v) => v,
                Err(err) => {
                    return Err(err);
                },
            };
            if d >= 0 {
                Ok(DateTimePeriod { start: sd, end: sd + d as i64, duration: d as i64 })
            } else {
                Err(MsdError::ParameterConflict)
            }
        },
        (Some(s), None, None) => {
            let sd = match parse_date(s.as_str()) {
                Ok(v) => v,
                Err(err) => {
                    return Err(err);
                },
            };
            Ok(
                DateTimePeriod {
                    start: sd,
                    end: sd + DEFAULT_DURATION,
                    duration: DEFAULT_DURATION,
                },
            )
        },
        (None, Some(e), Some(d)) => {
            let ed = match parse_date(e.as_str()) {
                Ok(v) => v,
                Err(err) => {
                    return Err(err);
                },
            };
            if d >= 0 {
                Ok(DateTimePeriod { start: ed - d as i64, end: ed, duration: d as i64 })
            } else {
                Err(MsdError::ParameterConflict)
            }
        },
        (None, Some(e), None) => {
            let ed = match parse_date(e.as_str()) {
                Ok(v) => v,
                Err(err) => {
                    return Err(err);
                },
            };
            Ok(
                DateTimePeriod {
                    start: ed - DEFAULT_DURATION,
                    end: ed,
                    duration: DEFAULT_DURATION,
                },
            )
        },
        (None, None, Some(d)) => {
            if d >= 0 {
                Ok(DateTimePeriod { start: today - d as i64, end: today, duration: d as i64 })
            } else {
                Err(MsdError::ParameterConflict)
            }
        },
        (None, None, None) => {
            Ok(
                DateTimePeriod {
                    start: today - DEFAULT_DURATION,
                    end: today,
                    duration: DEFAULT_DURATION,
                },
            )
        },
    }
}

} // verus!
