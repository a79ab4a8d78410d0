//! Dual-window moving-average crossover detection.
//!
//! For every day of a resolved interval the detector compares the mean close
//! of a short trailing window with that of a long trailing window, and keeps
//! exactly the days on which the relative ordering of the two means changes.
//! Means are compared exactly, by cross-multiplying the close sums, so equal
//! means are never misordered by rounding.

use vstd::prelude::*;

use crate::dates::{DAY_LIMIT, TODAY_LIMIT};
use crate::errors::MsdError;
use crate::models::{
    opt_bytes, parse_params, resolve_spec, CrossoverResponse, DateTimeParams, DateTimePeriod,
    DateTimeWindowParams, QuoteView, Signal, PRICE_LIMIT,
};
use crate::stats::{get_stats, sum_closes};
use crate::store::{rows_in_range, QuoteStore};

verus! {

/// Short window, in days, when the request leaves it open.
pub const DEFAULT_SMALL_WINDOW: i64 = 7;

/// Long window, in days, when the request leaves it open.
pub const DEFAULT_LARGE_WINDOW: i64 = 21;

/// Bound on the resolver day numbers and window sizes the detector accepts.
pub const WINDOW_LIMIT: i64 = 0x100000000;

/// The signal evaluated on `day`: the short window is `[day - sw, day]`, the
/// long window `[day - lw, day]`; `long` / `short` compare the two mean
/// closes exactly. No signal if either window holds no quotes.
pub open spec fn spec_signal(rows: Seq<QuoteView>, day: int, sw: int, lw: int) -> Option<Signal> {
    let s = rows_in_range(rows, day - sw, day);
    let l = rows_in_range(rows, day - lw, day);
    if s.len() == 0 || l.len() == 0 {
        Option::None
    } else {
        Option::Some(
            (Signal {
                date: day as i64,
                long: sum_closes(s) * (l.len() as int) > sum_closes(l) * (s.len() as int),
                short: sum_closes(s) * (l.len() as int) < sum_closes(l) * (s.len() as int),
                close: s.last().close as i64,
                sm_sma: (sum_closes(s) / (s.len() as int)) as i64,
                lg_sma: (sum_closes(l) / (l.len() as int)) as i64,
            }),
        )
    }
}

/// The signals of the first `n` days starting at `start`, in date order,
/// days without a signal skipped.
pub open spec fn spec_signals(rows: Seq<QuoteView>, start: int, n: int, sw: int, lw: int) -> Seq<
    Signal,
>
    decreases n,
{
    if n <= 0 {
        Seq::empty()
    } else {
        spec_signals(rows, start, n - 1, sw, lw) + match spec_signal(rows, start + n - 1, sw, lw) {
            Option::Some(sig) => seq![sig],
            Option::None => Seq::empty(),
        }
    }
}

/// The transition points of `sigs` from position `i` on, given that the last
/// emitted flags were `(pl, ps)`: a signal is kept exactly when one of its
/// flags differs from the previously kept pair.
pub open spec fn spec_crossovers(sigs: Seq<Signal>, i: int, pl: bool, ps: bool) -> Seq<Signal>
    decreases sigs.len() - i,
    when 0 <= i <= sigs.len()
{
    if i >= sigs.len() {
        Seq::empty()
    } else if sigs[i].long != pl || sigs[i].short != ps {
        seq![sigs[i]] + spec_crossovers(sigs, i + 1, sigs[i].long, sigs[i].short)
    } else {
        spec_crossovers(sigs, i + 1, pl, ps)
    }
}

/// The window size a request names, or the given default.
pub open spec fn window_or(o: Option<i32>, dflt: int) -> int {
    match o {
        Option::Some(v) => v as int,
        Option::None => dflt,
    }
}

/// Resolve a windowed request: the date parameters as `parse_params` does,
/// and the two window sizes with their defaults. The resolved triple
/// satisfies everything `get_crossovers` asks of its arguments.
pub fn resolve_window_params(dtwp: DateTimeWindowParams, today: i64) -> (r: Result<
    (DateTimePeriod, i64, i64),
    MsdError,
>)
    requires
        0 <= today < TODAY_LIMIT,
    ensures
        r is Ok <==> resolve_spec(
            opt_bytes(dtwp.start),
            opt_bytes(dtwp.end),
            match dtwp.duration {
                Option::Some(d) => Option::Some(d as int),
                Option::None => Option::None,
            },
            today as int,
        ) is Ok,
        r is Err ==> r->Err_0 == resolve_spec(
            opt_bytes(dtwp.start),
            opt_bytes(dtwp.end),
            match dtwp.duration {
                Option::Some(d) => Option::Some(d as int),
                Option::None => Option::None,
            },
            today as int,
        )->Err_0,
        r is Ok ==> ({
            let (p, sw, lw) = r->Ok_0;
            &&& resolve_spec(
                opt_bytes(dtwp.start),
                opt_bytes(dtwp.end),
                match dtwp.duration {
                    Option::Some(d) => Option::Some(d as int),
                    Option::None => Option::None,
                },
                today as int,
            )->Ok_0 == (p.start as int, p.end as int, p.duration as int)
            &&& sw == window_or(dtwp.small, DEFAULT_SMALL_WINDOW as int)
            &&& lw == window_or(dtwp.large, DEFAULT_LARGE_WINDOW as int)
            &&& 0 <= p.duration
            &&& p.end - p.start == p.duration
            &&& -WINDOW_LIMIT < p.start
            &&& p.end < TODAY_LIMIT
            &&& -WINDOW_LIMIT < sw < WINDOW_LIMIT
            &&& -WINDOW_LIMIT < lw < WINDOW_LIMIT
        }),
{
    let dtp = match parse_params(
        DateTimeParams { start: dtwp.start, end: dtwp.end, duration: dtwp.duration },
        today,
    ) {
        Ok(p) => p,
        Err(err) => {
            return Err(err);
        },
    };
    let small: i64 = match dtwp.small {
        Some(v) => v as i64,
        None => DEFAULT_SMALL_WINDOW,
    };
    let large: i64 = match dtwp.large {
        Some(v) => v as i64,
        None => DEFAULT_LARGE_WINDOW,
    };
    Ok((dtp, small, large))
}

/// Scan `sym`'s history over `dtp` and report exactly the days on which the
/// short/long moving-average ordering flips, starting from the neutral
/// `(false, false)` pair. Days on which either window is empty are skipped;
/// an interval with no evaluable day yields an empty signal list.
pub fn get_crossovers(
    store: &QuoteStore,
    sym: &String,
    dtp: &DateTimePeriod,
    small: i64,
    large: i64,
) -> (r: CrossoverResponse)
    requires
        store.wf(),
        0 <= dtp.duration,
        dtp.end - dtp.start == dtp.duration,
        -WINDOW_LIMIT < dtp.start,
        dtp.end < TODAY_LIMIT,
        -WINDOW_LIMIT < small < WINDOW_LIMIT,
        -WINDOW_LIMIT < large < WINDOW_LIMIT,
    ensures
        r.symbol@ == sym@,
        r.small_window == small,
        r.large_window == large,
        r.signals@ == spec_crossovers(
            spec_signals(
                store.series_rows(sym@),
                dtp.start as int,
                dtp.duration as int,
                small as int,
                large as int,
            ),
            0,
            false,
            false,
        ),
{
    let ghost srows = store.series_rows(sym@);
    let mut sigs: Vec<Signal> = Vec::new();
    let mut off: i64 = 0;
    while off < dtp.duration
        invariant
            store.wf(),
            srows == store.series_rows(sym@),
            0 <= off <= dtp.duration,
            dtp.end - dtp.start == dtp.duration,
            -WINDOW_LIMIT < dtp.start,
            dtp.end < TODAY_LIMIT,
            -WINDOW_LIMIT < small < WINDOW_LIMIT,
            -WINDOW_LIMIT < large < WINDOW_LIMIT,
            sigs@ == spec_signals(
                srows,
                dtp.start as int,
                off as int,
                small as int,
                large as int,
            ),
        decreases dtp.duration - off,
    {
        let day = dtp.start + off;
        let sm_p = DateTimePeriod { start: day - small, end: day, duration: small };
        let lg_p = DateTimePeriod { start: day - large, end: day, duration: large };
        let sm_r = get_stats(store, sym, &sm_p);
        let lg_r = get_stats(store, sym, &lg_p);
        let ghost s = rows_in_range(srows, day - small, day as int);
        let ghost l = rows_in_range(srows, day - large, day as int);
        proof {
            assert(spec_signals(
                srows,
                dtp.start as int,
                off + 1,
                small as int,
                large as int,
            ) == spec_signals(srows, dtp.start as int, off as int, small as int, large as int)
                + match spec_signal(srows, day as int, small as int, large as int) {
                Option::Some(sig) => seq![sig],
                Option::None => Seq::empty(),
            });
        }
        match (sm_r, lg_r) {
            (Ok(sm), Ok(lg)) => {
                proof {
                    let a = sm.sum as int;
                    let b = lg.count as int;
                    let c = lg.sum as int;
                    let d = sm.count as int;
                    assert(0 <= a * b < 0x10000000000000000000000000000) by (nonlinear_arith)
                        requires
                            0 <= a <= 3700000 * 1000000000000,
                            0 <= b <= 3700000,
                    ;
                    assert(0 <= c * d < 0x10000000000000000000000000000) by (nonlinear_arith)
                        requires
                            0 <= c <= 3700000 * 1000000000000,
                            0 <= d <= 3700000,
                    ;
                    assert(sm.sum <= (sm.count as int) * (PRICE_LIMIT as int)
                        <= 3700000 * 1000000000000) by (nonlinear_arith)
                        requires
                            sm.sum <= (sm.count as int) * (PRICE_LIMIT as int),
                            0 < (sm.count as int) < 3700000,
                    ;
                    assert(lg.sum <= (lg.count as int) * (PRICE_LIMIT as int)
                        <= 3700000 * 1000000000000) by (nonlinear_arith)
                        requires
                            lg.sum <= (lg.count as int) * (PRICE_LIMIT as int),
                            0 < (lg.count as int) < 3700000,
                    ;
                }
                let long = (sm.sum as i128) * (lg.count as i128) > (lg.sum as i128) * (sm.count
                    as i128);
                let short = (sm.sum as i128) * (lg.count as i128) < (lg.sum as i128) * (sm.count
                    as i128);
                let sig = Signal {
                    date: day,
                    long,
                    short,
                    close: sm.close,
                    sm_sma: sm.mean,
                    lg_sma: lg.mean,
                };
                proof {
                    assert(spec_signal(srows, day as int, small as int, large as int)
                        == Option::Some(sig));
                }
                sigs.push(sig);
                proof {
                    assert(sigs@ =~= spec_signals(
                        srows,
                        dtp.start as int,
                        off + 1,
                        small as int,
                        large as int,
                    ));
                }
            },
            _ => {
                proof {
                    assert(spec_signal(srows, day as int, small as int, large as int)
                        is None);
                    assert(sigs@ =~= spec_signals(
                        srows,
                        dtp.start as int,
                        off + 1,
                        small as int,
                        large as int,
                    ));
                }
            },
        }
        off += 1;
    }
    let ghost total = spec_crossovers(sigs@, 0, false, false);
    let mut out: Vec<Signal> = Vec::new();
    let mut long = false;
    let mut short = false;
    let n = sigs.len();
    let mut idx: usize = 0;
    while idx < n
        invariant
            n == sigs.len(),
            0 <= idx <= n,
            total == spec_crossovers(sigs@, 0, false, false),
            total == out@ + spec_crossovers(sigs@, idx as int, long, short),
        decreases n - idx,
    {
        let s = sigs[idx];
        if s.long != long || s.short != short {
            let ghost out_old = out@;
            out.push(s);
            long = s.long;
            short = s.short;
            proof {
                assert(out_old + (seq![s] + spec_crossovers(
                    sigs@,
                    idx + 1,
                    s.long,
                    s.short,
                )) =~= out@ + spec_crossovers(sigs@, idx + 1, s.long, s.short));
            }
        }
        idx += 1;
    }
    proof {
        assert(total =~= out@);
    }
    CrossoverResponse {
        symbol: sym.clone(),
        small_window: small,
        large_window: large,
        signals: out,
    }
}

} // verus!
