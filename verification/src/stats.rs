//! Range statistics over cached quote history.

use vstd::prelude::*;

use crate::dates::DAY_LIMIT;
use crate::errors::MsdError;
use crate::models::{DateTimePeriod, Quote, QuoteView, Stats, PRICE_LIMIT};
use crate::store::{lemma_rows_in_range_wf, rows_in_range, valid_row, QuoteStore};

verus! {

/// Total of the close prices of `s`.
pub open spec fn sum_closes(s: Seq<QuoteView>) -> int
    decreases s.len(),
{
    if s.len() == 0 {
        0
    } else {
        sum_closes(s.drop_last()) + s.last().close
    }
}

/// Smallest close price of a nonempty `s`.
pub open spec fn min_close(s: Seq<QuoteView>) -> int
    recommends
        s.len() > 0,
    decreases s.len(),
{
    if s.len() <= 1 {
        s[0].close
    } else {
        let m = min_close(s.drop_last());
        if s.last().close < m {
            s.last().close
        } else {
            m
        }
    }
}

/// Largest close price of a nonempty `s`.
pub open spec fn max_close(s: Seq<QuoteView>) -> int
    recommends
        s.len() > 0,
    decreases s.len(),
{
    if s.len() <= 1 {
        s[0].close
    } else {
        let m = max_close(s.drop_last());
        if s.last().close > m {
            s.last().close
        } else {
            m
        }
    }
}

/// Statistics over `sym`'s quotes with date in `[dtp.start, dtp.end]`:
/// count, exact close sum, rounded mean, min, max, and the latest close.
/// Fails with `EmptyRange` exactly when no cached quote falls in the
/// interval.
pub fn get_stats(store: &QuoteStore, sym: &String, dtp: &DateTimePeriod) -> (r: Result<
    Stats,
    MsdError,
>)
    requires
        store.wf(),
    ensures
        r is Err <==> rows_in_range(
            store.series_rows(sym@),
            dtp.start as int,
            dtp.end as int,
        ).len() == 0,
        r is Err ==> r->Err_0 == MsdError::EmptyRange,
        r is Ok ==> ({
            let f = rows_in_range(store.series_rows(sym@), dtp.start as int, dtp.end as int);
            let st = r->Ok_0;
            &&& st.symbol@ == sym@
            &&& st.start == dtp.start
            &&& st.end == dtp.end
            &&& st.duration == dtp.duration
            &&& st.count == f.len()
            &&& st.sum == sum_closes(f)
            &&& st.close == f.last().close
            &&& st.mean == sum_closes(f) / (f.len() as int)
            &&& st.min == min_close(f)
            &&& st.max == max_close(f)
            &&& 0 < st.count < DAY_LIMIT
            &&& 0 <= st.sum <= (st.count as int) * (PRICE_LIMIT as int)
            &&& 0 <= st.min < PRICE_LIMIT
            &&& 0 <= st.max < PRICE_LIMIT
            &&& 0 <= st.close < PRICE_LIMIT
            &&& 0 <= st.mean < PRICE_LIMIT
        }),
{
    let ghost f = rows_in_range(store.series_rows(sym@), dtp.start as int, dtp.end as int);
    proof {
        store.lemma_series_rows_wf(sym@);
        lemma_rows_in_range_wf(store.series_rows(sym@), dtp.start as int, dtp.end as int);
    }
    let rows = store.get_quotes(sym, dtp);
    let m = rows.len();
    if m == 0 {
        return Err(MsdError::EmptyRange);
    }
    proof {
        assert(rows@[0]@ == f[0]);
    }
    let mut sum: i64 = 0;
    let mut mn: i64 = rows[0].close;
    let mut mx: i64 = rows[0].close;
    let mut k: usize = 0;
    while k < m
        invariant
            m == rows.len(),
            0 < m < DAY_LIMIT,
            0 <= k <= m,
            rows@.map_values(|q: Quote| q@) == f,
            forall|i: int| 0 <= i < f.len() ==> valid_row(#[trigger] f[i]),
            sum == sum_closes(f.take(k as int)),
            0 <= sum <= (k as int) * ((PRICE_LIMIT - 1) as int),
            mn == min_close(f.take(if k == 0 {
                1int
            } else {
                k as int
            })),
            mx == max_close(f.take(if k == 0 {
                1int
            } else {
                k as int
            })),
            0 <= mn < PRICE_LIMIT,
            0 <= mx < PRICE_LIMIT,
        decreases m - k,
    {
        proof {
            assert(f[k as int] == rows@[k as int]@);
            assert(f.take(k + 1).drop_last() =~= f.take(k as int));
            assert(f.take(k + 1).last() == f[k as int]);
        }
        let c = rows[k].close;
        proof {
            let kk = k as int;
            let p = (PRICE_LIMIT - 1) as int;
            assert(valid_row(f[kk]));
            assert(0 <= sum + c <= (kk + 1) * p) by (nonlinear_arith)
                requires
                    0 <= sum <= kk * p,
                    0 <= c <= p,
            ;
            assert((kk + 1) * p <= (DAY_LIMIT as int) * p) by (nonlinear_arith)
                requires
                    0 <= kk + 1 <= DAY_LIMIT as int,
                    0 <= p,
            ;
            assert((DAY_LIMIT as int) * ((PRICE_LIMIT - 1) as int) < 0x7fffffffffffffff);
        }
        sum = sum + c;
        if k == 0 {
            proof {
                assert(f.take(1int)[0] == f[0]);
            }
        } else {
            if c < mn {
                mn = c;
            }
            if c > mx {
                mx = c;
            }
        }
        k += 1;
    }
    proof {
        assert(f.take(m as int) =~= f);
    }
    let last = rows[m - 1].close;
    proof {
        assert(f[m - 1] == rows@[m - 1]@);
        assert(f.last() == f[m - 1]);
        vstd::arithmetic::div_mod::lemma_div_pos_is_pos(sum as int, m as int);
        vstd::arithmetic::div_mod::lemma_div_is_ordered(
            sum as int,
            (m as int) * ((PRICE_LIMIT - 1) as int),
            m as int,
        );
        vstd::arithmetic::div_mod::lemma_div_by_multiple((PRICE_LIMIT - 1) as int, m as int);
        vstd::arithmetic::mul::lemma_mul_is_commutative(m as int, (PRICE_LIMIT - 1) as int);
    }
    let mean = sum / (m as i64);
    Ok(
        Stats {
            symbol: sym.clone(),
            start: dtp.start,
            end: dtp.end,
            duration: dtp.duration,
            count: m,
            sum,
            close: last,
            mean,
            min: mn,
            max: mx,
        },
    )
}

} // verus!
