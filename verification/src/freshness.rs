//! The data-freshness policy: when to refresh a symbol's history, and how a
//! fetched provider response replaces the cached rows.
//!
//! A symbol's history is refreshed at most once per UTC day: a refresh is
//! required exactly when the symbol is untracked or its marker predates
//! today. Applying a refresh validates the whole response first, then
//! replaces the symbol's rows wholesale and only afterwards advances the
//! marker, so a failed refresh leaves the store exactly as it was.

use vstd::prelude::*;

use crate::dates::{parse_date, parse_day, DAY_LIMIT};
use crate::errors::MsdError;
use crate::models::{Instrument, Quote, QuoteView, NEVER_FETCHED, PRICE_LIMIT};
use crate::store::{series_wf, QuoteStore, SeriesView};

verus! {

/// One record of the upstream provider's historical series, as plain
/// values: the provider's date string and fixed-point prices.
pub struct ProviderQuote {
    pub date: String,
    pub open: i64,
    pub high: i64,
    pub low: i64,
    pub close: i64,
    pub adj_close: i64,
    pub volume: i64,
}

/// Mathematical value of a `ProviderQuote`.
pub struct ProviderQuoteView {
    pub date: Seq<char>,
    pub open: int,
    pub high: int,
    pub low: int,
    pub close: int,
    pub adj_close: int,
    pub volume: int,
}

impl View for ProviderQuote {
    type V = ProviderQuoteView;

    open spec fn view(&self) -> ProviderQuoteView {
        ProviderQuoteView {
            date: self.date@,
            open: self.open as int,
            high: self.high as int,
            low: self.low as int,
            close: self.close as int,
            adj_close: self.adj_close as int,
            volume: self.volume as int,
        }
    }
}

/// The day number a provider record's date string denotes, if any.
pub open spec fn provider_day(q: ProviderQuoteView) -> Option<int> {
    parse_day(vstd::utf8::encode_utf8(q.date))
}

/// A provider record the library accepts: a parseable date, and the stored
/// prices (open, high, low and the adjusted close) in fixed-point range.
pub open spec fn valid_provider_row(q: ProviderQuoteView) -> bool {
    &&& provider_day(q) is Some
    &&& 0 <= q.open < PRICE_LIMIT
    &&& 0 <= q.high < PRICE_LIMIT
    &&& 0 <= q.low < PRICE_LIMIT
    &&& 0 <= q.adj_close < PRICE_LIMIT
}

/// A provider response the library accepts: every record valid, dates
/// strictly ascending.
pub open spec fn valid_batch(b: Seq<ProviderQuoteView>) -> bool {
    &&& forall|i: int| 0 <= i < b.len() ==> valid_provider_row(#[trigger] b[i])
    &&& forall|i: int, j: int|
        0 <= i < j < b.len() ==> provider_day(b[i])->Some_0 < provider_day(b[j])->Some_0
}

/// How a provider record becomes a cached row: the stored close is the
/// provider's adjusted close, and the stored volume is zero by design.
pub open spec fn mapped_row(q: ProviderQuoteView, sym: Seq<char>) -> QuoteView {
    QuoteView {
        symbol: sym,
        date: provider_day(q)->Some_0,
        open: q.open,
        high: q.high,
        low: q.low,
        close: q.adj_close,
        volume: 0,
    }
}

/// The cached rows a whole provider response becomes.
pub open spec fn mapped_batch(b: Seq<ProviderQuoteView>, sym: Seq<char>) -> Seq<QuoteView> {
    Seq::new(b.len(), |i: int| mapped_row(b[i], sym))
}

/// Whether `sym`'s history must be refreshed on day `today`: it is
/// untracked, or was last refreshed before today.
pub open spec fn needs_fetch(store: QuoteStore, sym: Seq<char>, today: int) -> bool {
    !store.has_inst(sym) || store.fetched_of(sym) < today
}

/// Decide whether a refresh is required for `sym` on day `today`.
pub fn fetch_required(store: &QuoteStore, sym: &String, today: i64) -> (r: bool)
    requires
        store.wf(),
    ensures
        r == needs_fetch(*store, sym@, today as int),
{
    match store.get_instrument(sym) {
        None => true,
        Some(inst) => inst.fetched < today,
    }
}

/// Apply a fetched provider response for `sym`, completing on day `today`:
/// validate the whole response, replace `sym`'s rows wholesale, then
/// advance the marker. A rejected response is an `UpstreamFetchFailed` and
/// leaves the store untouched. Returns the number of records stored.
pub fn apply_fetch(store: &mut QuoteStore, sym: &String, today: i64, batch: &Vec<ProviderQuote>)
    -> (r: Result<usize, MsdError>)
    requires
        old(store).wf(),
    ensures
        final(store).wf(),
        r is Ok <==> valid_batch(batch@.map_values(|p: ProviderQuote| p@)),
        r is Err ==> r->Err_0 == MsdError::UpstreamFetchFailed && final(store).insts() == old(
            store,
        ).insts() && final(store).sers() == old(store).sers(),
        r is Ok ==> ({
            &&& r->Ok_0 == batch@.len()
            &&& final(store).has_inst(sym@)
            &&& final(store).fetched_of(sym@) == today
            &&& final(store).series_rows(sym@) == mapped_batch(
                batch@.map_values(|p: ProviderQuote| p@),
                sym@,
            )
            &&& !needs_fetch(*final(store), sym@, today as int)
            &&& forall|s2: Seq<char>|
                s2 != sym@ ==> #[trigger] final(store).has_inst(s2) == old(store).has_inst(s2)
                    && (old(store).has_inst(s2) ==> final(store).fetched_of(s2) == old(
                    store,
                ).fetched_of(s2))
            &&& forall|s2: Seq<char>|
                s2 != sym@ ==> #[trigger] final(store).series_rows(s2) == old(
                    store,
                ).series_rows(s2)
        }),
{
    let ghost pv = batch@.map_values(|p: ProviderQuote| p@);
    let n = batch.len();
    let mut rows: Vec<Quote> = Vec::new();
    let mut k: usize = 0;
    while k < n
        invariant
            n == batch.len(),
            0 <= k <= n,
            *store == *old(store),
            old(store).wf(),
            pv == batch@.map_values(|p: ProviderQuote| p@),
            rows@.len() == k,
            forall|i: int| 0 <= i < k ==> (#[trigger] rows@[i])@ == mapped_row(pv[i], sym@),
            forall|i: int| 0 <= i < k ==> valid_provider_row(#[trigger] pv[i]),
            forall|i: int, j: int|
                0 <= i < j < k ==> provider_day(pv[i])->Some_0 < provider_day(pv[j])->Some_0,
        decreases n - k,
    {
        proof {
            assert(pv[k as int] == batch@[k as int]@);
        }
        let p = &batch[k];
        let day = match parse_date(p.date.as_str()) {
            Ok(d) => d,
            Err(_) => {
                proof {
                    assert(!valid_provider_row(pv[k as int]));
                }
                return Err(MsdError::UpstreamFetchFailed);
            },
        };
        if p.open < 0 || p.open >= PRICE_LIMIT || p.high < 0 || p.high >= PRICE_LIMIT || p.low < 0
            || p.low >= PRICE_LIMIT || p.adj_close < 0 || p.adj_close >= PRICE_LIMIT {
            proof {
                assert(!valid_provider_row(pv[k as int]));
            }
            return Err(MsdError::UpstreamFetchFailed);
        }
        if k > 0 {
            let prev = rows[k - 1].date;
            proof {
                assert(rows@[k - 1]@ == mapped_row(pv[k - 1], sym@));
            }
            if day <= prev {
                proof {
                    assert(!(provider_day(pv[k - 1])->Some_0 < provider_day(
                        pv[k as int],
                    )->Some_0));
                }
                return Err(MsdError::UpstreamFetchFailed);
            }
        }
        rows.push(
            Quote {
                symbol: sym.clone(),
                date: day,
                open: p.open,
                high: p.high,
                low: p.low,
                close: p.adj_close,
                volume: 0,
            },
        );
        k += 1;
    }
    proof {
        assert(valid_batch(pv));
        assert(rows@.map_values(|q: Quote| q@) =~= mapped_batch(pv, sym@));
        let rv = rows@.map_values(|q: Quote| q@);
        assert forall|i: int| 0 <= i < rv.len() implies #[trigger] rv[i] == rows@[i]@ by {}
        assert(series_wf((SeriesView { symbol: sym@, rows: rv })));
    }
    let have_inst = match store.get_instrument(sym) {
        Some(_) => true,
        None => false,
    };
    if !have_inst {
        store.put_instrument(Instrument { symbol: sym.clone(), fetched: NEVER_FETCHED });
    }
    store.replace_quotes(sym, rows);
    store.set_fetched(sym, today);
    Ok(n)
}

/// After a successful refresh, a range query whose bounds cover every
/// fetched date returns exactly the provider's records, with each stored
/// close equal to the provider's adjusted close.
pub proof fn lemma_refresh_then_query(
    store: QuoteStore,
    sym: Seq<char>,
    b: Seq<ProviderQuoteView>,
    lo: int,
    hi: int,
)
    requires
        valid_batch(b),
        store.series_rows(sym) == mapped_batch(b, sym),
        forall|i: int| 0 <= i < b.len() ==> lo <= provider_day(#[trigger] b[i])->Some_0 <= hi,
    ensures
        crate::store::rows_in_range(store.series_rows(sym), lo, hi) == mapped_batch(b, sym),
        forall|i: int|
            0 <= i < b.len() ==> (#[trigger] mapped_batch(b, sym)[i]).close == b[i].adj_close,
{
    let m = mapped_batch(b, sym);
    assert(forall|i: int| 0 <= i < m.len() ==> (#[trigger] m[i]) == mapped_row(b[i], sym));
    crate::store::lemma_rows_in_range_full(m, lo, hi);
}

/// A store refreshed on day `today` needs no further fetch that day: a
/// second request for the same symbol on the same UTC day reuses the cached
/// rows instead of fetching again.
pub proof fn lemma_at_most_one_fetch_per_day(store: QuoteStore, sym: Seq<char>, today: int)
    requires
        store.has_inst(sym),
        store.fetched_of(sym) >= today,
    ensures
        !needs_fetch(store, sym, today),
{
}

} // verus!
