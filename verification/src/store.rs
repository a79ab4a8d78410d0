//! The quote store: per-symbol instrument markers and quote series.
//!
//! The store keeps, for every tracked symbol, one `Instrument` row (the
//! "last refreshed" marker) and one series of `Quote` rows ordered by date.
//! A series is replaced wholesale on refresh, never edited row by row, so a
//! reader always sees the result of one complete refresh.

use vstd::prelude::*;

use crate::dates::DAY_LIMIT;
use crate::errors::MsdError;
use crate::models::{DateTimePeriod, Instrument, InstrumentView, Quote, QuoteView, Quotes, PRICE_LIMIT};

verus! {

/// One symbol's quote rows, ordered by date ascending.
pub struct Series {
    pub symbol: String,
    pub rows: Vec<Quote>,
}

/// Mathematical value of a `Series`.
pub struct SeriesView {
    pub symbol: Seq<char>,
    pub rows: Seq<QuoteView>,
}

impl View for Series {
    type V = SeriesView;

    open spec fn view(&self) -> SeriesView {
        SeriesView { symbol: self.symbol@, rows: self.rows@.map_values(|q: Quote| q@) }
    }
}

/// A quote row the store accepts: a real calendar day and prices in the
/// fixed-point range.
pub open spec fn valid_row(q: QuoteView) -> bool {
    &&& 0 < q.date < DAY_LIMIT
    &&& 0 <= q.open < PRICE_LIMIT
    &&& 0 <= q.high < PRICE_LIMIT
    &&& 0 <= q.low < PRICE_LIMIT
    &&& 0 <= q.close < PRICE_LIMIT
    &&& 0 <= q.volume
}

/// A well-formed series: every row valid and carrying the series' symbol,
/// dates strictly ascending (so `(symbol, date)` is a key).
pub open spec fn series_wf(s: SeriesView) -> bool {
    &&& forall|i: int|
        0 <= i < s.rows.len() ==> valid_row(#[trigger] s.rows[i]) && s.rows[i].symbol == s.symbol
    &&& forall|i: int, j: int| 0 <= i < j < s.rows.len() ==> s.rows[i].date < s.rows[j].date
}

/// The rows of `rows` whose date lies in `[lo, hi]`, in their original
/// order.
pub open spec fn rows_in_range(rows: Seq<QuoteView>, lo: int, hi: int) -> Seq<QuoteView>
    decreases rows.len(),
{
    if rows.len() == 0 {
        Seq::empty()
    } else if lo <= rows.last().date <= hi {
        rows_in_range(rows.drop_last(), lo, hi).push(rows.last())
    } else {
        rows_in_range(rows.drop_last(), lo, hi)
    }
}

/// A valid, date-ascending row sequence spans at least its length minus one
/// days.
pub proof fn lemma_ascending_span(rows: Seq<QuoteView>)
    requires
        forall|i: int, j: int| 0 <= i < j < rows.len() ==> rows[i].date < rows[j].date,
        rows.len() > 0,
    ensures
        rows.last().date - rows[0].date >= rows.len() - 1,
    decreases rows.len(),
{
    if rows.len() > 1 {
        lemma_ascending_span(rows.drop_last());
        assert(rows.drop_last().last().date < rows.last().date);
    }
}

/// What a range filter keeps: valid ascending rows of the queried symbol,
/// dates within the bounds, and no more rows than `DAY_LIMIT` (dates are
/// distinct days below `DAY_LIMIT`).
pub proof fn lemma_rows_in_range_wf(rows: Seq<QuoteView>, lo: int, hi: int)
    requires
        forall|i: int| 0 <= i < rows.len() ==> valid_row(#[trigger] rows[i]),
        forall|i: int, j: int| 0 <= i < j < rows.len() ==> rows[i].date < rows[j].date,
    ensures
        forall|i: int|
            0 <= i < rows_in_range(rows, lo, hi).len() ==> valid_row(
                #[trigger] rows_in_range(rows, lo, hi)[i],
            ) && lo <= rows_in_range(rows, lo, hi)[i].date <= hi,
        forall|i: int|
            0 <= i < rows_in_range(rows, lo, hi).len() ==> rows.len() > 0 && #[trigger] rows_in_range(
                rows,
                lo,
                hi,
            )[i].date <= rows.last().date,
        forall|i: int, j: int|
            0 <= i < j < rows_in_range(rows, lo, hi).len() ==> rows_in_range(rows, lo, hi)[i].date
                < rows_in_range(rows, lo, hi)[j].date,
        rows_in_range(rows, lo, hi).len() <= rows.len(),
        rows_in_range(rows, lo, hi).len() < DAY_LIMIT,
    decreases rows.len(),
{
    let f = rows_in_range(rows, lo, hi);
    if rows.len() == 0 {
    } else {
        lemma_rows_in_range_wf(rows.drop_last(), lo, hi);
        assert(forall|i: int|
            0 <= i < rows.drop_last().len() ==> #[trigger] rows.drop_last()[i] == rows[i]);
        assert(rows.drop_last().len() > 0 ==> rows.drop_last().last().date < rows.last().date);
    }
    if f.len() > 0 {
        lemma_ascending_span(f);
        assert(valid_row(f[0]) && valid_row(f.last()));
    }
}

/// A range filter whose bounds cover every row keeps the whole sequence.
pub proof fn lemma_rows_in_range_full(rows: Seq<QuoteView>, lo: int, hi: int)
    requires
        forall|i: int, j: int| 0 <= i < j < rows.len() ==> rows[i].date < rows[j].date,
        forall|i: int| 0 <= i < rows.len() ==> lo <= (#[trigger] rows[i]).date <= hi,
    ensures
        rows_in_range(rows, lo, hi) == rows,
    decreases rows.len(),
{
    if rows.len() > 0 {
        assert(forall|i: int|
            0 <= i < rows.drop_last().len() ==> #[trigger] rows.drop_last()[i] == rows[i]);
        lemma_rows_in_range_full(rows.drop_last(), lo, hi);
        assert(rows_in_range(rows, lo, hi) =~= rows);
    }
}

/// The in-memory quote store.
pub struct QuoteStore {
    pub instruments: Vec<Instrument>,
    pub series: Vec<Series>,
}

impl QuoteStore {
    /// The instrument rows, as mathematical values.
    pub open spec fn insts(&self) -> Seq<InstrumentView> {
        self.instruments@.map_values(|i: Instrument| i@)
    }

    /// The quote series, as mathematical values.
    pub open spec fn sers(&self) -> Seq<SeriesView> {
        self.series@.map_values(|s: Series| s@)
    }

    /// Store invariant: one instrument row and at most one series per
    /// symbol, every series well formed.
    pub open spec fn wf(&self) -> bool {
        &&& forall|i: int, j: int|
            0 <= i < j < self.insts().len() ==> self.insts()[i].symbol != self.insts()[j].symbol
        &&& forall|i: int, j: int|
            0 <= i < j < self.sers().len() ==> self.sers()[i].symbol != self.sers()[j].symbol
        &&& forall|i: int| 0 <= i < self.sers().len() ==> series_wf(#[trigger] self.sers()[i])
    }

    /// Whether an instrument row exists for `sym`.
    pub open spec fn has_inst(&self, sym: Seq<char>) -> bool {
        exists|i: int| 0 <= i < self.insts().len() && self.insts()[i].symbol == sym
    }

    /// The "last refreshed" day of `sym`'s instrument row.
    pub open spec fn fetched_of(&self, sym: Seq<char>) -> int
        recommends
            self.has_inst(sym),
    {
        self.insts()[choose|i: int|
            0 <= i < self.insts().len() && self.insts()[i].symbol == sym].fetched
    }

    /// Whether a quote series exists for `sym`.
    pub open spec fn has_series(&self, sym: Seq<char>) -> bool {
        exists|i: int| 0 <= i < self.sers().len() && self.sers()[i].symbol == sym
    }

    /// `sym`'s quote rows, date ascending; empty if no series exists.
    pub open spec fn series_rows(&self, sym: Seq<char>) -> Seq<QuoteView> {
        if self.has_series(sym) {
            self.sers()[choose|i: int|
                0 <= i < self.sers().len() && self.sers()[i].symbol == sym].rows
        } else {
            Seq::empty()
        }
    }

    /// If an instrument row with `sym`'s symbol exists, its index is the one
    /// `choose` picks in `fetched_of`.
    proof fn lemma_inst_index(&self, sym: Seq<char>, k: int)
        requires
            self.wf(),
            0 <= k < self.insts().len(),
            self.insts()[k].symbol == sym,
        ensures
            self.has_inst(sym),
            self.fetched_of(sym) == self.insts()[k].fetched,
    {
        assert(self.has_inst(sym));
        let i = choose|i: int| 0 <= i < self.insts().len() && self.insts()[i].symbol == sym;
        if i != k {
            if i < k {
                assert(self.insts()[i].symbol != self.insts()[k].symbol);
            } else {
                assert(self.insts()[k].symbol != self.insts()[i].symbol);
            }
        }
    }

    /// If a series with `sym`'s symbol exists, its rows are what
    /// `series_rows` answers.
    proof fn lemma_series_index(&self, sym: Seq<char>, k: int)
        requires
            self.wf(),
            0 <= k < self.sers().len(),
            self.sers()[k].symbol == sym,
        ensures
            self.has_series(sym),
            self.series_rows(sym) == self.sers()[k].rows,
    {
        assert(self.has_series(sym));
        let i = choose|i: int| 0 <= i < self.sers().len() && self.sers()[i].symbol == sym;
        if i != k {
            if i < k {
                assert(self.sers()[i].symbol != self.sers()[k].symbol);
            } else {
                assert(self.sers()[k].symbol != self.sers()[i].symbol);
            }
        }
    }

    /// The instrument row for `sym`, if one exists.
    pub fn get_instrument(&self, sym: &String) -> (r: Option<Instrument>)
        requires
            self.wf(),
        ensures
            r is Some <==> self.has_inst(sym@),
            r is Some ==> r->0@.symbol == sym@ && r->0@.fetched == self.fetched_of(sym@),
    {
        let n = self.instruments.len();
        let mut i: usize = 0;
        while i < n
            invariant
                self.wf(),
                n == self.instruments.len(),
                0 <= i <= n,
                forall|k: int| 0 <= k < i ==> self.insts()[k].symbol != sym@,
            decreases n - i,
        {
            let inst = &self.instruments[i];
            proof {
                assert(self.insts()[i as int] == self.instruments@[i as int]@);
            }
            if inst.symbol == *sym {
                proof {
                    self.lemma_inst_index(sym@, i as int);
                }
                return Some(Instrument { symbol: inst.symbol.clone(), fetched: inst.fetched });
            }
            i += 1;
        }
        proof {
            assert(!self.has_inst(sym@));
        }
        None
    }

    /// Every tracked instrument, in insertion order.
    pub fn get_instruments(&self) -> (r: Vec<Instrument>)
        ensures
            r@.map_values(|x: Instrument| x@) == self.insts(),
    {
        let n = self.instruments.len();
        let mut r: Vec<Instrument> = Vec::new();
        let mut i: usize = 0;
        while i < n
            invariant
                n == self.instruments.len(),
                0 <= i <= n,
                r@.len() == i,
                forall|k: int| 0 <= k < i ==> (#[trigger] r@[k])@ == self.insts()[k],
            decreases n - i,
        {
            let inst = &self.instruments[i];
            proof {
                assert(self.insts()[i as int] == self.instruments@[i as int]@);
            }
            r.push(Instrument { symbol: inst.symbol.clone(), fetched: inst.fetched });
            i += 1;
        }
        proof {
            assert(r@.map_values(|x: Instrument| x@) =~= self.insts());
        }
        r
    }

    /// Add an instrument row for a symbol the store does not track yet.
    pub fn put_instrument(&mut self, inst: Instrument)
        requires
            old(self).wf(),
            !old(self).has_inst(inst@.symbol),
        ensures
            final(self).wf(),
            final(self).insts() == old(self).insts().push(inst@),
            final(self).sers() == old(self).sers(),
            final(self).has_inst(inst@.symbol),
            final(self).fetched_of(inst@.symbol) == inst@.fetched,
            forall|s2: Seq<char>|
                s2 != inst@.symbol ==> #[trigger] final(self).has_inst(s2) == old(self).has_inst(
                    s2,
                ) && (old(self).has_inst(s2) ==> final(self).fetched_of(s2) == old(
                    self,
                ).fetched_of(s2)),
            forall|s2: Seq<char>| #[trigger]
                final(self).series_rows(s2) == old(self).series_rows(s2),
    {
        let ghost old_self = *self;
        let ghost iv = inst@;
        self.instruments.push(inst);
        proof {
            assert(self.insts() =~= old_self.insts().push(iv));
            assert(self.sers() =~= old_self.sers());
            let n = old_self.insts().len();
            assert forall|i: int, j: int| 0 <= i < j < self.insts().len() implies self.insts()[i].symbol
                != self.insts()[j].symbol by {
                if j < n {
                    assert(old_self.insts()[i].symbol != old_self.insts()[j].symbol);
                } else {
                    if self.insts()[i].symbol == iv.symbol {
                        assert(old_self.has_inst(iv.symbol));
                    }
                }
            }
            self.lemma_inst_index(iv.symbol, n as int);
            assert forall|s2: Seq<char>|
                s2 != iv.symbol implies #[trigger] self.has_inst(s2) == old_self.has_inst(s2) && (
            old_self.has_inst(s2) ==> self.fetched_of(s2) == old_self.fetched_of(s2)) by {
                if old_self.has_inst(s2) {
                    let k = choose|i: int|
                        0 <= i < old_self.insts().len() && old_self.insts()[i].symbol == s2;
                    self.lemma_inst_index(s2, k);
                } else {
                    if self.has_inst(s2) {
                        let k = choose|i: int|
                            0 <= i < self.insts().len() && self.insts()[i].symbol == s2;
                        assert(k == n);
                    }
                }
            }
            assert forall|s2: Seq<char>| #[trigger]
                self.series_rows(s2) == old_self.series_rows(s2) by {
                assert(self.has_series(s2) == old_self.has_series(s2));
            }
        }
    }

    /// Move `sym`'s "last refreshed" marker to `day`.
    pub fn set_fetched(&mut self, sym: &String, day: i64)
        requires
            old(self).wf(),
            old(self).has_inst(sym@),
        ensures
            final(self).wf(),
            final(self).has_inst(sym@),
            final(self).fetched_of(sym@) == day,
            final(self).insts().len() == old(self).insts().len(),
            forall|s2: Seq<char>|
                s2 != sym@ ==> #[trigger] final(self).has_inst(s2) == old(self).has_inst(s2) && (
                old(self).has_inst(s2) ==> final(self).fetched_of(s2) == old(self).fetched_of(
                    s2,
                )),
            final(self).sers() == old(self).sers(),
            forall|s2: Seq<char>| #[trigger]
                final(self).series_rows(s2) == old(self).series_rows(s2),
    {
        let ghost old_self = *old(self);
        let n = self.instruments.len();
        let mut i: usize = 0;
        while i < n
            invariant
                n == self.instruments.len(),
                0 <= i <= n,
                *self == old_self,
                old_self == *old(self),
                old_self.wf(),
                forall|k: int| 0 <= k < i ==> self.insts()[k].symbol != sym@,
            decreases n - i,
        {
            proof {
                assert(self.insts()[i as int] == self.instruments@[i as int]@);
            }
            if self.instruments[i].symbol == *sym {
                let slot = vstd::std_specs::vec::vec_index_mut(&mut self.instruments, i);
                slot.fetched = day;
                proof {
                    assert(self.insts() =~= old_self.insts().update(
                        i as int,
                        InstrumentView { symbol: sym@, fetched: day as int },
                    ));
                    assert(self.sers() =~= old_self.sers());
                    assert forall|a: int, b: int|
                        0 <= a < b < self.insts().len() implies self.insts()[a].symbol
                        != self.insts()[b].symbol by {
                        assert(old_self.insts()[a].symbol != old_self.insts()[b].symbol);
                    }
                    self.lemma_inst_index(sym@, i as int);
                    assert forall|s2: Seq<char>|
                        s2 != sym@ implies #[trigger] self.has_inst(s2) == old_self.has_inst(s2)
                        && (old_self.has_inst(s2) ==> self.fetched_of(s2)
                        == old_self.fetched_of(s2)) by {
                        if old_self.has_inst(s2) {
                            let k = choose|t: int|
                                0 <= t < old_self.insts().len() && old_self.insts()[t].symbol
                                    == s2;
                            assert(self.insts()[k].symbol == s2);
                            self.lemma_inst_index(s2, k);
                            old_self.lemma_inst_index(s2, k);
                        } else {
                            if self.has_inst(s2) {
                                let k = choose|t: int|
                                    0 <= t < self.insts().len() && self.insts()[t].symbol == s2;
                                assert(old_self.insts()[k].symbol == s2);
                            }
                        }
                    }
                    assert forall|s2: Seq<char>| #[trigger]
                        self.series_rows(s2) == old_self.series_rows(s2) by {
                        assert(self.has_series(s2) == old_self.has_series(s2));
                    }
                }
                return ;
            }
            i += 1;
        }
        proof {
            assert(!old_self.has_inst(sym@));
        }
    }

    /// Every series' rows are valid and date-ascending (trivially so for a
    /// symbol with no series).
    pub proof fn lemma_series_rows_wf(&self, sym: Seq<char>)
        requires
            self.wf(),
        ensures
            forall|i: int|
                0 <= i < self.series_rows(sym).len() ==> valid_row(
                    #[trigger] self.series_rows(sym)[i],
                ) && self.series_rows(sym)[i].symbol == sym,
            forall|i: int, j: int|
                0 <= i < j < self.series_rows(sym).len() ==> self.series_rows(sym)[i].date
                    < self.series_rows(sym)[j].date,
    {
        if self.has_series(sym) {
            let k = choose|i: int| 0 <= i < self.sers().len() && self.sers()[i].symbol == sym;
            assert(series_wf(self.sers()[k]));
        }
    }

    /// Replace `sym`'s quote series wholesale with `batch`; every other
    /// symbol's rows and all instrument markers are untouched.
    pub fn replace_quotes(&mut self, sym: &String, batch: Vec<Quote>)
        requires
            old(self).wf(),
            series_wf(
                (SeriesView { symbol: sym@, rows: batch@.map_values(|q: Quote| q@) }),
            ),
        ensures
            final(self).wf(),
            final(self).insts() == old(self).insts(),
            final(self).has_series(sym@),
            final(self).series_rows(sym@) == batch@.map_values(|q: Quote| q@),
            forall|s2: Seq<char>|
                s2 != sym@ ==> #[trigger] final(self).series_rows(s2) == old(self).series_rows(
                    s2,
                ),
            forall|s2: Seq<char>|
                s2 != sym@ ==> #[trigger] final(self).has_inst(s2) == old(self).has_inst(s2) && (
                old(self).has_inst(s2) ==> final(self).fetched_of(s2) == old(self).fetched_of(
                    s2,
                )),
            final(self).has_inst(sym@) == old(self).has_inst(sym@),
            old(self).has_inst(sym@) ==> final(self).fetched_of(sym@) == old(self).fetched_of(
                sym@,
            ),
    {
        let ghost old_self = *old(self);
        let ghost bview = batch@.map_values(|q: Quote| q@);
        let n = self.series.len();
        let mut i: usize = 0;
        while i < n
            invariant
                n == self.series.len(),
                0 <= i <= n,
                *self == old_self,
                old_self == *old(self),
                old_self.wf(),
                bview == batch@.map_values(|q: Quote| q@),
                series_wf((SeriesView { symbol: sym@, rows: bview })),
                forall|k: int| 0 <= k < i ==> self.sers()[k].symbol != sym@,
            decreases n - i,
        {
            proof {
                assert(self.sers()[i as int] == self.series@[i as int]@);
            }
            if self.series[i].symbol == *sym {
                let slot = vstd::std_specs::vec::vec_index_mut(&mut self.series, i);
                slot.rows = batch;
                proof {
                    assert(self.sers() =~= old_self.sers().update(
                        i as int,
                        SeriesView { symbol: sym@, rows: bview },
                    ));
                    assert(self.insts() =~= old_self.insts());
                    assert forall|a: int, b: int|
                        0 <= a < b < self.sers().len() implies self.sers()[a].symbol
                        != self.sers()[b].symbol by {
                        assert(old_self.sers()[a].symbol != old_self.sers()[b].symbol);
                    }
                    self.lemma_series_index(sym@, i as int);
                    assert forall|s2: Seq<char>|
                        s2 != sym@ implies #[trigger] self.series_rows(s2)
                        == old_self.series_rows(s2) by {
                        if old_self.has_series(s2) {
                            let k = choose|t: int|
                                0 <= t < old_self.sers().len() && old_self.sers()[t].symbol
                                    == s2;
                            assert(self.sers()[k].symbol == s2);
                            self.lemma_series_index(s2, k);
                            old_self.lemma_series_index(s2, k);
                        } else {
                            if self.has_series(s2) {
                                let k = choose|t: int|
                                    0 <= t < self.sers().len() && self.sers()[t].symbol == s2;
                                assert(old_self.sers()[k].symbol == s2);
                            }
                        }
                    }
                }
                return ;
            }
            i += 1;
        }
        proof {
            assert(!old_self.has_series(sym@));
        }
        let entry = Series { symbol: sym.clone(), rows: batch };
        self.series.push(entry);
        proof {
            assert(self.sers() =~= old_self.sers().push(
                SeriesView { symbol: sym@, rows: bview },
            ));
            assert(self.insts() =~= old_self.insts());
            assert forall|a: int, b: int|
                0 <= a < b < self.sers().len() implies self.sers()[a].symbol
                != self.sers()[b].symbol by {
                if b < n {
                    assert(old_self.sers()[a].symbol != old_self.sers()[b].symbol);
                } else {
                    if self.sers()[a].symbol == sym@ {
                        assert(old_self.has_series(sym@));
                    }
                }
            }
            self.lemma_series_index(sym@, n as int);
            assert forall|s2: Seq<char>|
                s2 != sym@ implies #[trigger] self.series_rows(s2) == old_self.series_rows(
                s2,
            ) by {
                if old_self.has_series(s2) {
                    let k = choose|t: int|
                        0 <= t < old_self.sers().len() && old_self.sers()[t].symbol == s2;
                    assert(self.sers()[k].symbol == s2);
                    self.lemma_series_index(s2, k);
                    old_self.lemma_series_index(s2, k);
                } else {
                    if self.has_series(s2) {
                        let k = choose|t: int|
                            0 <= t < self.sers().len() && self.sers()[t].symbol == s2;
                        assert(k == n);
                    }
                }
            }
        }
    }

    /// The quote rows for `sym` with date in `[dtp.start, dtp.end]`, date
    /// ascending.
    pub fn get_quotes(&self, sym: &String, dtp: &DateTimePeriod) -> (r: Vec<Quote>)
        requires
            self.wf(),
        ensures
            r@.map_values(|q: Quote| q@) == rows_in_range(
                self.series_rows(sym@),
                dtp.start as int,
                dtp.end as int,
            ),
    {
        let ghost srows = self.series_rows(sym@);
        let mut out: Vec<Quote> = Vec::new();
        let n = self.series.len();
        let mut i: usize = 0;
        while i < n
            invariant
                n == self.series.len(),
                0 <= i <= n,
                self.wf(),
                srows == self.series_rows(sym@),
                out@.len() == 0,
                forall|k: int| 0 <= k < i ==> self.sers()[k].symbol != sym@,
            decreases n - i,
        {
            proof {
                assert(self.sers()[i as int] == self.series@[i as int]@);
            }
            if self.series[i].symbol == *sym {
                proof {
                    self.lemma_series_index(sym@, i as int);
                }
                let rows = &self.series[i].rows;
                let m = rows.len();
                let mut k: usize = 0;
                while k < m
                    invariant
                        m == rows.len(),
                        0 <= k <= m,
                        rows@.map_values(|q: Quote| q@) == srows,
                        out@.map_values(|q: Quote| q@) =~= rows_in_range(
                            srows.take(k as int),
                            dtp.start as int,
                            dtp.end as int,
                        ),
                    decreases m - k,
                {
                    let q = &rows[k];
                    proof {
                        assert(srows[k as int] == rows@[k as int]@);
                        assert(srows.take(k + 1).drop_last() =~= srows.take(k as int));
                        assert(srows.take(k + 1).last() == srows[k as int]);
                    }
                    if dtp.start <= q.date && q.date <= dtp.end {
                        out.push(
                            Quote {
                                symbol: q.symbol.clone(),
                                date: q.date,
                                open: q.open,
                                high: q.high,
                                low: q.low,
                                close: q.close,
                                volume: q.volume,
                            },
                        );
                    }
                    proof {
                        assert(out@.map_values(|q2: Quote| q2@) =~= rows_in_range(
                            srows.take(k + 1),
                            dtp.start as int,
                            dtp.end as int,
                        ));
                    }
                    k += 1;
                }
                proof {
                    assert(srows.take(m as int) =~= srows);
                }
                return out;
            }
            i += 1;
        }
        proof {
            assert(!self.has_series(sym@));
            assert(srows =~= Seq::<QuoteView>::empty());
            assert(out@.map_values(|q: Quote| q@) =~= rows_in_range(
                srows,
                dtp.start as int,
                dtp.end as int,
            ));
        }
        out
    }

    /// The quote-range query packaged as a response: the resolved interval
    /// together with the rows `get_quotes` answers.
    pub fn quotes_response(&self, sym: &String, dtp: &DateTimePeriod) -> (r: Quotes)
        requires
            self.wf(),
        ensures
            r.symbol@ == sym@,
            r.start == dtp.start,
            r.end == dtp.end,
            r.duration == dtp.duration,
            r.quotes@.map_values(|q: Quote| q@) == rows_in_range(
                self.series_rows(sym@),
                dtp.start as int,
                dtp.end as int,
            ),
    {
        Quotes {
            symbol: sym.clone(),
            start: dtp.start,
            end: dtp.end,
            duration: dtp.duration,
            quotes: self.get_quotes(sym, dtp),
        }
    }

    /// An empty store.
    pub fn new() -> (s: QuoteStore)
        ensures
            s.wf(),
            s.insts() == Seq::<InstrumentView>::empty(),
            s.sers() == Seq::<SeriesView>::empty(),
    {
        let s = QuoteStore { instruments: Vec::new(), series: Vec::new() };
        proof {
            assert(s.insts() =~= Seq::<InstrumentView>::empty());
            assert(s.sers() =~= Seq::<SeriesView>::empty());
        }
        s
    }
}

} // verus!
