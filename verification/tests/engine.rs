use msd::crossover::get_crossovers;
use msd::dates::day_from_ymd;
use msd::errors::MsdError;
use msd::freshness::{apply_fetch, fetch_required, ProviderQuote};
use msd::models::{DateTimePeriod, NEVER_FETCHED, PRICE_SCALE};
use msd::stats::get_stats;
use msd::store::QuoteStore;
use msd::system_summary;

fn pq(date: &str, close_units: i64) -> ProviderQuote {
    let p: i64 = close_units * PRICE_SCALE;
    ProviderQuote {
        date: date.to_string(),
        open: p,
        high: p,
        low: p,
        close: p + 1,
        adj_close: p,
        volume: 12345,
    }
}

fn period(start: &str, end: &str) -> DateTimePeriod {
    let s: i64 = msd::dates::parse_date(start).unwrap();
    let e: i64 = msd::dates::parse_date(end).unwrap();
    DateTimePeriod { start: s, end: e, duration: e - s }
}

const TODAY: i64 = 739300;

#[test]
fn refresh_is_fetched_at_most_once_per_day() {
    let mut store = QuoteStore::new();
    let sym = "AAPL".to_string();
    let batch = vec![pq("2024-01-01", 10), pq("2024-01-02", 20)];
    let mut fetches: u32 = 0;
    for _ in 0..2 {
        if fetch_required(&store, &sym, TODAY) {
            apply_fetch(&mut store, &sym, TODAY, &batch).unwrap();
            fetches += 1;
        }
    }
    assert_eq!(fetches, 1);
    let inst = store.get_instrument(&sym).unwrap();
    assert_eq!(inst.fetched, TODAY);
    assert!(fetch_required(&store, &sym, TODAY + 1));
}

#[test]
fn concurrent_style_callers_see_one_fetch_and_the_same_data() {
    let mut store = QuoteStore::new();
    let sym = "NEW".to_string();
    let batch = vec![pq("2024-01-01", 10), pq("2024-01-02", 20), pq("2024-01-03", 30)];
    let mut fetches: u32 = 0;
    let mut seen = Vec::new();
    for _ in 0..5 {
        if fetch_required(&store, &sym, TODAY) {
            apply_fetch(&mut store, &sym, TODAY, &batch).unwrap();
            fetches += 1;
        }
        let rows = store.get_quotes(&sym, &period("2024-01-01", "2024-01-03"));
        seen.push(rows.iter().map(|q| (q.date, q.close)).collect::<Vec<_>>());
    }
    assert_eq!(fetches, 1);
    for s in &seen {
        assert_eq!(s, &seen[0]);
        assert_eq!(s.len(), 3);
    }
}

#[test]
fn refresh_stores_the_adjusted_close_and_zero_volume() {
    let mut store = QuoteStore::new();
    let sym = "MSFT".to_string();
    let batch = vec![pq("2024-01-01", 10), pq("2024-01-02", 20), pq("2024-01-05", 30)];
    let stored: usize = apply_fetch(&mut store, &sym, TODAY, &batch).unwrap();
    assert_eq!(stored, 3);
    let rows = store.get_quotes(&sym, &period("2024-01-01", "2024-01-05"));
    assert_eq!(rows.len(), 3);
    for (row, src) in rows.iter().zip(batch.iter()) {
        assert_eq!(row.symbol, sym);
        assert_eq!(row.date, msd::dates::parse_date(&src.date).unwrap());
        assert_eq!(row.close, src.adj_close);
        assert_ne!(row.close, src.close);
        assert_eq!(row.open, src.open);
        assert_eq!(row.volume, 0);
    }
}

#[test]
fn rejected_responses_leave_the_store_unchanged() {
    let mut store = QuoteStore::new();
    let sym = "AAPL".to_string();
    apply_fetch(&mut store, &sym, TODAY, &vec![pq("2024-01-01", 10)]).unwrap();

    let bad_date = vec![pq("2024-01-02", 10), pq("not-a-date", 20)];
    assert_eq!(
        apply_fetch(&mut store, &sym, TODAY + 1, &bad_date),
        Err(MsdError::UpstreamFetchFailed)
    );
    let out_of_order = vec![pq("2024-01-05", 10), pq("2024-01-04", 20)];
    assert_eq!(
        apply_fetch(&mut store, &sym, TODAY + 1, &out_of_order),
        Err(MsdError::UpstreamFetchFailed)
    );
    let duplicate_date = vec![pq("2024-01-05", 10), pq("2024-01-05", 20)];
    assert_eq!(
        apply_fetch(&mut store, &sym, TODAY + 1, &duplicate_date),
        Err(MsdError::UpstreamFetchFailed)
    );
    let bad_price = vec![ProviderQuote { open: -1, ..pq("2024-01-02", 10) }];
    assert_eq!(
        apply_fetch(&mut store, &sym, TODAY + 1, &bad_price),
        Err(MsdError::UpstreamFetchFailed)
    );

    let inst = store.get_instrument(&sym).unwrap();
    assert_eq!(inst.fetched, TODAY);
    let rows = store.get_quotes(&sym, &period("2024-01-01", "2024-01-31"));
    assert_eq!(rows.len(), 1);
    assert_eq!(rows[0].date, day_from_ymd(2024, 1, 1));
}

#[test]
fn stats_over_three_consecutive_days() {
    let mut store = QuoteStore::new();
    let sym = "AAPL".to_string();
    let batch = vec![pq("2024-01-01", 10), pq("2024-01-02", 20), pq("2024-01-03", 30)];
    apply_fetch(&mut store, &sym, TODAY, &batch).unwrap();
    let st = get_stats(&store, &sym, &period("2024-01-01", "2024-01-03")).unwrap();
    assert_eq!(st.count, 3);
    assert_eq!(st.mean, 20 * PRICE_SCALE);
    assert_eq!(st.min, 10 * PRICE_SCALE);
    assert_eq!(st.max, 30 * PRICE_SCALE);
    assert_eq!(st.close, 30 * PRICE_SCALE);
    assert_eq!(st.sum, 60 * PRICE_SCALE);
    assert_eq!(st.symbol, sym);
}

#[test]
fn stats_mean_rounds_toward_zero_and_extremes_need_no_order() {
    let mut store = QuoteStore::new();
    let sym = "AAPL".to_string();
    let batch = vec![pq("2024-01-01", 30), pq("2024-01-02", 10), pq("2024-01-03", 20)];
    apply_fetch(&mut store, &sym, TODAY, &batch).unwrap();
    let st = get_stats(&store, &sym, &period("2024-01-01", "2024-01-03")).unwrap();
    assert_eq!(st.sum, 60 * PRICE_SCALE);
    assert_eq!(st.mean, 20 * PRICE_SCALE);
    assert_eq!(st.min, 10 * PRICE_SCALE);
    assert_eq!(st.max, 30 * PRICE_SCALE);
    assert_eq!(st.close, 20 * PRICE_SCALE);

    let mut store2 = QuoteStore::new();
    let batch2 = vec![pq("2024-01-01", 10), pq("2024-01-02", 10), pq("2024-01-03", 11)];
    apply_fetch(&mut store2, &sym, TODAY, &batch2).unwrap();
    let st2 = get_stats(&store2, &sym, &period("2024-01-01", "2024-01-03")).unwrap();
    assert_eq!(st2.sum, 31 * PRICE_SCALE);
    assert_eq!(st2.mean, 31 * PRICE_SCALE / 3);
    assert_eq!(st2.mean, 103333);
}

#[test]
fn stats_on_an_empty_range_fail_with_empty_range() {
    let mut store = QuoteStore::new();
    let sym = "AAPL".to_string();
    let batch = vec![pq("2024-01-01", 10)];
    apply_fetch(&mut store, &sym, TODAY, &batch).unwrap();
    let r = get_stats(&store, &sym, &period("2024-02-01", "2024-02-10"));
    assert_eq!(r.err(), Some(MsdError::EmptyRange));
    let r2 = get_stats(&store, &"GONE".to_string(), &period("2024-01-01", "2024-01-03"));
    assert_eq!(r2.err(), Some(MsdError::EmptyRange));
}

#[test]
fn crossover_emits_exactly_one_transition() {
    let mut store = QuoteStore::new();
    let sym = "AAPL".to_string();
    let batch = vec![
        pq("2024-01-01", 10),
        pq("2024-01-02", 10),
        pq("2024-01-03", 10),
        pq("2024-01-04", 10),
        pq("2024-01-05", 100),
    ];
    apply_fetch(&mut store, &sym, TODAY, &batch).unwrap();
    let start: i64 = day_from_ymd(2024, 1, 1);
    let end: i64 = day_from_ymd(2024, 1, 6);
    let dtp = DateTimePeriod { start, end, duration: end - start };
    let resp = get_crossovers(&store, &sym, &dtp, 1, 3);
    assert_eq!(resp.symbol, sym);
    assert_eq!(resp.small_window, 1);
    assert_eq!(resp.large_window, 3);
    assert_eq!(resp.signals.len(), 1);
    let sig = &resp.signals[0];
    assert_eq!(sig.date, day_from_ymd(2024, 1, 5));
    assert!(sig.long);
    assert!(!sig.short);
    assert_eq!(sig.close, 100 * PRICE_SCALE);
    assert_eq!(sig.sm_sma, 55 * PRICE_SCALE);
    assert_eq!(sig.lg_sma, 325 * PRICE_SCALE / 10);
}

#[test]
fn crossover_detects_a_downward_flip() {
    let mut store = QuoteStore::new();
    let sym = "AAPL".to_string();
    let batch = vec![
        pq("2024-01-01", 100),
        pq("2024-01-02", 100),
        pq("2024-01-03", 100),
        pq("2024-01-04", 100),
        pq("2024-01-05", 10),
    ];
    apply_fetch(&mut store, &sym, TODAY, &batch).unwrap();
    let start: i64 = day_from_ymd(2024, 1, 1);
    let end: i64 = day_from_ymd(2024, 1, 6);
    let dtp = DateTimePeriod { start, end, duration: end - start };
    let resp = get_crossovers(&store, &sym, &dtp, 1, 3);
    assert_eq!(resp.signals.len(), 1);
    let sig = &resp.signals[0];
    assert_eq!(sig.date, day_from_ymd(2024, 1, 5));
    assert!(!sig.long);
    assert!(sig.short);
}

#[test]
fn crossover_with_no_history_is_empty_not_an_error() {
    let store = QuoteStore::new();
    let sym = "NONE".to_string();
    let dtp = DateTimePeriod { start: 739191, end: 739201, duration: 10 };
    let resp = get_crossovers(&store, &sym, &dtp, 7, 21);
    assert_eq!(resp.signals.len(), 0);
}

#[test]
fn quotes_response_carries_the_interval_and_rows() {
    let mut store = QuoteStore::new();
    let sym = "AAPL".to_string();
    let batch = vec![pq("2024-01-01", 10), pq("2024-01-02", 20), pq("2024-02-01", 30)];
    apply_fetch(&mut store, &sym, TODAY, &batch).unwrap();
    let dtp = period("2024-01-01", "2024-01-31");
    let resp = store.quotes_response(&sym, &dtp);
    assert_eq!(resp.symbol, sym);
    assert_eq!(resp.start, dtp.start);
    assert_eq!(resp.end, dtp.end);
    assert_eq!(resp.duration, 30);
    assert_eq!(resp.quotes.len(), 2);
    assert_eq!(resp.quotes[0].date, day_from_ymd(2024, 1, 1));
    assert_eq!(resp.quotes[1].date, day_from_ymd(2024, 1, 2));
}

#[test]
fn summary_lists_every_instrument() {
    let mut store = QuoteStore::new();
    apply_fetch(&mut store, &"AAPL".to_string(), TODAY, &vec![pq("2024-01-01", 10)]).unwrap();
    apply_fetch(&mut store, &"MSFT".to_string(), TODAY, &vec![pq("2024-01-01", 10)]).unwrap();
    let summary = system_summary(&store);
    assert_eq!(summary.language, "Rust");
    let symbols: Vec<String> = summary.instruments.iter().map(|i| i.symbol.clone()).collect();
    assert_eq!(symbols, vec!["AAPL".to_string(), "MSFT".to_string()]);
    assert!(summary.instruments.iter().all(|i| i.fetched == TODAY));
    assert!(NEVER_FETCHED < msd::dates::epoch());
}
