use price_backfill::fetch::{CoingeckoProvider, DatabaseSymbolToName};
use price_backfill::models::{FetchError, Mapping, Mode, Price};
use price_backfill::pipeline::{parse_response, request_url, Ingest, Step};
use price_backfill::store::PriceStore;

fn row(symbol: &str, name: &str) -> Mapping {
    Mapping { symbol: symbol.to_string(), name: name.to_string() }
}

fn rows() -> Vec<Mapping> {
    vec![row("BTC", "bitcoin"), row("ETH", "ethereum"), row("BTC", "other")]
}

fn price(dt: i64, base: &str, usd: i64, eur: i64) -> Price {
    Price { dt, base: base.to_string(), in_usd: usd.into(), in_eur: eur.into() }
}

#[test]
fn resolve_known_and_first_match() {
    let r = DatabaseSymbolToName::new(rows());
    assert_eq!(r.resolve("ETH").unwrap(), "ethereum");
    assert_eq!(r.resolve("BTC").unwrap(), "bitcoin");
}

#[test]
fn resolve_unknown_is_not_found() {
    let r = DatabaseSymbolToName::new(rows());
    assert_eq!(r.resolve("SOL").unwrap_err(), FetchError::ResolutionNotFound);
    assert_eq!(r.resolve("btc").unwrap_err(), FetchError::ResolutionNotFound);
}

#[test]
fn urls_use_provider_name() {
    let p = CoingeckoProvider::new(DatabaseSymbolToName::new(rows()));
    assert_eq!(p.price_url("BTC").unwrap(), "https://api.coingecko.com/api/v3/coins/bitcoin");
    assert_eq!(
        p.historical_url("ETH").unwrap(),
        "https://api.coingecko.com/api/v3/coins/ethereum/market_chart?vs_currency=eur&days=30&interval=hourly"
    );
    assert_eq!(request_url(&p, "ETH", Mode::Last).unwrap(), "https://api.coingecko.com/api/v3/coins/ethereum");
}

#[test]
fn unknown_symbol_fails_both_fetches() {
    let p = CoingeckoProvider::new(DatabaseSymbolToName::new(rows()));
    assert_eq!(p.price_url("SOL").unwrap_err(), FetchError::ResolutionNotFound);
    assert_eq!(p.historical_url("SOL").unwrap_err(), FetchError::ResolutionNotFound);
    assert_eq!(request_url(&p, "SOL", Mode::Historical).unwrap_err(), FetchError::ResolutionNotFound);
}

#[test]
fn parse_response_by_mode() {
    let detail = r#"{"market_data":{"current_price":{"eur":1,"usd":2}},"last_updated":"2023-01-01T00:00:00.5Z"}"#;
    let ps = parse_response("BTC", Mode::Last, detail).unwrap();
    assert_eq!(ps.len(), 1);
    assert_eq!(ps[0].dt, 1672531200);
    let chart = r#"{"prices":[[1000, 1], [2000, 2], [3000, 3]]}"#;
    let ps = parse_response("BTC", Mode::Historical, chart).unwrap();
    assert_eq!(ps.iter().map(|p| p.dt).collect::<Vec<_>>(), vec![1, 2, 3]);
}

#[test]
fn upsert_twice_keeps_one_row_with_second_values() {
    let mut s = PriceStore::new(rows());
    s.upsert_all(vec![price(10, "BTC", 1, 2)]);
    s.upsert_all(vec![price(10, "BTC", 3, 4)]);
    assert_eq!(s.count_all(), 1);
    assert_eq!(s.prices[0].in_usd.as_i64(), Some(3));
    assert_eq!(s.prices[0].in_eur.as_i64(), Some(4));
}

#[test]
fn upsert_same_record_twice_is_idempotent() {
    let mut s = PriceStore::new(rows());
    s.upsert_all(vec![price(10, "BTC", 1, 2), price(11, "ETH", 5, 6)]);
    s.upsert_all(vec![price(10, "BTC", 1, 2)]);
    assert_eq!(s.count_all(), 2);
    assert_eq!(s.prices[0].in_usd.as_i64(), Some(1));
}

#[test]
fn batch_with_shared_key_last_wins() {
    let mut s = PriceStore::new(rows());
    s.upsert_all(vec![price(10, "BTC", 1, 2), price(10, "BTC", 7, 8), price(10, "ETH", 9, 9)]);
    assert_eq!(s.count_all(), 2);
    assert_eq!(s.prices[0].in_usd.as_i64(), Some(7));
    assert_eq!(s.prices[0].in_eur.as_i64(), Some(8));
    assert_eq!(s.prices[1].base, "ETH");
}

#[test]
fn different_time_or_symbol_are_separate_rows() {
    let mut s = PriceStore::new(rows());
    s.upsert_all(vec![price(10, "BTC", 1, 1), price(11, "BTC", 1, 1), price(10, "ETH", 1, 1)]);
    assert_eq!(s.count_all(), 3);
}

#[test]
fn delete_then_count_is_zero_and_mapping_kept() {
    let mut s = PriceStore::new(rows());
    s.upsert_all(vec![price(10, "BTC", 1, 1), price(11, "BTC", 1, 1)]);
    assert_eq!(s.count_all(), 2);
    s.delete_all();
    assert_eq!(s.count_all(), 0);
    assert_eq!(s.mapping.len(), 3);
    assert_eq!(s.list_mapped_symbols(), vec!["BTC", "ETH", "BTC"]);
}

fn run(symbols: &[&str], fetched: Vec<Result<String, FetchError>>) -> (Step, Option<Vec<Price>>, usize) {
    let mut ingest = Ingest::new(Mode::Historical, symbols.iter().map(|s| s.to_string()).collect());
    let mut fetched = fetched.into_iter();
    let mut count = 0;
    loop {
        match ingest.next_step() {
            Step::Fetch(sym) => {
                assert_eq!(sym, symbols[count]);
                count += 1;
                ingest.record(fetched.next().unwrap());
            }
            Step::Commit => return (Step::Commit, Some(ingest.finish()), count),
            other => return (other, None, count),
        }
    }
}

fn chart(body: &str) -> Result<String, FetchError> {
    Ok(body.to_string())
}

#[test]
fn run_commits_all_records_in_order() {
    let (step, batch, fetched) = run(
        &["BTC", "ETH", "DOGE"],
        vec![chart(r#"{"prices":[[1000, 1]]}"#), chart(r#"{"prices":[]}"#), chart(r#"{"prices":[[2000, 1], [3000, 1]]}"#)],
    );
    assert!(matches!(step, Step::Commit));
    assert_eq!(fetched, 3);
    let batch = batch.unwrap();
    assert_eq!(batch.iter().map(|p| p.dt).collect::<Vec<_>>(), vec![1, 2, 3]);
    assert_eq!(batch.iter().map(|p| p.base.as_str()).collect::<Vec<_>>(), vec!["BTC", "DOGE", "DOGE"]);
}

#[test]
fn run_fails_fast_on_second_of_three() {
    let (step, batch, fetched) = run(
        &["BTC", "ETH", "DOGE"],
        vec![chart(r#"{"prices":[[1000, 1]]}"#), Err(FetchError::Transport), chart(r#"{"prices":[[2000, 1]]}"#)],
    );
    assert!(matches!(step, Step::Abort(FetchError::Transport)));
    assert!(batch.is_none());
    assert_eq!(fetched, 2);
}

#[test]
fn run_stops_on_a_malformed_body() {
    let (step, batch, fetched) = run(
        &["BTC", "ETH", "DOGE"],
        vec![chart(r#"{"prices":[[1000, 1]]}"#), chart("<html>"), chart(r#"{"prices":[]}"#)],
    );
    assert!(matches!(step, Step::Abort(FetchError::Malformed)));
    assert!(batch.is_none());
    assert_eq!(fetched, 2);
}

#[test]
fn run_with_unresolved_symbol_writes_nothing() {
    let provider = CoingeckoProvider::new(DatabaseSymbolToName::new(rows()));
    let mut store = PriceStore::new(rows());
    let mut ingest = Ingest::new(Mode::Last, vec!["BTC".to_string(), "SOL".to_string()]);
    let detail = r#"{"market_data":{"current_price":{"eur":1,"usd":2}},"last_updated":"2023-01-01T00:00:00.0Z"}"#;
    loop {
        match ingest.next_step() {
            Step::Fetch(sym) => {
                let fetched = request_url(&provider, &sym, ingest.mode()).map(|_| detail.to_string());
                ingest.record(fetched);
            }
            Step::Commit => {
                store.upsert_all(ingest.finish());
                break;
            }
            Step::Abort(e) => {
                assert_eq!(e, FetchError::ResolutionNotFound);
                break;
            }
        }
    }
    assert_eq!(store.count_all(), 0);
}

#[test]
fn latest_run_writes_one_record_per_symbol() {
    let mut ingest = Ingest::new(Mode::Last, vec!["BTC".to_string(), "ETH".to_string()]);
    let detail = r#"{"market_data":{"current_price":{"eur":1,"usd":2}},"last_updated":"2023-01-01T12:00:00.000Z"}"#;
    while let Step::Fetch(_) = ingest.next_step() {
        ingest.record(Ok(detail.to_string()));
    }
    assert!(matches!(ingest.next_step(), Step::Commit));
    let batch = ingest.finish();
    assert_eq!(batch.iter().map(|p| (p.base.as_str(), p.dt)).collect::<Vec<_>>(), vec![("BTC", 1672574400), ("ETH", 1672574400)]);
}

#[test]
fn run_over_no_symbols_commits_empty_batch() {
    let (step, batch, fetched) = run(&[], vec![]);
    assert!(matches!(step, Step::Commit));
    assert!(batch.unwrap().is_empty());
    assert_eq!(fetched, 0);
}
