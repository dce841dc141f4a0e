use polygon_csv::batch::Batch;
use polygon_csv::polygon::{rows_from_response, FetchError, Polygon, Ticker, TickerResponse};

fn tick(time_ms: i64, open: f32, close: f32, low: f32, height: f32, count: i32, volume: f32, vw: f32) -> Ticker {
    Ticker {
        close: format!("{}", close),
        height: format!("{}", height),
        low: format!("{}", low),
        count,
        open: format!("{}", open),
        time_ms,
        volume: format!("{}", volume),
        volume_weight: format!("{}", vw),
    }
}

fn ok_response(ticks: Vec<Ticker>) -> TickerResponse {
    TickerResponse { results: Some(ticks), error: None }
}

#[test]
fn mapper_produces_one_row_per_record() {
    // 2024-01-02 and 2024-01-03, one day apart
    let resp = ok_response(vec![
        tick(1704153600000, 50.0, 51.5, 49.0, 52.0, 1000, 2000.0, 50.8),
        tick(1704240000000, 51.5, 52.0, 51.0, 53.0, 1200, 2100.0, 51.9),
    ]);
    let rows = rows_from_response("NVDA", resp).unwrap();
    assert_eq!(rows.len(), 2);
    assert_eq!(rows[0].symbol, "NVDA");
    assert_eq!(rows[1].symbol, "NVDA");
    assert_eq!(rows[0].open, "50");
    assert_eq!(rows[0].close, "51.5");
    assert_eq!(rows[0].low, "49");
    assert_eq!(rows[0].height, "52");
    assert_eq!(rows[0].count, 1000);
    assert_eq!(rows[0].volume, "2000");
    assert_eq!(rows[0].volume_weight, "50.8");
    assert_eq!((rows[0].date.year, rows[0].date.month, rows[0].date.day), (2024, 1, 2));
    assert_eq!((rows[1].date.year, rows[1].date.month, rows[1].date.day), (2024, 1, 3));
}

#[test]
fn mapper_handles_empty_and_missing_results() {
    let rows = rows_from_response("A", ok_response(vec![])).unwrap();
    assert_eq!(rows.len(), 0);
    let rows = rows_from_response("A", TickerResponse { results: None, error: None }).unwrap();
    assert_eq!(rows.len(), 0);
}

#[test]
fn provider_reported_error_fails_the_call() {
    // an embedded error message fails the call even though transport succeeded
    // and results are present
    let resp = TickerResponse {
        results: Some(vec![tick(1704153600000, 1.0, 1.0, 1.0, 1.0, 1, 1.0, 1.0)]),
        error: Some("rate limit exceeded".to_string()),
    };
    match rows_from_response("NVDA", resp) {
        Err(FetchError::Provider(msg)) => assert_eq!(msg, "rate limit exceeded"),
        _ => panic!("expected a provider-reported failure"),
    }
    let resp = TickerResponse { results: None, error: Some("unknown ticker".to_string()) };
    match rows_from_response("X", resp) {
        Err(FetchError::Provider(msg)) => assert_eq!(msg, "unknown ticker"),
        _ => panic!("expected a provider-reported failure"),
    }
}

#[test]
fn out_of_range_timestamp_is_a_decode_failure() {
    let resp = ok_response(vec![tick(-1, 1.0, 1.0, 1.0, 1.0, 1, 1.0, 1.0)]);
    match rows_from_response("A", resp) {
        Err(FetchError::Decode(_)) => {}
        _ => panic!("expected a decode failure"),
    }
}

#[test]
fn batch_skips_failed_symbol_and_keeps_order() {
    // symbols A, B, C where B fails in transport: the batch keeps going and
    // accumulates exactly the rows of A and C, in that order
    let mut batch = Batch::new();
    batch.apply("A", Ok(ok_response(vec![tick(1704153600000, 1.0, 2.0, 0.5, 2.5, 10, 100.0, 1.5)])));
    batch.apply("B", Err(FetchError::Transport("connection refused".to_string())));
    batch.apply("C", Ok(ok_response(vec![tick(1704153600000, 3.0, 4.0, 2.5, 4.5, 20, 200.0, 3.5)])));
    assert_eq!(batch.rows.len(), 2);
    assert_eq!(batch.rows[0].symbol, "A");
    assert_eq!(batch.rows[1].symbol, "C");
    assert_eq!(batch.failures.len(), 1);
    assert_eq!(batch.failures[0].symbol, "B");
    match &batch.failures[0].error {
        FetchError::Transport(msg) => assert_eq!(msg, "connection refused"),
        _ => panic!("expected a transport failure"),
    }
}

#[test]
fn batch_records_provider_error_as_failure() {
    let mut batch = Batch::new();
    let resp = TickerResponse { results: None, error: Some("NOT_AUTHORIZED".to_string()) };
    batch.apply("MSFT", Ok(resp));
    assert_eq!(batch.rows.len(), 0);
    assert_eq!(batch.failures.len(), 1);
    assert_eq!(batch.failures[0].symbol, "MSFT");
    match &batch.failures[0].error {
        FetchError::Provider(msg) => assert_eq!(msg, "NOT_AUTHORIZED"),
        _ => panic!("expected a provider-reported failure"),
    }
}

#[test]
fn batch_records_decode_failure_and_keeps_other_rows() {
    let mut batch = Batch::new();
    batch.apply("GOOD", Ok(ok_response(vec![tick(1704153600000, 1.0, 2.0, 0.5, 2.5, 10, 100.0, 1.5)])));
    batch.apply("BAD", Ok(ok_response(vec![tick(i64::MAX, 1.0, 2.0, 0.5, 2.5, 10, 100.0, 1.5)])));
    assert_eq!(batch.rows.len(), 1);
    assert_eq!(batch.rows[0].symbol, "GOOD");
    assert_eq!(batch.failures.len(), 1);
    assert_eq!(batch.failures[0].symbol, "BAD");
    match &batch.failures[0].error {
        FetchError::Decode(_) => {}
        _ => panic!("expected a decode failure"),
    }
    let out = batch.to_csv();
    let lines: Vec<&str> = out.lines().collect();
    assert_eq!(lines.len(), 2);
    assert!(lines[1].starts_with("GOOD,2024-01-02,"));
}

#[test]
fn ticker_url_is_the_templated_endpoint() {
    let polygon = Polygon::new("demo-key");
    let url = polygon.ticker_url("AAPL", "2023-01-09", "2023-02-10");
    assert_eq!(
        url,
        "https://api.polygon.io/v2/aggs/ticker/AAPL/range/1/day/2023-01-09/2023-02-10?adjusted=true&sort=asc&apiKey=demo-key"
    );
}
