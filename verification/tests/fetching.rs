use kraken_trades::credentials::Credentials;
use kraken_trades::kraken_futures::{verify_trades, FetchState, KrakenFutures};
use kraken_trades::trade::Trade;

fn ms(rfc3339: &str) -> i64 {
    chrono::DateTime::parse_from_rfc3339(rfc3339)
        .unwrap()
        .timestamp_millis()
}

fn trade(id: &str, fill_time: &str) -> Trade {
    Trade {
        fill_id: id.to_string(),
        symbol: "PI_XBTUSD".to_string(),
        side: "buy".to_string(),
        order_id: "order-1".to_string(),
        size: "1000".to_string(),
        price: "34500.5".to_string(),
        fill_time: fill_time.to_string(),
        fill_type: "maker".to_string(),
    }
}

fn ids(trades: &[Trade]) -> Vec<String> {
    trades.iter().map(|t| t.fill_id.clone()).collect()
}

#[test]
fn filtering_keeps_only_in_range_trades() {
    // Around t = 12:00, a page holding t-2h, t-1h and t+1h; the window
    // [t-90m, t+30m] keeps exactly t-1h.
    let page = vec![
        trade("a", "2024-01-01T10:00:00.000Z"),
        trade("b", "2024-01-01T11:00:00.000Z"),
        trade("c", "2024-01-01T13:00:00.000Z"),
    ];
    let kept = verify_trades(ms("2024-01-01T10:30:00Z"), ms("2024-01-01T12:30:00Z"), page);
    assert_eq!(ids(&kept), vec!["b".to_string()]);
}

#[test]
fn filtering_includes_both_window_ends() {
    let page = vec![
        trade("start", "2024-01-01T10:30:00.000Z"),
        trade("end", "2024-01-01T12:30:00.000Z"),
    ];
    let kept = verify_trades(ms("2024-01-01T10:30:00Z"), ms("2024-01-01T12:30:00Z"), page);
    assert_eq!(ids(&kept), vec!["start".to_string(), "end".to_string()]);
}

#[test]
fn filtering_drops_unparseable_fill_times() {
    let page = vec![
        trade("bad", "not a timestamp"),
        trade("good", "2024-01-01T11:00:00.000Z"),
    ];
    let kept = verify_trades(ms("2024-01-01T00:00:00Z"), ms("2024-01-02T00:00:00Z"), page);
    assert_eq!(ids(&kept), vec!["good".to_string()]);
}

#[test]
fn empty_first_page_terminates_with_no_trades() {
    let mut state = FetchState::new(ms("2024-01-01T00:00:00Z"), ms("2024-01-02T00:00:00Z"));
    assert!(!state.finished());
    assert_eq!(state.request_cursor(), None);
    state.apply_page(Vec::new());
    assert!(state.finished());
    assert!(state.take_trades().is_empty());
}

#[test]
fn page_with_only_out_of_range_trades_terminates() {
    let mut state = FetchState::new(ms("2024-01-01T00:00:00Z"), ms("2024-01-02T00:00:00Z"));
    state.apply_page(vec![trade("late", "2024-03-01T00:00:00.000Z")]);
    assert!(state.finished());
    assert!(state.take_trades().is_empty());
}

#[test]
fn pagination_chains_pages_without_boundary_duplicates() {
    let start = ms("2024-01-01T09:00:00Z");
    let end = ms("2024-01-01T13:00:00Z");
    let mut state = FetchState::new(start, end);

    // First page, newest first, ending at the boundary fill time 11:00.
    state.apply_page(vec![
        trade("t5", "2024-01-01T12:00:00.000Z"),
        trade("t4", "2024-01-01T11:00:00.000Z"),
    ]);
    assert!(!state.finished());
    assert_eq!(state.request_cursor(), Some(ms("2024-01-01T11:00:00Z")));

    // Second page, requested with the boundary as upper bound, holds only
    // strictly older trades.
    state.apply_page(vec![
        trade("t3", "2024-01-01T10:00:00.000Z"),
        trade("t2", "2024-01-01T09:00:00.000Z"),
    ]);
    assert_eq!(state.request_cursor(), Some(ms("2024-01-01T09:00:00Z")));

    // The accumulation covers both pages in order, with one copy of each
    // trade and none of the boundary trade twice.
    state.apply_page(Vec::new());
    assert!(state.finished());
    let trades = state.take_trades();
    assert_eq!(
        ids(&trades),
        vec!["t5".to_string(), "t4".to_string(), "t3".to_string(), "t2".to_string()]
    );
}

#[test]
fn fetch_scenario_returns_single_page_and_output_rows() {
    let start = ms("2024-01-01T00:00:00Z");
    let end = ms("2024-01-02T00:00:00Z");
    let creds = Credentials {
        key: "api-key".to_string(),
        secret: "c2VjcmV0IGtleQ==".to_string(),
    };
    let mut venue = KrakenFutures::new(creds, 0);
    let mut state = FetchState::new(start, end);

    // First request: no cursor parameter, plain fills URL.
    assert!(!state.finished());
    let req = venue
        .prepare_fills_request(state.request_cursor(), 1704067200000)
        .unwrap();
    assert_eq!(
        String::from_utf8(req.url).unwrap(),
        "https://futures.kraken.com/derivatives/api/v3/fills"
    );
    assert_eq!(req.api_key, "api-key");
    assert_eq!(req.nonce, b"1704067200000".to_vec());

    // The mocked venue answers with one page of three in-range trades.
    state.apply_page(vec![
        trade("f3", "2024-01-01T18:00:00.000Z"),
        trade("f2", "2024-01-01T12:00:00.000Z"),
        trade("f1", "2024-01-01T06:00:00.000Z"),
    ]);
    assert!(!state.finished());

    // Second request carries the last fill time as the cursor.
    let req2 = venue
        .prepare_fills_request(state.request_cursor(), 1704067201000)
        .unwrap();
    assert_eq!(
        String::from_utf8(req2.url).unwrap(),
        "https://futures.kraken.com/derivatives/api/v3/fills?lastFillTime=2024-01-01T06:00:00.000Z"
    );

    // The mocked venue has nothing older in range.
    state.apply_page(Vec::new());
    assert!(state.finished());

    let trades = state.take_trades();
    assert_eq!(
        ids(&trades),
        vec!["f3".to_string(), "f2".to_string(), "f1".to_string()]
    );
    let row = trades[0].to_record();
    assert_eq!(
        row,
        vec![
            "f3".to_string(),
            "PI_XBTUSD".to_string(),
            "buy".to_string(),
            "order-1".to_string(),
            "1000".to_string(),
            "34500.5".to_string(),
            "2024-01-01T18:00:00.000Z".to_string(),
            "maker".to_string(),
        ]
    );
}
