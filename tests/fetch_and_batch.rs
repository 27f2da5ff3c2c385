use quickmark::batch::{
    account_tag, fills_path, markouts_path, oracle_path, run_pairs_of, unique_symbols,
    AccountConfig,
};
use quickmark::paging::{
    candle_order, candle_step, cutoff_ts, fills_cutoff, fills_step, FetchError,
};
use quickmark::types::{FillData, FillsApiResponse, FillsMeta};

fn record(ts: u64) -> FillData {
    FillData {
            ts,
            tx_sig: String::new(),
            tx_sig_index: 0,
            slot: 0,
            filler_reward: String::new(),
            base_asset_amount_filled: String::new(),
            quote_asset_amount_filled: String::new(),
            taker_fee: String::new(),
            maker_rebate: String::new(),
            referrer_reward: String::new(),
            quote_asset_amount_surplus: String::new(),
            taker_order_base_asset_amount: String::new(),
            taker_order_cumulative_base_asset_amount_filled: String::new(),
            taker_order_cumulative_quote_asset_amount_filled: String::new(),
            maker_order_base_asset_amount: String::new(),
            maker_order_cumulative_base_asset_amount_filled: String::new(),
            maker_order_cumulative_quote_asset_amount_filled: String::new(),
            oracle_price: String::new(),
            maker_fee: String::new(),
            action: String::new(),
            action_explanation: String::new(),
            market_index: 0,
            market_type: String::new(),
            filler: String::new(),
            fill_record_id: String::new(),
            taker: String::new(),
            taker_order_id: String::new(),
            taker_order_direction: String::new(),
            maker: String::new(),
            maker_order_id: String::new(),
            maker_order_direction: String::new(),
            spot_fulfillment_method_fee: String::new(),
            market_filter: String::new(),
            user: String::new(),
            symbol: String::new(),
            bit_flags: 0,
            taker_existing_quote_entry_amount: String::new(),
            taker_existing_base_asset_amount: String::new(),
            maker_existing_quote_entry_amount: String::new(),
            maker_existing_base_asset_amount: String::new(),
    }
}

fn page(success: bool, ts: &[u64], next: Option<&str>) -> FillsApiResponse {
    FillsApiResponse {
        success,
        records: ts.iter().map(|t| record(*t)).collect(),
        meta: FillsMeta { next_page: next.map(|s| s.to_string()) },
    }
}

fn account(id: &str, symbols: &[&str]) -> AccountConfig {
    AccountConfig { id: id.to_string(), symbols: symbols.iter().map(|s| s.to_string()).collect() }
}

#[test]
fn cutoffs() {
    assert_eq!(cutoff_ts(1_000_000, 3), 1_000_000 - 3 * 86400);
    assert_eq!(cutoff_ts(86400, 1), 0);
    assert_eq!(fills_cutoff(10_000_000, 31), Ok(10_000_000 - 31 * 86400));
    assert_eq!(fills_cutoff(10_000_000, 32), Err(FetchError::WindowTooLong));
}

#[test]
fn fills_step_keeps_recent_and_follows_next_page() {
    let s = fills_step(100, page(true, &[150, 99, 100, 30], Some("p2"))).unwrap();
    let kept: Vec<u64> = s.records.iter().map(|r| r.ts).collect();
    assert_eq!(kept, vec![150, 100]);
    assert_eq!(s.next_page, Some("p2".to_string()));
}

#[test]
fn fills_step_stops_when_nothing_recent() {
    let s = fills_step(100, page(true, &[99, 30], Some("p2"))).unwrap();
    assert!(s.records.is_empty());
    assert_eq!(s.next_page, None);
    let s = fills_step(100, page(true, &[120], None)).unwrap();
    assert_eq!(s.records.len(), 1);
    assert_eq!(s.next_page, None);
}

#[test]
fn fills_step_failed_page() {
    assert_eq!(fills_step(0, page(false, &[5], Some("p2"))).err(), Some(FetchError::RequestFailed));
}

#[test]
fn candle_step_pages_backwards() {
    let s = candle_step(100, &vec![300, 200, 150]);
    assert_eq!(s.keep, vec![0, 1, 2]);
    assert_eq!(s.next_start, Some(149));
    let s = candle_step(100, &vec![140, 100, 60]);
    assert_eq!(s.keep, vec![0, 1]);
    assert_eq!(s.next_start, None);
    let s = candle_step(100, &vec![]);
    assert!(s.keep.is_empty());
    assert_eq!(s.next_start, None);
}

#[test]
fn candle_order_is_stable_by_timestamp() {
    assert_eq!(candle_order(&vec![300, 120, 300, 60, 120]), vec![3, 1, 4, 0, 2]);
    assert_eq!(candle_order(&vec![]), Vec::<usize>::new());
}

#[test]
fn unique_symbols_once_each() {
    let accounts = vec![account("AAAAAAAAxyz", &["BTC-PERP", "SOL-PERP"]), account("BBBBBBBBxyz", &["SOL-PERP", "ETH-PERP", "BTC-PERP"])];
    assert_eq!(unique_symbols(&accounts), vec!["BTC-PERP", "SOL-PERP", "ETH-PERP"]);
    assert_eq!(run_pairs_of(&accounts), vec![(0, 0), (0, 1), (1, 0), (1, 1), (1, 2)]);
    assert!(unique_symbols(&vec![]).is_empty());
}

#[test]
fn account_tags() {
    assert_eq!(account_tag("5ZuJwQXqYHmdBTx3"), Some("5ZuJwQXq".to_string()));
    assert_eq!(account_tag("12345678"), Some("12345678".to_string()));
    assert_eq!(account_tag("1234567"), None);
    assert_eq!(account_tag("1234567\u{e9}"), None);
}

#[test]
fn run_paths() {
    assert_eq!(oracle_path("out", "SOL-PERP"), "out/oracle_SOL-PERP.csv");
    assert_eq!(fills_path("out", "5ZuJwQXq", "SOL-PERP"), "out/fills_5ZuJwQXq_SOL-PERP.csv");
    assert_eq!(markouts_path("out", "5ZuJwQXq", "SOL-PERP"), "out/markouts_5ZuJwQXq_SOL-PERP.csv");
}
