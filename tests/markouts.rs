use quickmark::horizons::{horizon_label, parse_horizons, HorizonError};
use quickmark::markouts::{compute_markouts, floor_minute, side_from_direction, MarkoutMatch, ProcessedFill};
use quickmark::series::PriceSeries;

fn fill(ts: u64, dir: &str, price: f64) -> ProcessedFill<f64> {
    ProcessedFill {
        ts,
        symbol: "SOL-PERP".to_string(),
        maker_order_direction: dir.to_string(),
        fill_price: price,
    }
}

fn markout_value(m: &MarkoutMatch<f64>) -> f64 {
    (m.side as f64) * (m.oracle_price - m.fill_price) / m.fill_price
}

#[test]
fn parse_horizons_trims_and_keeps_order() {
    assert_eq!(parse_horizons(" 1, 5 ,15"), Ok(vec![1, 5, 15]));
}

#[test]
fn parse_horizons_rejects_bad_token() {
    assert_eq!(parse_horizons("1,x,5"), Err(HorizonError { position: 1 }));
}

#[test]
fn parse_horizons_edge_cases() {
    assert_eq!(parse_horizons("15,1,15"), Ok(vec![15, 1, 15]));
    assert_eq!(parse_horizons("\t7\n"), Ok(vec![7]));
    assert_eq!(parse_horizons("+3"), Ok(vec![3]));
    assert_eq!(parse_horizons("4294967295"), Ok(vec![4294967295]));
    assert_eq!(parse_horizons("4294967296"), Err(HorizonError { position: 0 }));
    assert_eq!(parse_horizons(""), Err(HorizonError { position: 0 }));
    assert_eq!(parse_horizons("1,"), Err(HorizonError { position: 1 }));
    assert_eq!(parse_horizons("1,-2"), Err(HorizonError { position: 1 }));
    assert_eq!(parse_horizons("1 2"), Err(HorizonError { position: 0 }));
    assert_eq!(parse_horizons("+"), Err(HorizonError { position: 0 }));
}

#[test]
fn horizon_labels() {
    assert_eq!(horizon_label(5), "5m");
    assert_eq!(horizon_label(0), "0m");
    assert_eq!(horizon_label(60), "60m");
    assert_eq!(horizon_label(4294967295), "4294967295m");
}

#[test]
fn floor_minute_values() {
    assert_eq!(floor_minute(1758010914), 1758010860);
    assert_eq!(floor_minute(1758010860), 1758010860);
    assert_eq!(floor_minute(59), 0);
    assert_eq!(floor_minute(u64::MAX), u64::MAX - 15);
}

#[test]
fn side_of_direction() {
    assert_eq!(side_from_direction(&"long".to_string()), 1);
    assert_eq!(side_from_direction(&"short".to_string()), -1);
    assert_eq!(side_from_direction(&"Long".to_string()), -1);
    assert_eq!(side_from_direction(&"longer".to_string()), -1);
}

#[test]
fn series_single_candle_lookup() {
    let s = PriceSeries::build(&vec![(1758011160u64, 101.5f64)]);
    assert_eq!(s.lookup(1758011160), Some(101.5));
    assert_eq!(s.lookup(1758011100), None);
    assert_eq!(s.lookup(0), None);
}

#[test]
fn series_last_write_wins() {
    let s = PriceSeries::build(&vec![(60u64, 1.0f64), (120, 2.0), (60, 3.0)]);
    assert_eq!(s.lookup(60), Some(3.0));
    assert_eq!(s.lookup(120), Some(2.0));
    let mut e: PriceSeries<f64> = PriceSeries::new();
    assert_eq!(e.lookup(60), None);
    e.insert(60, 4.0);
    assert_eq!(e.lookup(60), Some(4.0));
}

#[test]
fn long_trade_markout() {
    let series = PriceSeries::build(&vec![(1758010860u64 + 300, 101.0f64)]);
    let r = compute_markouts(&series, &vec![fill(1758010914, "long", 100.0)], &vec![5]);
    assert_eq!(r.len(), 1);
    assert_eq!(r[0].ts, 1758010914);
    assert_eq!(r[0].symbol, "SOL-PERP");
    assert_eq!(r[0].side, 1);
    assert_eq!(r[0].fill_price, 100.0);
    assert_eq!(r[0].horizon, "5m");
    assert_eq!(r[0].oracle_price, 101.0);
    assert!((markout_value(&r[0]) - 0.01).abs() < 1e-12);
}

#[test]
fn short_trade_markout() {
    let series = PriceSeries::build(&vec![(1758010860u64 + 300, 101.0f64)]);
    let r = compute_markouts(&series, &vec![fill(1758010914, "short", 100.0)], &vec![5]);
    assert_eq!(r.len(), 1);
    assert_eq!(r[0].side, -1);
    assert!((markout_value(&r[0]) + 0.01).abs() < 1e-12);
}

#[test]
fn missing_price_gives_nothing() {
    let series = PriceSeries::build(&vec![(1758011100u64, 101.0f64)]);
    let r = compute_markouts(&series, &vec![fill(1758010914, "long", 100.0)], &vec![5]);
    assert!(r.is_empty());
}

#[test]
fn empty_direction_gives_nothing() {
    let series = PriceSeries::build(&vec![
        (1758010920u64, 99.0f64),
        (1758011160, 101.0),
        (1758011760, 102.0),
    ]);
    let r = compute_markouts(&series, &vec![fill(1758010914, "", 100.0)], &vec![1, 5, 15]);
    assert!(r.is_empty());
}

#[test]
fn results_are_trade_major_horizon_minor() {
    let series = PriceSeries::build(&vec![
        (120u64, 10.0f64),
        (180, 11.0),
        (300, 12.0),
        (360, 13.0),
    ]);
    let fills = vec![fill(61, "long", 10.0), fill(70, "", 10.0), fill(245, "sell", 10.0)];
    let r = compute_markouts(&series, &fills, &vec![2, 1]);
    let got: Vec<(u64, i8, String, f64)> =
        r.iter().map(|m| (m.ts, m.side, m.horizon.clone(), m.oracle_price)).collect();
    assert_eq!(
        got,
        vec![
            (61, 1, "2m".to_string(), 11.0),
            (61, 1, "1m".to_string(), 10.0),
            (245, -1, "2m".to_string(), 13.0),
            (245, -1, "1m".to_string(), 12.0),
        ]
    );
}

#[test]
fn repeated_runs_agree() {
    let series = PriceSeries::build(&vec![(120u64, 10.0f64), (180, 11.0)]);
    let fills = vec![fill(61, "long", 10.0), fill(65, "short", 9.0)];
    let a = compute_markouts(&series, &fills, &vec![1, 2, 1]);
    let b = compute_markouts(&series, &fills, &vec![1, 2, 1]);
    assert_eq!(a.len(), 6);
    assert_eq!(a.len(), b.len());
    for (x, y) in a.iter().zip(b.iter()) {
        assert_eq!(x.ts, y.ts);
        assert_eq!(x.side, y.side);
        assert_eq!(x.horizon, y.horizon);
        assert_eq!(markout_value(x).to_bits(), markout_value(y).to_bits());
    }
}

#[test]
fn target_past_u64_range_gives_nothing() {
    let series = PriceSeries::build(&vec![(u64::MAX - 15, 1.0f64)]);
    let r = compute_markouts(&series, &vec![fill(u64::MAX, "long", 1.0)], &vec![0, 1]);
    assert_eq!(r.len(), 1);
    assert_eq!(r[0].horizon, "0m");
}
