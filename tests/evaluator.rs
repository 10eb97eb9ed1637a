use railgun::constraints::{QuantityInfo, QuantityTable};
use railgun::fixed::SCALE;
use railgun::ring::{
    analyze_ring, build_ring, compute_rings, evaluate_ring, make_symcache, rank_results, rank_verdicts,
    EvalConfig, Ring, RingResult, RingVerdict,
};
use railgun::snapshot::{
    update_orderbooks, BookTicker, PriceEntry, PriceLevel, PriceSnapshot, PriceTable,
    StrategyBias,
};

fn ring(name: &str, a: &str, b: &str, c: &str) -> Ring {
    Ring { symbol: name.to_string(), leg0: a.to_string(), leg1: b.to_string(), leg2: c.to_string() }
}

fn entry(symbol: &str, price: u64) -> PriceEntry {
    PriceEntry { symbol: symbol.to_string(), level: PriceLevel { price, qty: 1_000_000 * SCALE } }
}

fn snapshot(a: Vec<PriceEntry>, b: Vec<PriceEntry>, c: Vec<PriceEntry>) -> PriceSnapshot {
    PriceSnapshot {
        tickers_a: PriceTable { entries: a },
        tickers_b: PriceTable { entries: b },
        tickers_c: PriceTable { entries: c },
    }
}

/// The ring AAA / BUSD / BNB at 10.00, 0.05 and 210.00.
fn aaa_snapshot() -> PriceSnapshot {
    snapshot(
        vec![entry("AAABUSD", 10 * SCALE)],
        vec![entry("AAABNB", 5_000_000)],
        vec![entry("BNBBUSD", 210 * SCALE)],
    )
}

fn aaa_ring() -> Ring {
    ring("AAA", "AAABUSD", "AAABNB", "BNBBUSD")
}

fn config(min_profit: u64, warning: u64, fee_ppm: u64) -> EvalConfig {
    EvalConfig { max_invest: 100 * SCALE, min_profit, warning, fee_ppm }
}

const HALF_PERCENT: u64 = 50_000_000;
const NINE_PERCENT: u64 = 900_000_000;
/// 100 / 10.00 * 0.05 * 210.00 * 0.999^3, as cut by each leg.
const AAA_PROFIT: u64 = 468_531_489;

#[test]
fn scenario_profitable_ring_with_fees() {
    let r = analyze_ring(&aaa_ring(), 100 * SCALE, &aaa_snapshot(), &config(HALF_PERCENT, NINE_PERCENT, 1000)).unwrap();
    assert_eq!(r.symbol, "AAA");
    assert_eq!(r.optimal_invest, 100 * SCALE);
    assert_eq!(r.qty, 10 * SCALE);
    assert_eq!(r.profit, AAA_PROFIT);
    // profit ~ 4.685 and 4.685 %
    assert!(r.profit > 4_684_000_00 && r.profit < 4_686_000_00);
    assert_eq!(r.percentage, AAA_PROFIT);
}

#[test]
fn scenario_warning_ceiling_rejects_as_anomaly() {
    let cfg = config(HALF_PERCENT, 300_000_000, 1000);
    assert!(analyze_ring(&aaa_ring(), 100 * SCALE, &aaa_snapshot(), &cfg).is_none());
    assert!(matches!(evaluate_ring(&aaa_ring(), 100 * SCALE, &aaa_snapshot(), &cfg), RingVerdict::Anomaly));
}

#[test]
fn profit_exactly_at_minimum_is_rejected() {
    let at = config(AAA_PROFIT, NINE_PERCENT, 1000);
    assert!(matches!(evaluate_ring(&aaa_ring(), 100 * SCALE, &aaa_snapshot(), &at), RingVerdict::Unprofitable));
    let below = config(AAA_PROFIT - 1, NINE_PERCENT, 1000);
    assert!(analyze_ring(&aaa_ring(), 100 * SCALE, &aaa_snapshot(), &below).is_some());
    let above = config(AAA_PROFIT + 1, NINE_PERCENT, 1000);
    assert!(analyze_ring(&aaa_ring(), 100 * SCALE, &aaa_snapshot(), &above).is_none());
}

#[test]
fn profit_exactly_at_warning_is_accepted() {
    let at = config(HALF_PERCENT, AAA_PROFIT, 1000);
    assert!(analyze_ring(&aaa_ring(), 100 * SCALE, &aaa_snapshot(), &at).is_some());
    let below = config(HALF_PERCENT, AAA_PROFIT - 1, 1000);
    assert!(matches!(evaluate_ring(&aaa_ring(), 100 * SCALE, &aaa_snapshot(), &below), RingVerdict::Anomaly));
}

#[test]
fn ring_without_fee_matches_plain_product() {
    let r = analyze_ring(&aaa_ring(), 100 * SCALE, &aaa_snapshot(), &config(HALF_PERCENT, 1_000 * SCALE, 0)).unwrap();
    // 100 / 10 * 0.05 * 210 = 105
    assert_eq!(r.profit, 5 * SCALE);
    assert_eq!(r.percentage, 5 * SCALE);
}

#[test]
fn losing_ring_is_unprofitable() {
    let snap = snapshot(
        vec![entry("AAABUSD", 10 * SCALE)],
        vec![entry("AAABNB", 4_000_000)],
        vec![entry("BNBBUSD", 210 * SCALE)],
    );
    assert!(matches!(evaluate_ring(&aaa_ring(), 100 * SCALE, &snap, &config(0, NINE_PERCENT, 0)), RingVerdict::Unprofitable));
}

#[test]
fn missing_or_zero_price_is_unpriced() {
    let missing = snapshot(vec![entry("AAABUSD", 10 * SCALE)], vec![], vec![entry("BNBBUSD", 210 * SCALE)]);
    assert!(matches!(evaluate_ring(&aaa_ring(), 100 * SCALE, &missing, &config(0, NINE_PERCENT, 0)), RingVerdict::Unpriced));
    assert!(build_ring(&aaa_ring(), &missing).is_none());
    let zero = snapshot(
        vec![entry("AAABUSD", 0)],
        vec![entry("AAABNB", 5_000_000)],
        vec![entry("BNBBUSD", 210 * SCALE)],
    );
    assert!(matches!(evaluate_ring(&aaa_ring(), 100 * SCALE, &zero, &config(0, NINE_PERCENT, 0)), RingVerdict::Unpriced));
}

#[test]
fn invest_is_capped_by_balance_and_ceiling() {
    let cfg = config(HALF_PERCENT, NINE_PERCENT, 1000);
    let low = analyze_ring(&aaa_ring(), 50 * SCALE, &aaa_snapshot(), &cfg).unwrap();
    assert_eq!(low.optimal_invest, 50 * SCALE);
    let high = analyze_ring(&aaa_ring(), 1_000 * SCALE, &aaa_snapshot(), &cfg).unwrap();
    assert_eq!(high.optimal_invest, 100 * SCALE);
    assert!(analyze_ring(&aaa_ring(), 0, &aaa_snapshot(), &cfg).is_none());
}

#[test]
fn evaluating_twice_gives_the_same_result() {
    let cfg = config(HALF_PERCENT, NINE_PERCENT, 1000);
    let snap = aaa_snapshot();
    let a = analyze_ring(&aaa_ring(), 100 * SCALE, &snap, &cfg).unwrap();
    let b = analyze_ring(&aaa_ring(), 100 * SCALE, &snap, &cfg).unwrap();
    assert_eq!((a.symbol, a.percentage, a.profit, a.qty, a.optimal_invest), (b.symbol, b.percentage, b.profit, b.qty, b.optimal_invest));
}

fn result(symbol: &str, profit: u64) -> RingResult {
    RingResult { symbol: symbol.to_string(), percentage: profit, profit, qty: 1, optimal_invest: 100 * SCALE }
}

#[test]
fn ranking_is_descending_and_keeps_tie_order() {
    let ranked = rank_results(vec![result("A", 5), result("B", 9), result("C", 5), result("D", 7), result("E", 9)]);
    let names: Vec<String> = ranked.iter().map(|r| r.symbol.clone()).collect();
    assert_eq!(names, vec!["B", "E", "D", "A", "C"]);
    let swapped = rank_results(vec![result("ZZZ", 5), result("AAA", 5), result("AAB", 5), result("AA", 5)]);
    let names: Vec<String> = swapped.iter().map(|r| r.symbol.clone()).collect();
    assert_eq!(names, vec!["AA", "AAA", "AAB", "ZZZ"]);
    assert!(rank_results(vec![]).is_empty());
}

fn three_ring_snapshot() -> PriceSnapshot {
    snapshot(
        vec![entry("AAABUSD", 10 * SCALE), entry("CCCBUSD", 10 * SCALE), entry("DDDBUSD", 10 * SCALE), entry("EEEBUSD", 10 * SCALE)],
        vec![entry("AAABNB", 5_000_000), entry("CCCBNB", 5_000_000), entry("DDDBNB", 5_100_000), entry("EEEBNB", 4_000_000)],
        vec![entry("BNBBUSD", 210 * SCALE)],
    )
}

#[test]
fn scheduler_sorts_and_repeats() {
    let rings = vec![
        ring("CCC", "CCCBUSD", "CCCBNB", "BNBBUSD"),
        ring("EEE", "EEEBUSD", "EEEBNB", "BNBBUSD"),
        ring("AAA", "AAABUSD", "AAABNB", "BNBBUSD"),
        ring("DDD", "DDDBUSD", "DDDBNB", "BNBBUSD"),
        ring("ZZZ", "ZZZBUSD", "ZZZBNB", "BNBBUSD"),
    ];
    let cfg = config(HALF_PERCENT, 1_000 * SCALE, 0);
    let snap = three_ring_snapshot();
    let first = compute_rings(&rings, 100 * SCALE, &snap, &cfg);
    let names: Vec<String> = first.iter().map(|r| r.symbol.clone()).collect();
    assert_eq!(names, vec!["DDD", "AAA", "CCC"]);
    for w in first.windows(2) {
        assert!(w[0].profit >= w[1].profit);
    }
    let reversed: Vec<Ring> = rings.iter().rev().map(|r| ring(&r.symbol, &r.leg0, &r.leg1, &r.leg2)).collect();
    let second = compute_rings(&reversed, 100 * SCALE, &snap, &cfg);
    let again: Vec<String> = second.iter().map(|r| r.symbol.clone()).collect();
    assert_eq!(names, again);
}

#[test]
fn symbol_cache_lists_every_leg() {
    let rings = vec![ring("AAA", "AAABUSD", "AAABNB", "BNBBUSD"), ring("CCC", "CCCBUSD", "CCCBNB", "BNBBUSD")];
    assert_eq!(
        make_symcache(&rings),
        vec!["AAABUSD", "AAABNB", "BNBBUSD", "CCCBUSD", "CCCBNB", "BNBBUSD"]
    );
    assert!(make_symcache(&vec![]).is_empty());
}

fn rules(symbol: &str, tick: &str) -> QuantityInfo {
    QuantityInfo::from_filters(symbol, "0.001", "9000", "0.001", tick).unwrap()
}

fn ticker(symbol: &str, bid: u64, ask: u64) -> BookTicker {
    BookTicker { symbol: symbol.to_string(), bid_price: bid, bid_qty: 11, ask_price: ask, ask_qty: 22 }
}

#[test]
fn snapshot_biases_and_truncates_prices() {
    let mut table = QuantityTable::new();
    table.insert(rules("AAABUSD", "0.01"));
    table.insert(rules("BNBBUSD", "0.1"));
    let tickers = vec![
        ticker("AAABUSD", 1_000_000_000, 1_001_000_000),
        ticker("OTHER", 1, 1),
        ticker("BNBBUSD", 21_000_000_000, 21_010_000_000),
        ticker("AAABUSD", 5, 5),
    ];
    let caches = vec!["AAABUSD".to_string(), "BNBBUSD".to_string()];
    let bias = StrategyBias { a_ticks: 2, b_ticks: -2, c_ticks: -100 };
    let snap = update_orderbooks(&tickers, &caches, &table, &bias).ok().unwrap();
    let key = "AAABUSD".to_string();
    assert_eq!(snap.tickers_a.get(&key), Some(PriceLevel { price: 1_002_000_000, qty: 11 }));
    assert_eq!(snap.tickers_b.get(&key), Some(PriceLevel { price: 999_000_000, qty: 22 }));
    assert_eq!(snap.tickers_c.get(&key), Some(PriceLevel { price: 901_000_000, qty: 22 }));
    let bnb = "BNBBUSD".to_string();
    assert_eq!(snap.tickers_c.get(&bnb), Some(PriceLevel { price: 20_010_000_000, qty: 22 }));
    assert_eq!(snap.tickers_a.get(&"OTHER".to_string()), None);
    assert_eq!(snap.tickers_a.entries.len(), 3);
}

#[test]
fn snapshot_price_never_goes_below_zero() {
    let mut table = QuantityTable::new();
    table.insert(rules("AAABUSD", "1"));
    let caches = vec!["AAABUSD".to_string()];
    let bias = StrategyBias { a_ticks: 2, b_ticks: -2, c_ticks: -100 };
    let snap = update_orderbooks(&vec![ticker("AAABUSD", SCALE, 3 * SCALE)], &caches, &table, &bias).ok().unwrap();
    assert_eq!(snap.tickers_c.get(&"AAABUSD".to_string()).unwrap().price, 0);
    assert_eq!(snap.tickers_a.get(&"AAABUSD".to_string()).unwrap().price, 3 * SCALE);
}

#[test]
fn snapshot_refuses_listed_symbol_without_rules() {
    let table = QuantityTable::new();
    let caches = vec!["AAABUSD".to_string()];
    let bias = StrategyBias { a_ticks: 0, b_ticks: 0, c_ticks: 0 };
    let err = update_orderbooks(&vec![ticker("AAABUSD", 1, 1)], &caches, &table, &bias).err().unwrap();
    assert_eq!(err.symbol, "AAABUSD");
}

#[test]
fn verdicts_keep_only_accepted_rings() {
    let ranked = rank_verdicts(vec![
        RingVerdict::Unpriced,
        RingVerdict::Accepted(result("BBB", 3)),
        RingVerdict::Anomaly,
        RingVerdict::Accepted(result("AAA", 3)),
        RingVerdict::Unprofitable,
        RingVerdict::Accepted(result("CCC", 8)),
    ]);
    let names: Vec<String> = ranked.iter().map(|r| r.symbol.clone()).collect();
    assert_eq!(names, vec!["CCC", "AAA", "BBB"]);
}
