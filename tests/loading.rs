use railgun::discovery::symbol_discovery;
use railgun::error::{classify_error, ExchangeErrorKind};
use railgun::exchangeinfo::{build_quantity_info, rules_from_filters, ExchangeSymbol, SymbolFilter};
use railgun::execution::ring_rules;
use railgun::ring::Ring;

fn names(v: &[&str]) -> Vec<String> {
    v.iter().map(|s| s.to_string()).collect()
}

#[test]
fn discovery_closes_rings_through_the_bridge() {
    let symbols = names(&["AAABUSD", "AAABNB", "BNBBUSD", "CCCBUSD", "DDDBNB", "EEEBUSD", "EEEBNB", "FFFBUSD", "FFFBNB"]);
    let ignored = names(&["EEEBNB", "FFFBUSD"]);
    let rings = symbol_discovery(&symbols, &"BUSD".to_string(), &"BNB".to_string(), &ignored);
    assert_eq!(rings.len(), 1);
    assert_eq!(rings[0].symbol, "AAA");
    assert_eq!((rings[0].leg0.as_str(), rings[0].leg1.as_str(), rings[0].leg2.as_str()), ("AAABUSD", "AAABNB", "BNBBUSD"));
}

#[test]
fn discovery_of_an_empty_list_is_empty() {
    let rings = symbol_discovery(&vec![], &"BUSD".to_string(), &"BNB".to_string(), &vec![]);
    assert!(rings.is_empty());
}

fn filter(kind: &str, min: Option<&str>, max: Option<&str>, step: Option<&str>, tick: Option<&str>) -> SymbolFilter {
    SymbolFilter {
        filter_type: kind.to_string(),
        min_qty: min.map(|s| s.to_string()),
        max_qty: max.map(|s| s.to_string()),
        step_size: step.map(|s| s.to_string()),
        tick_size: tick.map(|s| s.to_string()),
    }
}

fn described(symbol: &str, step: &str, tick: &str) -> ExchangeSymbol {
    ExchangeSymbol {
        symbol: symbol.to_string(),
        filters: vec![
            filter("PRICE_FILTER", None, None, None, Some(tick)),
            filter("PERCENT_PRICE", None, None, None, None),
            filter("LOT_SIZE", Some("0.00100000"), Some("90000.00000000"), Some(step), None),
        ],
    }
}

#[test]
fn rules_come_from_lot_and_price_filters() {
    let info = rules_from_filters(&described("AAABUSD", "0.01000000", "0.00010000")).unwrap();
    assert_eq!(info.move_qty, 100);
    assert_eq!(info.move_price, 10_000);
    assert_eq!(info.min_qty, 100_000);
    let missing = ExchangeSymbol { symbol: "X".to_string(), filters: vec![filter("LOT_SIZE", Some("1"), Some("2"), Some("1"), None)] };
    assert!(rules_from_filters(&missing).is_none());
}

#[test]
fn rules_table_covers_listed_symbols_only() {
    let symbols = vec![
        described("AAABUSD", "0.01000000", "0.00010000"),
        described("ZZZBUSD", "1.00000000", "0.01000000"),
        described("AAABNB", "0.10000000", "0.00000100"),
    ];
    let cache = names(&["AAABUSD", "AAABNB"]);
    let table = build_quantity_info(&cache, &symbols).ok().unwrap();
    assert_eq!(table.infos.len(), 2);
    assert!(table.find(&"ZZZBUSD".to_string()).is_none());
    let i = table.find(&"AAABNB".to_string()).unwrap();
    assert_eq!(table.infos[i].move_qty, 10);
    let ring = Ring { symbol: "AAA".to_string(), leg0: "AAABUSD".to_string(), leg1: "AAABNB".to_string(), leg2: "BNBBUSD".to_string() };
    assert_eq!(ring_rules(&ring, &table).err().unwrap().symbol, "BNBBUSD");
}

#[test]
fn rules_table_refuses_a_listed_symbol_without_filters() {
    let symbols = vec![ExchangeSymbol { symbol: "AAABUSD".to_string(), filters: vec![] }];
    let err = build_quantity_info(&names(&["AAABUSD"]), &symbols).err().unwrap();
    assert_eq!(err, "AAABUSD");
}

#[test]
fn error_codes_sort_into_kinds() {
    assert_eq!(classify_error(-2010), ExchangeErrorKind::InsufficientFunds);
    assert_eq!(classify_error(-1003), ExchangeErrorKind::RateLimited);
    assert_eq!(classify_error(-1015), ExchangeErrorKind::RateLimited);
    assert_eq!(classify_error(-2011), ExchangeErrorKind::OrderNotFound);
    assert_eq!(classify_error(-2013), ExchangeErrorKind::OrderNotFound);
    assert_eq!(classify_error(-1000), ExchangeErrorKind::Unknown);
    assert_eq!(classify_error(0), ExchangeErrorKind::Unknown);
}
