//! The exchange's symbol filters, and the rules table built from them for
//! the symbols that the rings trade.

use vstd::prelude::*;
use vstd::utf8::encode_utf8;
use crate::fixed::amount_of;
use crate::constraints::{QuantityInfo, QuantityTable, multiplier_of};
use crate::snapshot::listed;

verus! {

/// One filter of a symbol, with the fields the rules need.
pub struct SymbolFilter {
    pub filter_type: String,
    pub min_qty: Option<String>,
    pub max_qty: Option<String>,
    pub step_size: Option<String>,
    pub tick_size: Option<String>,
}

/// A symbol as the exchange describes it.
pub struct ExchangeSymbol {
    pub symbol: String,
    pub filters: Vec<SymbolFilter>,
}

/// The last filter of the kind `kind`.
pub open spec fn last_filter(filters: Seq<SymbolFilter>, kind: Seq<char>) -> Option<SymbolFilter>
    decreases filters.len(),
{
    if filters.len() == 0 {
        None
    } else if filters.last().filter_type@ == kind {
        Some(filters.last())
    } else {
        last_filter(filters.drop_last(), kind)
    }
}

pub open spec fn text_amount(t: Option<String>) -> Option<u64> {
    match t {
        Some(s) => amount_of(encode_utf8(s@)),
        None => None,
    }
}

pub open spec fn text_multiplier(t: Option<String>) -> Option<u64> {
    match t {
        Some(s) => multiplier_of(encode_utf8(s@)),
        None => None,
    }
}

/// `info` holds the rules that the last lot filter and the last price
/// filter of `es` give.
pub open spec fn rules_match(info: QuantityInfo, es: ExchangeSymbol) -> bool {
    match (last_filter(es.filters@, "LOT_SIZE"@), last_filter(es.filters@, "PRICE_FILTER"@)) {
        (Some(lot), Some(price)) => {
            &&& info.symbol@ == es.symbol@
            &&& text_amount(lot.min_qty) == Some(info.min_qty)
            &&& text_amount(lot.max_qty) == Some(info.max_qty)
            &&& text_amount(lot.step_size) == Some(info.step_qty)
            &&& text_amount(price.tick_size) == Some(info.step_price)
            &&& text_multiplier(lot.step_size) == Some(info.move_qty)
            &&& text_multiplier(price.tick_size) == Some(info.move_price)
        },
        _ => false,
    }
}

/// The filters of `es` give it rules.
pub open spec fn has_rules(es: ExchangeSymbol) -> bool {
    exists|info: QuantityInfo| rules_match(info, es)
}

/// `i` is the last position of its symbol in `s`.
pub open spec fn last_of_symbol(s: Seq<ExchangeSymbol>, i: int) -> bool {
    forall|j: int| i < j < s.len() ==> (#[trigger] s[j]).symbol@ != s[i].symbol@
}

fn find_filter(filters: &Vec<SymbolFilter>, kind: &String) -> (r: Option<usize>)
    ensures
        match r {
            Some(i) => i < filters@.len() && last_filter(filters@, kind@) == Some(filters@[i as int]),
            None => last_filter(filters@, kind@) is None,
        },
{
    let mut i: usize = filters.len();
    assert(filters@.take(i as int) =~= filters@);
    while i > 0
        invariant
            i <= filters.len(),
            last_filter(filters@, kind@) == last_filter(filters@.take(i as int), kind@),
        decreases i,
    {
        assert(filters@.take(i as int).last() == filters@[i - 1]);
        if filters[i - 1].filter_type == *kind {
            return Some(i - 1);
        }
        assert(filters@.take(i as int).drop_last() =~= filters@.take(i - 1));
        i = i - 1;
    }
    None
}

fn text_of(t: &Option<String>) -> (r: Option<&str>)
    ensures
        match t {
            Some(s) => r matches Some(x) && x@ == s@,
            None => r is None,
        },
{
    match t {
        Some(s) => Some(s.as_str()),
        None => None,
    }
}

/// The rules that the filters of `es` give, if they give any.
pub fn rules_from_filters(es: &ExchangeSymbol) -> (r: Option<QuantityInfo>)
    ensures
        r is Some <==> has_rules(*es),
        r matches Some(info) ==> rules_match(info, *es) && info.wf(),
{
    proof {
        reveal_strlit("LOT_SIZE");
        reveal_strlit("PRICE_FILTER");
    }
    let lot_kind = "LOT_SIZE".to_owned();
    let price_kind = "PRICE_FILTER".to_owned();
    let li = find_filter(&es.filters, &lot_kind);
    let pi = find_filter(&es.filters, &price_kind);
    match (li, pi) {
        (Some(li), Some(pi)) => {
            let lot = &es.filters[li];
            let price = &es.filters[pi];
            match (text_of(&lot.min_qty), text_of(&lot.max_qty), text_of(&lot.step_size), text_of(&price.tick_size)) {
                (Some(a), Some(b), Some(c), Some(d)) => {
                    let r = QuantityInfo::from_filters(es.symbol.as_str(), a, b, c, d);
                    proof {
                        if r is Some {
                            assert(rules_match(r->0, *es));
                        } else {
                            assert forall|info: QuantityInfo| !rules_match(info, *es) by {}
                        }
                    }
                    r
                },
                _ => {
                    proof {
                        assert forall|info: QuantityInfo| !rules_match(info, *es) by {}
                    }
                    None
                },
            }
        },
        _ => {
            proof {
                assert forall|info: QuantityInfo| !rules_match(info, *es) by {}
            }
            None
        },
    }
}

/// Builds the rules of every symbol in `symbols_cache` from the exchange's
/// description `symbols`; other symbols are passed over. Where a symbol is
/// described twice, the last description counts. An error names a listed
/// symbol whose filters give no rules.
pub fn build_quantity_info(symbols_cache: &Vec<String>, symbols: &Vec<ExchangeSymbol>) -> (r: Result<
    QuantityTable,
    String,
>)
    ensures
        r is Ok <==> forall|i: int|
            0 <= i < symbols@.len() && listed(symbols_cache@, (#[trigger] symbols@[i]).symbol@) ==> has_rules(
                symbols@[i],
            ),
        r matches Ok(t) ==> {
            &&& t.wf()
            &&& forall|s: Seq<char>| #[trigger]
                t.has(s) ==> listed(symbols_cache@, s) && exists|i: int|
                    0 <= i < symbols@.len() && (#[trigger] symbols@[i]).symbol@ == s
            &&& forall|i: int|
                0 <= i < symbols@.len() && listed(symbols_cache@, (#[trigger] symbols@[i]).symbol@)
                    ==> t.has(symbols@[i].symbol@)
            &&& forall|i: int|
                0 <= i < symbols@.len() && listed(symbols_cache@, (#[trigger] symbols@[i]).symbol@)
                    && last_of_symbol(symbols@, i) ==> rules_match(t.info(symbols@[i].symbol@), symbols@[i])
        },
        r matches Err(name) ==> exists|i: int|
            0 <= i < symbols@.len() && (#[trigger] symbols@[i]).symbol@ == name@ && listed(
                symbols_cache@,
                name@,
            ) && !has_rules(symbols@[i]),
{
    let mut table = QuantityTable::new();
    let mut k: usize = 0;
    while k < symbols.len()
        invariant
            k <= symbols.len(),
            table.wf(),
            forall|i: int|
                0 <= i < k && listed(symbols_cache@, (#[trigger] symbols@[i]).symbol@) ==> has_rules(symbols@[i]),
            forall|s: Seq<char>| #[trigger]
                table.has(s) ==> listed(symbols_cache@, s) && exists|i: int|
                    0 <= i < k && (#[trigger] symbols@[i]).symbol@ == s,
            forall|i: int|
                0 <= i < k && listed(symbols_cache@, (#[trigger] symbols@[i]).symbol@) ==> table.has(
                    symbols@[i].symbol@,
                ),
            forall|i: int|
                0 <= i < k && listed(symbols_cache@, (#[trigger] symbols@[i]).symbol@) && (forall|j: int|
                    i < j < k ==> (#[trigger] symbols@[j]).symbol@ != symbols@[i].symbol@) ==> rules_match(
                    table.info(symbols@[i].symbol@),
                    symbols@[i],
                ),
        decreases symbols.len() - k,
    {
        let es = &symbols[k];
        if crate::snapshot::is_listed(symbols_cache, &es.symbol) {
            match rules_from_filters(es) {
                Some(info) => {
                    let ghost pre = table;
                    table.insert(info);
                    proof {
                        assert forall|s: Seq<char>| #[trigger]
                            table.has(s) implies listed(symbols_cache@, s) && exists|i: int|
                                0 <= i < k + 1 && (#[trigger] symbols@[i]).symbol@ == s by {
                            if s != es.symbol@ {
                                assert(pre.has(s));
                            } else {
                                assert(symbols@[k as int].symbol@ == s);
                            }
                        }
                        assert forall|i: int|
                            0 <= i < k + 1 && listed(symbols_cache@, (#[trigger] symbols@[i]).symbol@)
                                && (forall|j: int| i < j < k + 1 ==> (#[trigger] symbols@[j]).symbol@
                                != symbols@[i].symbol@) implies rules_match(
                            table.info(symbols@[i].symbol@),
                            symbols@[i],
                        ) by {
                            if i < k {
                                assert(symbols@[k as int].symbol@ != symbols@[i].symbol@);
                                assert(pre.has(symbols@[i].symbol@));
                            }
                        }
                    }
                },
                None => {
                    return Err(es.symbol.clone());
                },
            }
        } else {
            proof {
                assert forall|s: Seq<char>| #[trigger]
                    table.has(s) implies listed(symbols_cache@, s) && exists|i: int|
                        0 <= i < k + 1 && (#[trigger] symbols@[i]).symbol@ == s by {
                    let i = choose|i: int| 0 <= i < k && (#[trigger] symbols@[i]).symbol@ == s;
                    assert(symbols@[i].symbol@ == s);
                }
            }
        }
        k = k + 1;
    }
    Ok(table)
}

} // verus!
