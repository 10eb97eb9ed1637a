//! Price snapshots: the three biased price tables that every ring of a cycle
//! is scored against.

use vstd::prelude::*;
use crate::constraints::{QuantityTable, UnknownSymbol, truncated};

verus! {

/// Best price and size on one side of a symbol's book.
#[derive(Clone, Copy, PartialEq, Eq, Structural, Debug)]
pub struct PriceLevel {
    pub price: u64,
    pub qty: u64,
}

/// Best bid and ask of one symbol, as the exchange reports them.
pub struct BookTicker {
    pub symbol: String,
    pub bid_price: u64,
    pub bid_qty: u64,
    pub ask_price: u64,
    pub ask_qty: u64,
}

pub struct PriceEntry {
    pub symbol: String,
    pub level: PriceLevel,
}

/// Levels by symbol; where a symbol occurs twice, the first entry counts.
pub struct PriceTable {
    pub entries: Vec<PriceEntry>,
}

/// The level of `sym` in `entries`: its first entry.
pub open spec fn lookup(entries: Seq<PriceEntry>, sym: Seq<char>) -> Option<PriceLevel>
    decreases entries.len(),
{
    if entries.len() == 0 {
        None
    } else if entries[0].symbol@ == sym {
        Some(entries[0].level)
    } else {
        lookup(entries.skip(1), sym)
    }
}

impl PriceTable {
    pub open spec fn level(&self, sym: Seq<char>) -> Option<PriceLevel> {
        lookup(self.entries@, sym)
    }

    pub fn get(&self, symbol: &String) -> (r: Option<PriceLevel>)
        ensures
            r == self.level(symbol@),
    {
        let mut i: usize = 0;
        assert(self.entries@.skip(0) =~= self.entries@);
        while i < self.entries.len()
            invariant
                i <= self.entries.len(),
                lookup(self.entries@, symbol@) == lookup(self.entries@.skip(i as int), symbol@),
            decreases self.entries.len() - i,
        {
            assert(self.entries@.skip(i as int)[0] == self.entries@[i as int]);
            if self.entries[i].symbol == *symbol {
                return Some(self.entries[i].level);
            }
            assert(self.entries@.skip(i as int).skip(1) =~= self.entries@.skip(i as int + 1));
            i = i + 1;
        }
        None
    }
}

/// One table per leg, each with its own bias: leg 0 buys from table A,
/// legs 1 and 2 sell into tables B and C.
pub struct PriceSnapshot {
    pub tickers_a: PriceTable,
    pub tickers_b: PriceTable,
    pub tickers_c: PriceTable,
}

/// How many ticks each table moves its price from the book: up for a
/// better chance of a fill, down to sit behind the best price.
pub struct StrategyBias {
    pub a_ticks: i32,
    pub b_ticks: i32,
    pub c_ticks: i32,
}

/// `base` moved by `ticks` ticks of `tick`, held within what a `u64` holds.
pub open spec fn biased(base: u64, ticks: i32, tick: u64) -> int {
    let p = base + ticks * tick;
    if p < 0 {
        0
    } else if p > u64::MAX {
        u64::MAX as int
    } else {
        p
    }
}

pub open spec fn listed(caches: Seq<String>, sym: Seq<char>) -> bool {
    exists|j: int| 0 <= j < caches.len() && (#[trigger] caches[j])@ == sym
}

/// The entry a ticker gives to a table: biased from the bid or the ask,
/// then cut to the symbol's tick grid.
pub open spec fn ticker_entry(t: BookTicker, qt: QuantityTable, ticks: i32, from_bid: bool) -> PriceEntry {
    let base = if from_bid {
        t.bid_price
    } else {
        t.ask_price
    };
    let qty = if from_bid {
        t.bid_qty
    } else {
        t.ask_qty
    };
    PriceEntry {
        symbol: t.symbol,
        level: PriceLevel {
            price: truncated(
                biased(base, ticks, qt.info(t.symbol@).step_price),
                qt.info(t.symbol@).move_price as int,
            ) as u64,
            qty,
        },
    }
}

/// The table built from `tickers`: one entry per ticker of a listed symbol, in order.
pub open spec fn table_rows(
    tickers: Seq<BookTicker>,
    caches: Seq<String>,
    qt: QuantityTable,
    ticks: i32,
    from_bid: bool,
) -> Seq<PriceEntry>
    decreases tickers.len(),
{
    if tickers.len() == 0 {
        Seq::empty()
    } else {
        let rest = table_rows(tickers.drop_last(), caches, qt, ticks, from_bid);
        if listed(caches, tickers.last().symbol@) {
            rest.push(ticker_entry(tickers.last(), qt, ticks, from_bid))
        } else {
            rest
        }
    }
}

/// Every listed ticker has rules to cut its prices with.
pub open spec fn all_listed_known(tickers: Seq<BookTicker>, caches: Seq<String>, qt: QuantityTable) -> bool {
    forall|i: int|
        0 <= i < tickers.len() && listed(caches, (#[trigger] tickers[i]).symbol@) ==> qt.has(
            tickers[i].symbol@,
        )
}

pub(crate) fn is_listed(caches: &Vec<String>, symbol: &String) -> (r: bool)
    ensures
        r == listed(caches@, symbol@),
{
    let mut j: usize = 0;
    while j < caches.len()
        invariant
            j <= caches.len(),
            forall|m: int| 0 <= m < j ==> (#[trigger] caches@[m])@ != symbol@,
        decreases caches.len() - j,
    {
        if caches[j] == *symbol {
            return true;
        }
        j = j + 1;
    }
    false
}

fn biased_price(base: u64, ticks: i32, tick: u64) -> (r: u64)
    ensures
        r == biased(base, ticks, tick),
{
    proof {
        assert(-0x8000_0000 * 0xffff_ffff_ffff_ffff <= ticks * tick <= 0x7fff_ffff * 0xffff_ffff_ffff_ffff) by (nonlinear_arith)
            requires
                -0x8000_0000 <= ticks <= 0x7fff_ffff,
                0 <= tick <= 0xffff_ffff_ffff_ffff,
        ;
    }
    let m: i128 = ticks as i128 * tick as i128;
    let p: i128 = base as i128 + m;
    if p < 0 {
        0
    } else if p > u64::MAX as i128 {
        u64::MAX
    } else {
        p as u64
    }
}

/// Builds the three tables from the book tickers of the ring symbols in
/// `symbol_caches`; tickers of other symbols are passed over. Each price is
/// moved by its table's bias and cut to the symbol's tick grid. An error
/// names a listed symbol that has no rules.
pub fn update_orderbooks(
    tickers: &Vec<BookTicker>,
    symbol_caches: &Vec<String>,
    quantity_info: &QuantityTable,
    bias: &StrategyBias,
) -> (r: Result<PriceSnapshot, UnknownSymbol>)
    requires
        quantity_info.wf(),
    ensures
        r is Ok <==> all_listed_known(tickers@, symbol_caches@, *quantity_info),
        r matches Ok(s) ==> {
            &&& s.tickers_a.entries@ == table_rows(tickers@, symbol_caches@, *quantity_info, bias.a_ticks, true)
            &&& s.tickers_b.entries@ == table_rows(tickers@, symbol_caches@, *quantity_info, bias.b_ticks, false)
            &&& s.tickers_c.entries@ == table_rows(tickers@, symbol_caches@, *quantity_info, bias.c_ticks, false)
        },
        r matches Err(e) ==> listed(symbol_caches@, e.symbol@) && !quantity_info.has(e.symbol@),
{
    let mut a: Vec<PriceEntry> = Vec::new();
    let mut b: Vec<PriceEntry> = Vec::new();
    let mut c: Vec<PriceEntry> = Vec::new();
    let mut i: usize = 0;
    while i < tickers.len()
        invariant
            i <= tickers.len(),
            quantity_info.wf(),
            all_listed_known(tickers@.take(i as int), symbol_caches@, *quantity_info),
            a@ == table_rows(tickers@.take(i as int), symbol_caches@, *quantity_info, bias.a_ticks, true),
            b@ == table_rows(tickers@.take(i as int), symbol_caches@, *quantity_info, bias.b_ticks, false),
            c@ == table_rows(tickers@.take(i as int), symbol_caches@, *quantity_info, bias.c_ticks, false),
        decreases tickers.len() - i,
    {
        let t = &tickers[i];
        assert(tickers@.take(i as int + 1).drop_last() =~= tickers@.take(i as int));
        assert(tickers@.take(i as int + 1).last() == tickers@[i as int]);
        if is_listed(symbol_caches, &t.symbol) {
            let k = match quantity_info.find(&t.symbol) {
                Some(k) => k,
                None => {
                    proof {
                        assert(!all_listed_known(tickers@, symbol_caches@, *quantity_info)) by {
                            assert(tickers@[i as int] == *t);
                        }
                    }
                    return Err(UnknownSymbol { symbol: t.symbol.clone() });
                },
            };
            proof {
                quantity_info.lemma_info_at(k as int);
            }
            let info = &quantity_info.infos[k];
            let pa = info.normalize_price(biased_price(t.bid_price, bias.a_ticks, info.step_price));
            let pb = info.normalize_price(biased_price(t.ask_price, bias.b_ticks, info.step_price));
            let pc = info.normalize_price(biased_price(t.ask_price, bias.c_ticks, info.step_price));
            a.push(PriceEntry { symbol: t.symbol.clone(), level: PriceLevel { price: pa, qty: t.bid_qty } });
            b.push(PriceEntry { symbol: t.symbol.clone(), level: PriceLevel { price: pb, qty: t.ask_qty } });
            c.push(PriceEntry { symbol: t.symbol.clone(), level: PriceLevel { price: pc, qty: t.ask_qty } });
        }
        proof {
            assert forall|m: int|
                0 <= m < i + 1 && listed(symbol_caches@, (#[trigger] tickers@.take(i as int + 1)[m]).symbol@)
                    implies quantity_info.has(tickers@.take(i as int + 1)[m].symbol@) by {
                if m < i {
                    assert(tickers@.take(i as int + 1)[m] == tickers@.take(i as int)[m]);
                }
            }
        }
        i = i + 1;
    }
    assert(tickers@.take(i as int) =~= tickers@);
    Ok(PriceSnapshot {
        tickers_a: PriceTable { entries: a },
        tickers_b: PriceTable { entries: b },
        tickers_c: PriceTable { entries: c },
    })
}

} // verus!
