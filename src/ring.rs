//! Rings and their scoring: the evaluator that prices one ring against a
//! snapshot, and the ranking of a cycle's accepted rings.

use vstd::prelude::*;
use vstd::arithmetic::div_mod::lemma_div_is_ordered;
use vstd::string::StrSliceExecFns;
use crate::fixed::SCALE;
use crate::snapshot::{PriceLevel, PriceSnapshot};

verus! {

/// Parts per million: the unit of a fee rate.
pub const FEE_DENOM: u64 = 1_000_000;

/// A closed loop of three symbols: buy `leg0` with the stablecoin, sell it
/// for the bridge through `leg1`, sell the bridge for the stablecoin through `leg2`.
pub struct Ring {
    /// The traded asset that names the ring.
    pub symbol: String,
    pub leg0: String,
    pub leg1: String,
    pub leg2: String,
}

/// The three asset roles of the ring being traded.
pub struct RingComponent {
    pub symbol: String,
    pub bridge: String,
    pub stablecoin: String,
}

/// The level each leg trades at: leg 0 from table A, legs 1 and 2 from B and C.
#[derive(Clone, Copy, PartialEq, Eq, Structural, Debug)]
pub struct RingPrices {
    pub leg0: PriceLevel,
    pub leg1: PriceLevel,
    pub leg2: PriceLevel,
}

/// Scoring settings. Percentages carry eight decimals, like amounts
/// (`50_000_000` is half a percent); the fee is in parts per million per leg.
pub struct EvalConfig {
    pub max_invest: u64,
    pub min_profit: u64,
    pub warning: u64,
    pub fee_ppm: u64,
}

impl EvalConfig {
    pub open spec fn wf(&self) -> bool {
        self.fee_ppm <= FEE_DENOM
    }
}

/// An accepted ring: its projected profit and the size of its first leg.
pub struct RingResult {
    pub symbol: String,
    /// Profit as a percentage of `optimal_invest`, eight decimals.
    pub percentage: u64,
    pub profit: u64,
    /// Quantity bought by leg 0: `optimal_invest / price0`.
    pub qty: u64,
    pub optimal_invest: u64,
}

/// How a ring fared against a snapshot.
pub enum RingVerdict {
    /// A leg has no level, the first price is zero, or an amount of the
    /// trade does not fit a `u64`.
    Unpriced,
    /// Profit at or under the minimum.
    Unprofitable,
    /// Profit over the warning ceiling: taken for a stale or wrong price.
    Anomaly,
    Accepted(RingResult),
}

pub open spec fn ring_prices(ring: Ring, snap: PriceSnapshot) -> Option<RingPrices> {
    match (
        snap.tickers_a.level(ring.leg0@),
        snap.tickers_b.level(ring.leg1@),
        snap.tickers_c.level(ring.leg2@),
    ) {
        (Some(a), Some(b), Some(c)) => Some(RingPrices { leg0: a, leg1: b, leg2: c }),
        _ => None,
    }
}

/// What a cycle invests: the balance, capped at `max_invest`.
pub open spec fn invest_of(balance: u64, max_invest: u64) -> u64 {
    if balance > max_invest {
        max_invest
    } else {
        balance
    }
}

/// `x` less a fee of `fee` parts per million.
pub open spec fn after_fee(x: int, fee: int) -> int {
    x * (FEE_DENOM - fee) / (FEE_DENOM as int)
}

/// Quantity that `amount` buys at `price`.
pub open spec fn buy_qty(amount: int, price: int) -> int {
    amount * SCALE / price
}

/// Value of `qty` sold at `price`.
pub open spec fn sell_value(qty: int, price: int) -> int {
    qty * price / (SCALE as int)
}

/// Amount held after leg 0, after leg 1, and back in the stablecoin after leg 2.
pub open spec fn after_leg0(invest: int, p: RingPrices, fee: int) -> int {
    after_fee(buy_qty(invest, p.leg0.price as int), fee)
}

pub open spec fn after_leg1(invest: int, p: RingPrices, fee: int) -> int {
    after_fee(sell_value(after_leg0(invest, p, fee), p.leg1.price as int), fee)
}

pub open spec fn terminal_value(invest: int, p: RingPrices, fee: int) -> int {
    after_fee(sell_value(after_leg1(invest, p, fee), p.leg2.price as int), fee)
}

/// The trade can be priced: a non-zero first price, and every amount fits a `u64`.
pub open spec fn priceable(invest: int, p: RingPrices, fee: int) -> bool {
    &&& p.leg0.price > 0
    &&& buy_qty(invest, p.leg0.price as int) <= u64::MAX
    &&& after_leg1(invest, p, fee) <= u64::MAX
    &&& terminal_value(invest, p, fee) <= u64::MAX
}

/// Profit as a percentage of `invest`, times `SCALE`, before dividing by `invest`.
pub open spec fn scaled_profit(profit: int) -> int {
    profit * 100 * SCALE
}

pub open spec fn verdict_of(ring: Ring, balance: u64, snap: PriceSnapshot, cfg: EvalConfig) -> RingVerdict {
    match ring_prices(ring, snap) {
        None => RingVerdict::Unpriced,
        Some(p) => {
            let inv = invest_of(balance, cfg.max_invest) as int;
            let fee = cfg.fee_ppm as int;
            if !priceable(inv, p, fee) {
                RingVerdict::Unpriced
            } else {
                let profit = terminal_value(inv, p, fee) - inv;
                if scaled_profit(profit) <= cfg.min_profit * inv {
                    RingVerdict::Unprofitable
                } else if scaled_profit(profit) > cfg.warning * inv {
                    RingVerdict::Anomaly
                } else {
                    RingVerdict::Accepted(
                        RingResult {
                            symbol: ring.symbol,
                            percentage: (scaled_profit(profit) / inv) as u64,
                            profit: profit as u64,
                            qty: buy_qty(inv, p.leg0.price as int) as u64,
                            optimal_invest: inv as u64,
                        },
                    )
                }
            }
        },
    }
}

/// What `analyze_ring` returns.
pub open spec fn analysis_of(ring: Ring, balance: u64, snap: PriceSnapshot, cfg: EvalConfig) -> Option<RingResult> {
    match verdict_of(ring, balance, snap, cfg) {
        RingVerdict::Accepted(r) => Some(r),
        _ => None,
    }
}

/// The levels of the ring's three legs, each from its own table.
pub fn build_ring(ring: &Ring, snapshot: &PriceSnapshot) -> (r: Option<RingPrices>)
    ensures
        r == ring_prices(*ring, *snapshot),
{
    let a = snapshot.tickers_a.get(&ring.leg0);
    let b = snapshot.tickers_b.get(&ring.leg1);
    let c = snapshot.tickers_c.get(&ring.leg2);
    match (a, b, c) {
        (Some(a), Some(b), Some(c)) => Some(RingPrices { leg0: a, leg1: b, leg2: c }),
        _ => None,
    }
}

proof fn lemma_after_fee_le(x: int, fee: int)
    requires
        0 <= x,
        0 <= fee <= FEE_DENOM,
    ensures
        0 <= after_fee(x, fee) <= x,
{
    let k = FEE_DENOM - fee;
    assert(0 <= x * k <= x * FEE_DENOM) by (nonlinear_arith)
        requires
            0 <= x,
            0 <= k <= FEE_DENOM,
    ;
    assert(x * k / (FEE_DENOM as int) <= x) by (nonlinear_arith)
        requires
            0 <= x * k <= x * FEE_DENOM,
    ;
    assert(x * k / (FEE_DENOM as int) >= 0) by (nonlinear_arith)
        requires
            0 <= x * k,
    ;
}

/// One leg's amount after selling: `qty * price / SCALE` less the fee.
fn sell_leg(qty: u64, price: u64, fee_ppm: u64) -> (r: u128)
    requires
        fee_ppm <= FEE_DENOM,
    ensures
        r == after_fee(sell_value(qty as int, price as int), fee_ppm as int),
{
    let keep = (FEE_DENOM - fee_ppm) as u128;
    proof {
        assert(qty * price <= 0xffff_ffff_ffff_ffff * 0xffff_ffff_ffff_ffffu128) by (nonlinear_arith)
            requires
                qty <= 0xffff_ffff_ffff_ffffu64,
                price <= 0xffff_ffff_ffff_ffffu64,
        ;
    }
    let v = qty as u128 * price as u128 / SCALE as u128;
    proof {
        lemma_div_is_ordered(
            (qty * price) as int,
            0xffff_ffff_ffff_ffff * 0xffff_ffff_ffff_ffffu128 as int,
            100_000_000,
        );
        assert(v * keep <= 0xffff_ffff_ffff_ffff_ffff_ffff_ffff_ffffu128) by (nonlinear_arith)
            requires
                v <= 0xffff_ffff_ffff_ffff * 0xffff_ffff_ffff_ffffu128 / 100_000_000,
                keep <= 1_000_000,
        ;
    }
    v * keep / FEE_DENOM as u128
}

/// Scores `ring` against `snapshot` with `balance` to invest, and says why
/// a ring that is not taken was turned down.
pub fn evaluate_ring(ring: &Ring, balance: u64, snapshot: &PriceSnapshot, config: &EvalConfig) -> (r: RingVerdict)
    requires
        config.wf(),
    ensures
        r == verdict_of(*ring, balance, *snapshot, *config),
{
    let prices = match build_ring(ring, snapshot) {
        Some(p) => p,
        None => return RingVerdict::Unpriced,
    };
    let inv: u64 = if balance > config.max_invest {
        config.max_invest
    } else {
        balance
    };
    let ghost fee = config.fee_ppm as int;
    if prices.leg0.price == 0 {
        return RingVerdict::Unpriced;
    }
    proof {
        assert(inv * SCALE <= 0xffff_ffff_ffff_ffff * 100_000_000u128) by (nonlinear_arith)
            requires
                inv <= 0xffff_ffff_ffff_ffffu64,
        ;
    }
    let qty = inv as u128 * SCALE as u128 / prices.leg0.price as u128;
    if qty > u64::MAX as u128 {
        return RingVerdict::Unpriced;
    }
    let keep = (FEE_DENOM - config.fee_ppm) as u128;
    proof {
        assert(qty * keep <= 0xffff_ffff_ffff_ffff * 1_000_000u128) by (nonlinear_arith)
            requires
                qty <= 0xffff_ffff_ffff_ffffu64,
                keep <= 1_000_000,
        ;
        lemma_after_fee_le(qty as int, fee);
    }
    let x0 = (qty * keep / FEE_DENOM as u128) as u64;
    let x1 = sell_leg(x0, prices.leg1.price, config.fee_ppm);
    if x1 > u64::MAX as u128 {
        return RingVerdict::Unpriced;
    }
    let x2 = sell_leg(x1 as u64, prices.leg2.price, config.fee_ppm);
    if x2 > u64::MAX as u128 {
        return RingVerdict::Unpriced;
    }
    let inv128 = inv as u128;
    if x2 <= inv128 {
        proof {
            assert(scaled_profit(x2 - inv) <= 0) by (nonlinear_arith)
                requires
                    x2 - inv <= 0,
            ;
            assert(config.min_profit * inv >= 0) by (nonlinear_arith);
        }
        return RingVerdict::Unprofitable;
    }
    let profit = x2 - inv128;
    proof {
        assert(profit * 100 * 100_000_000 <= 0xffff_ffff_ffff_ffff * 10_000_000_000u128) by (nonlinear_arith)
            requires
                profit <= 0xffff_ffff_ffff_ffffu64,
        ;
        assert(config.min_profit * inv <= 0xffff_ffff_ffff_ffff * 0xffff_ffff_ffff_ffffu128) by (nonlinear_arith)
            requires
                config.min_profit <= 0xffff_ffff_ffff_ffffu64,
                inv <= 0xffff_ffff_ffff_ffffu64,
        ;
        assert(config.warning * inv <= 0xffff_ffff_ffff_ffff * 0xffff_ffff_ffff_ffffu128) by (nonlinear_arith)
            requires
                config.warning <= 0xffff_ffff_ffff_ffffu64,
                inv <= 0xffff_ffff_ffff_ffffu64,
        ;
    }
    let scaled = profit * 100 * SCALE as u128;
    if scaled <= config.min_profit as u128 * inv128 {
        return RingVerdict::Unprofitable;
    }
    if scaled > config.warning as u128 * inv128 {
        return RingVerdict::Anomaly;
    }
    proof {
        assert(inv > 0);
        assert(scaled / inv128 <= config.warning) by (nonlinear_arith)
            requires
                scaled <= config.warning * inv128,
                inv128 > 0,
        ;
    }
    let percentage = (scaled / inv128) as u64;
    RingVerdict::Accepted(
        RingResult {
            symbol: ring.symbol.clone(),
            percentage,
            profit: profit as u64,
            qty: qty as u64,
            optimal_invest: inv,
        },
    )
}

/// Scores `ring`: the result where its profit is over the minimum and not
/// over the warning ceiling, `None` otherwise.
pub fn analyze_ring(ring: &Ring, balance: u64, snapshot: &PriceSnapshot, config: &EvalConfig) -> (r: Option<RingResult>)
    requires
        config.wf(),
    ensures
        r == analysis_of(*ring, balance, *snapshot, *config),
        r matches Some(x) ==> x.optimal_invest <= config.max_invest && x.optimal_invest <= balance,
{
    match evaluate_ring(ring, balance, snapshot, config) {
        RingVerdict::Accepted(r) => Some(r),
        _ => None,
    }
}

/// Symbols in lexicographic order of their characters' code points.
pub open spec fn symbol_lt(a: Seq<char>, b: Seq<char>) -> bool
    decreases a.len(),
{
    if a.len() == 0 {
        b.len() > 0
    } else if b.len() == 0 {
        false
    } else if a[0] != b[0] {
        (a[0] as u32) < (b[0] as u32)
    } else {
        symbol_lt(a.skip(1), b.skip(1))
    }
}

/// `x` ranks ahead of `y`: more profit, or as much and an earlier symbol.
pub open spec fn ranks_before(x: RingResult, y: RingResult) -> bool {
    x.profit > y.profit || (x.profit == y.profit && symbol_lt(x.symbol@, y.symbol@))
}

/// Where `x` goes in `s`: after every result that `x` does not rank ahead of.
pub open spec fn insert_pos(s: Seq<RingResult>, x: RingResult) -> nat
    decreases s.len(),
{
    if s.len() == 0 {
        0
    } else if ranks_before(x, s[0]) {
        0
    } else {
        1 + insert_pos(s.skip(1), x)
    }
}

pub open spec fn insert_ranked(s: Seq<RingResult>, x: RingResult) -> Seq<RingResult> {
    s.insert(insert_pos(s, x) as int, x)
}

/// `s` by descending profit, equal profits by ascending symbol.
pub open spec fn ranked(s: Seq<RingResult>) -> Seq<RingResult>
    decreases s.len(),
{
    if s.len() == 0 {
        s
    } else {
        insert_ranked(ranked(s.drop_last()), s.last())
    }
}

/// Descending profit; where profits are equal, symbols do not descend.
pub open spec fn sorted_by_profit(s: Seq<RingResult>) -> bool {
    forall|i: int, j: int|
        0 <= i < j < s.len() ==> (#[trigger] s[i]).profit > (#[trigger] s[j]).profit || (s[i].profit
            == s[j].profit && !symbol_lt(s[j].symbol@, s[i].symbol@))
}

/// The results of the accepted verdicts, in order.
pub open spec fn kept(vs: Seq<RingVerdict>) -> Seq<RingResult>
    decreases vs.len(),
{
    if vs.len() == 0 {
        Seq::empty()
    } else {
        let rest = kept(vs.drop_last());
        match vs.last() {
            RingVerdict::Accepted(r) => rest.push(r),
            _ => rest,
        }
    }
}

/// The verdict of every ring, in the order of `rings`.
pub open spec fn verdicts_of(rings: Seq<Ring>, balance: u64, snap: PriceSnapshot, cfg: EvalConfig) -> Seq<
    RingVerdict,
> {
    Seq::new(rings.len(), |i: int| verdict_of(rings[i], balance, snap, cfg))
}

/// The results of the rings that are accepted, in the order of `rings`.
pub open spec fn accepted(rings: Seq<Ring>, balance: u64, snap: PriceSnapshot, cfg: EvalConfig) -> Seq<RingResult> {
    kept(verdicts_of(rings, balance, snap, cfg))
}

proof fn lemma_symbol_lt_irreflexive(a: Seq<char>)
    ensures
        !symbol_lt(a, a),
    decreases a.len(),
{
    if a.len() > 0 {
        lemma_symbol_lt_irreflexive(a.skip(1));
    }
}

proof fn lemma_symbol_lt_transitive(a: Seq<char>, b: Seq<char>, c: Seq<char>)
    requires
        symbol_lt(a, b),
        symbol_lt(b, c),
    ensures
        symbol_lt(a, c),
    decreases a.len(),
{
    if a.len() > 0 && b.len() > 0 && c.len() > 0 && a[0] == b[0] && b[0] == c[0] {
        lemma_symbol_lt_transitive(a.skip(1), b.skip(1), c.skip(1));
    }
}

proof fn lemma_ranks_before_transitive(x: RingResult, y: RingResult, z: RingResult)
    requires
        ranks_before(x, y),
        ranks_before(y, z),
    ensures
        ranks_before(x, z),
{
    if x.profit == y.profit && y.profit == z.profit {
        lemma_symbol_lt_transitive(x.symbol@, y.symbol@, z.symbol@);
    }
}

proof fn lemma_insert_pos(s: Seq<RingResult>, x: RingResult)
    ensures
        insert_pos(s, x) <= s.len(),
        forall|i: int| 0 <= i < insert_pos(s, x) ==> !ranks_before(x, #[trigger] s[i]),
        insert_pos(s, x) < s.len() ==> ranks_before(x, s[insert_pos(s, x) as int]),
    decreases s.len(),
{
    if s.len() > 0 && !ranks_before(x, s[0]) {
        lemma_insert_pos(s.skip(1), x);
        assert forall|i: int| 0 <= i < insert_pos(s, x) implies !ranks_before(x, #[trigger] s[i]) by {
            if i > 0 {
                assert(s.skip(1)[i - 1] == s[i]);
            }
        }
    }
}

proof fn lemma_insert_sorted(s: Seq<RingResult>, x: RingResult)
    requires
        sorted_by_profit(s),
    ensures
        sorted_by_profit(insert_ranked(s, x)),
{
    lemma_insert_pos(s, x);
    let k = insert_pos(s, x) as int;
    let t = insert_ranked(s, x);
    assert forall|i: int, j: int| 0 <= i < j < t.len() implies (#[trigger] t[i]).profit > (
    #[trigger] t[j]).profit || (t[i].profit == t[j].profit && !symbol_lt(t[j].symbol@, t[i].symbol@)) by {
        if j < k {
        } else if j == k {
            assert(!ranks_before(x, s[i]));
        } else if i < k {
            assert(t[j] == s[j - 1]);
        } else if i == k {
            let y = s[j - 1];
            assert(t[j] == y);
            if ranks_before(y, x) {
                lemma_ranks_before_transitive(y, x, s[k]);
                if j - 1 == k {
                    lemma_symbol_lt_irreflexive(y.symbol@);
                }
            }
        } else {
            assert(t[i] == s[i - 1]);
            assert(t[j] == s[j - 1]);
        }
    }
}

/// Ranking orders by descending profit, equal profits by ascending symbol,
/// and loses or adds no result.
pub proof fn lemma_ranked(s: Seq<RingResult>)
    ensures
        sorted_by_profit(ranked(s)),
        ranked(s).len() == s.len(),
        ranked(s).to_multiset() == s.to_multiset(),
    decreases s.len(),
{
    if s.len() > 0 {
        lemma_ranked(s.drop_last());
        lemma_insert_sorted(ranked(s.drop_last()), s.last());
        lemma_insert_pos(ranked(s.drop_last()), s.last());
        vstd::seq_lib::to_multiset_insert(
            ranked(s.drop_last()),
            insert_pos(ranked(s.drop_last()), s.last()) as int,
            s.last(),
        );
        vstd::seq_lib::to_multiset_build(s.drop_last(), s.last());
        assert(s.drop_last().push(s.last()) =~= s);
    }
}

/// Compares two symbols in lexicographic order.
pub fn symbol_before(a: &String, b: &String) -> (r: bool)
    ensures
        r == symbol_lt(a@, b@),
{
    let sa = a.as_str();
    let sb = b.as_str();
    let na = sa.unicode_len();
    let nb = sb.unicode_len();
    let mut i: usize = 0;
    assert(a@.skip(0) =~= a@);
    assert(b@.skip(0) =~= b@);
    loop
        invariant
            sa@ == a@,
            sb@ == b@,
            na == a@.len(),
            nb == b@.len(),
            i <= na,
            i <= nb,
            symbol_lt(a@, b@) == symbol_lt(a@.skip(i as int), b@.skip(i as int)),
        decreases na - i,
    {
        if i == na {
            return i < nb;
        }
        if i == nb {
            return false;
        }
        let ca = sa.get_char(i);
        let cb = sb.get_char(i);
        assert(a@.skip(i as int)[0] == a@[i as int]);
        assert(b@.skip(i as int)[0] == b@[i as int]);
        if ca != cb {
            return (ca as u32) < (cb as u32);
        }
        assert(a@.skip(i as int).skip(1) =~= a@.skip(i as int + 1));
        assert(b@.skip(i as int).skip(1) =~= b@.skip(i as int + 1));
        i = i + 1;
    }
}

fn ranks_ahead(x: &RingResult, y: &RingResult) -> (r: bool)
    ensures
        r == ranks_before(*x, *y),
{
    x.profit > y.profit || (x.profit == y.profit && symbol_before(&x.symbol, &y.symbol))
}

fn insert_position(out: &Vec<RingResult>, x: &RingResult) -> (j: usize)
    ensures
        j == insert_pos(out@, *x),
        j <= out.len(),
{
    proof {
        lemma_insert_pos(out@, *x);
    }
    let mut j: usize = 0;
    assert(out@.skip(0) =~= out@);
    loop
        invariant
            j <= out.len(),
            insert_pos(out@, *x) == j + insert_pos(out@.skip(j as int), *x),
        decreases out.len() - j,
    {
        if j == out.len() {
            return j;
        }
        assert(out@.skip(j as int)[0] == out@[j as int]);
        if ranks_ahead(x, &out[j]) {
            return j;
        }
        assert(out@.skip(j as int).skip(1) =~= out@.skip(j as int + 1));
        j = j + 1;
    }
}

/// Sorts `results` by descending profit, equal profits by ascending symbol.
pub fn rank_results(results: Vec<RingResult>) -> (r: Vec<RingResult>)
    ensures
        r@ == ranked(results@),
        sorted_by_profit(r@),
        r@.to_multiset() == results@.to_multiset(),
{
    let ghost orig = results@;
    let mut rest = results;
    let mut out: Vec<RingResult> = Vec::new();
    let ghost mut i: int = 0;
    assert(orig.skip(0) =~= orig);
    assert(orig.take(0) =~= Seq::<RingResult>::empty());
    while rest.len() > 0
        invariant
            0 <= i <= orig.len(),
            rest@ == orig.skip(i),
            out@ == ranked(orig.take(i)),
        decreases rest.len(),
    {
        let x = rest.remove(0);
        assert(orig.take(i + 1).drop_last() =~= orig.take(i));
        assert(orig.take(i + 1).last() == x);
        assert(rest@ =~= orig.skip(i + 1));
        let j = insert_position(&out, &x);
        out.insert(j, x);
        proof {
            i = i + 1;
        }
    }
    assert(orig.take(i) =~= orig);
    proof {
        lemma_ranked(orig);
    }
    out
}

/// Keeps the accepted results of `verdicts` and ranks them: descending
/// profit, equal profits by ascending symbol.
pub fn rank_verdicts(verdicts: Vec<RingVerdict>) -> (r: Vec<RingResult>)
    ensures
        r@ == ranked(kept(verdicts@)),
        sorted_by_profit(r@),
        r@.to_multiset() == kept(verdicts@).to_multiset(),
{
    let ghost orig = verdicts@;
    let mut rest = verdicts;
    let mut found: Vec<RingResult> = Vec::new();
    let ghost mut i: int = 0;
    assert(orig.skip(0) =~= orig);
    assert(orig.take(0) =~= Seq::<RingVerdict>::empty());
    while rest.len() > 0
        invariant
            0 <= i <= orig.len(),
            rest@ == orig.skip(i),
            found@ == kept(orig.take(i)),
        decreases rest.len(),
    {
        let v = rest.remove(0);
        assert(orig.take(i + 1).drop_last() =~= orig.take(i));
        assert(orig.take(i + 1).last() == v);
        assert(rest@ =~= orig.skip(i + 1));
        match v {
            RingVerdict::Accepted(r) => found.push(r),
            _ => {},
        }
        proof {
            i = i + 1;
        }
    }
    assert(orig.take(i) =~= orig);
    rank_results(found)
}

/// Scores every ring against one snapshot and ranks the accepted ones by
/// descending profit, equal profits by ascending symbol.
pub fn compute_rings(rings: &Vec<Ring>, balance: u64, snapshot: &PriceSnapshot, config: &EvalConfig) -> (r: Vec<
    RingResult,
>)
    requires
        config.wf(),
    ensures
        r@ == ranked(accepted(rings@, balance, *snapshot, *config)),
        sorted_by_profit(r@),
        r@.to_multiset() == accepted(rings@, balance, *snapshot, *config).to_multiset(),
{
    let mut verdicts: Vec<RingVerdict> = Vec::new();
    let mut i: usize = 0;
    while i < rings.len()
        invariant
            i <= rings.len(),
            config.wf(),
            verdicts@ == verdicts_of(rings@.take(i as int), balance, *snapshot, *config),
        decreases rings.len() - i,
    {
        let v = evaluate_ring(&rings[i], balance, snapshot, config);
        verdicts.push(v);
        assert(verdicts@ =~= verdicts_of(rings@.take(i as int + 1), balance, *snapshot, *config));
        i = i + 1;
    }
    assert(rings@.take(i as int) =~= rings@);
    rank_verdicts(verdicts)
}

/// The symbols of the legs of every ring, three per ring, in ring order.
pub open spec fn ring_symbols(rings: Seq<Ring>) -> Seq<String>
    decreases rings.len(),
{
    if rings.len() == 0 {
        Seq::empty()
    } else {
        let r = rings.last();
        ring_symbols(rings.drop_last()).push(r.leg0).push(r.leg1).push(r.leg2)
    }
}

/// Lists the symbols that the rings trade: the ones whose prices a cycle needs.
pub fn make_symcache(rings: &Vec<Ring>) -> (r: Vec<String>)
    ensures
        r@ == ring_symbols(rings@),
{
    let mut symbols_cache: Vec<String> = Vec::new();
    let mut i: usize = 0;
    while i < rings.len()
        invariant
            i <= rings.len(),
            symbols_cache@ == ring_symbols(rings@.take(i as int)),
        decreases rings.len() - i,
    {
        assert(rings@.take(i as int + 1).drop_last() =~= rings@.take(i as int));
        symbols_cache.push(rings[i].leg0.clone());
        symbols_cache.push(rings[i].leg1.clone());
        symbols_cache.push(rings[i].leg2.clone());
        i = i + 1;
    }
    assert(rings@.take(i as int) =~= rings@);
    symbols_cache
}

/// A ring is turned down where its profit is at or under the minimum share
/// of the investment, and where it is over the warning share; an accepted
/// ring lies strictly over the one and at or under the other.
pub proof fn lemma_profit_band(ring: Ring, balance: u64, snap: PriceSnapshot, cfg: EvalConfig)
    ensures
        ring_prices(ring, snap) matches Some(p) ==> {
            let inv = invest_of(balance, cfg.max_invest) as int;
            let profit = terminal_value(inv, p, cfg.fee_ppm as int) - inv;
            &&& scaled_profit(profit) <= cfg.min_profit * inv ==> analysis_of(ring, balance, snap, cfg) is None
            &&& scaled_profit(profit) > cfg.warning * inv ==> analysis_of(ring, balance, snap, cfg) is None
        },
        analysis_of(ring, balance, snap, cfg) matches Some(r) ==> {
            &&& cfg.min_profit * r.optimal_invest < scaled_profit(r.profit as int)
            &&& scaled_profit(r.profit as int) <= cfg.warning * r.optimal_invest
        },
{
}

/// The amount a ring invests is capped by both the ceiling and the balance,
/// and is never negative.
pub proof fn lemma_invest_bounds(ring: Ring, balance: u64, snap: PriceSnapshot, cfg: EvalConfig)
    ensures
        0 <= invest_of(balance, cfg.max_invest) <= cfg.max_invest,
        invest_of(balance, cfg.max_invest) <= balance,
        analysis_of(ring, balance, snap, cfg) matches Some(r) ==> r.optimal_invest == invest_of(
            balance,
            cfg.max_invest,
        ),
{
}

/// Scoring the same ring twice against the same snapshot gives the same result.
pub proof fn lemma_evaluation_repeatable(
    ring: Ring,
    balance: u64,
    snap: PriceSnapshot,
    cfg: EvalConfig,
    first: Option<RingResult>,
    second: Option<RingResult>,
)
    requires
        first == analysis_of(ring, balance, snap, cfg),
        second == analysis_of(ring, balance, snap, cfg),
    ensures
        first == second,
{
}

} // verus!
