//! Execution of a chosen ring, as two state machines: the sequential
//! strategy (leg 0, then 1, then 2, each sized by the fill before it) and
//! the parallel one (leg 1 first, then legs 0 and 2 together, all sized up
//! front from the snapshot).

use vstd::prelude::*;
use crate::fixed::SCALE;
use crate::constraints::{QuantityTable, UnknownSymbol, valid_multiplier, truncated, truncate_to};
use crate::ring::{Ring, RingPrices, FEE_DENOM, after_fee, buy_qty, sell_value};
use crate::polling::{LegOutcome, OrderStatus};

verus! {

/// Lot and tick multipliers of the three legs of a ring.
#[derive(Clone, Copy, PartialEq, Eq, Structural, Debug)]
pub struct RingRules {
    pub lot0: u64,
    pub lot1: u64,
    pub lot2: u64,
    pub tick0: u64,
    pub tick1: u64,
    pub tick2: u64,
}

impl RingRules {
    pub open spec fn wf(&self) -> bool {
        &&& valid_multiplier(self.lot0)
        &&& valid_multiplier(self.lot1)
        &&& valid_multiplier(self.lot2)
        &&& valid_multiplier(self.tick0)
        &&& valid_multiplier(self.tick1)
        &&& valid_multiplier(self.tick2)
    }
}

/// The rules of the ring's legs, or the first leg whose symbol has none.
pub fn ring_rules(ring: &Ring, table: &QuantityTable) -> (r: Result<RingRules, UnknownSymbol>)
    requires
        table.wf(),
    ensures
        r is Ok <==> table.has(ring.leg0@) && table.has(ring.leg1@) && table.has(ring.leg2@),
        r matches Ok(rules) ==> {
            &&& rules.wf()
            &&& rules.lot0 == table.info(ring.leg0@).move_qty
            &&& rules.lot1 == table.info(ring.leg1@).move_qty
            &&& rules.lot2 == table.info(ring.leg2@).move_qty
            &&& rules.tick0 == table.info(ring.leg0@).move_price
            &&& rules.tick1 == table.info(ring.leg1@).move_price
            &&& rules.tick2 == table.info(ring.leg2@).move_price
        },
{
    let i0 = match table.find(&ring.leg0) {
        Some(i) => i,
        None => return Err(UnknownSymbol { symbol: ring.leg0.clone() }),
    };
    let i1 = match table.find(&ring.leg1) {
        Some(i) => i,
        None => return Err(UnknownSymbol { symbol: ring.leg1.clone() }),
    };
    let i2 = match table.find(&ring.leg2) {
        Some(i) => i,
        None => return Err(UnknownSymbol { symbol: ring.leg2.clone() }),
    };
    proof {
        table.lemma_info_at(i0 as int);
        table.lemma_info_at(i1 as int);
        table.lemma_info_at(i2 as int);
    }
    Ok(
        RingRules {
            lot0: table.infos[i0].move_qty,
            lot1: table.infos[i1].move_qty,
            lot2: table.infos[i2].move_qty,
            tick0: table.infos[i0].move_price,
            tick1: table.infos[i1].move_price,
            tick2: table.infos[i2].move_price,
        },
    )
}

#[derive(Clone, Copy, PartialEq, Eq, Structural, Debug)]
pub enum Side {
    Buy,
    Sell,
}

/// A limit order on one leg of the ring.
#[derive(Clone, Copy, PartialEq, Eq, Structural, Debug)]
pub struct LegOrder {
    pub leg: u8,
    pub side: Side,
    pub qty: u64,
    pub price: u64,
}

/// How the execution of a ring ended.
#[derive(Clone, Copy, PartialEq, Eq, Structural, Debug)]
pub enum ExecOutcome {
    /// The ring completed; the stablecoin balance after it.
    Balance(u64),
    /// The ring did not complete, but no capital is in doubt.
    SoftFailure,
    /// An exchange call failed in a way that leaves the capital unknown.
    HardFailure,
    /// The balance is under the operating minimum: nothing was placed.
    Aborted,
}

/// What the caller saw after the last action.
pub enum ExecEvent {
    Balance(u64),
    BalanceFailed,
    Placed,
    PlaceFailed,
    /// The watch of a placed leg ended.
    LegDone(LegOutcome),
    /// A status poll of an outstanding leg (parallel strategy).
    LegStatus(u8, OrderStatus),
    LegUnrecognized,
    /// The status poll of this leg failed.
    StatusFailed(u8),
}

/// What the caller does next.
#[derive(Clone, Copy, PartialEq, Eq, Structural, Debug)]
pub enum ExecAction {
    FetchStable,
    Place(LegOrder),
    /// Watch the order just placed on this leg with the polling machine,
    /// as a first leg or not.
    Watch(u8, bool),
    /// Wait one interval, then poll the outstanding order on this leg.
    PollLeg(u8),
    Complete(ExecOutcome),
}

#[derive(Clone, Copy, PartialEq, Eq, Structural, Debug)]
pub enum RunPhase {
    AwaitBalance,
    Placing(u8),
    Watching(u8),
    Outstanding,
    AwaitFinal,
    Done,
}

pub struct RingRun {
    pub phase: RunPhase,
    pub prices: RingPrices,
    pub rules: RingRules,
    /// Investment ceiling of a cycle.
    pub config_invest: u64,
    /// Operating minimum of the stablecoin balance.
    pub min_balance: u64,
    /// Stablecoin balance when the run began.
    pub origin_balance: u64,
    /// Quantities of the three legs, once sized.
    pub qty0: u64,
    pub qty1: u64,
    pub qty2: u64,
    /// Fee of each leg, in parts per million.
    pub fee_ppm: u64,
    /// Outstanding legs 0 and 2 of the parallel strategy.
    pub pending0: bool,
    pub pending2: bool,
    /// One of them was cancelled.
    pub cancelled: bool,
}

impl RingRun {
    pub open spec fn wf(&self) -> bool {
        &&& self.rules.wf()
        &&& self.fee_ppm <= FEE_DENOM
        &&& self.phase == RunPhase::Outstanding ==> self.pending0 || self.pending2
    }

    /// A run that waits for the stablecoin balance: fetch it first.
    pub fn new(prices: RingPrices, rules: RingRules, config_invest: u64, min_balance: u64, fee_ppm: u64) -> (r: RingRun)
        requires
            rules.wf(),
            fee_ppm <= FEE_DENOM,
        ensures
            r.wf(),
            r.phase == RunPhase::AwaitBalance,
            r.prices == prices,
            r.rules == rules,
            r.config_invest == config_invest,
            r.min_balance == min_balance,
            r.fee_ppm == fee_ppm,
    {
        RingRun {
            phase: RunPhase::AwaitBalance,
            prices,
            rules,
            config_invest,
            min_balance,
            origin_balance: 0,
            qty0: 0,
            qty1: 0,
            qty2: 0,
            fee_ppm,
            pending0: false,
            pending2: false,
            cancelled: false,
        }
    }
}

/// What a run invests from a balance of `balance`.
pub open spec fn run_invest(run: RingRun, balance: u64) -> int {
    if run.config_invest > balance {
        balance as int
    } else {
        run.config_invest as int
    }
}

/// Leg 0's quantity: the investment over the first price, cut to its lot.
pub open spec fn first_qty(run: RingRun, balance: u64) -> int {
    truncated(buy_qty(run_invest(run, balance), run.prices.leg0.price as int), run.rules.lot0 as int)
}

/// Leg 0 can be sized: a non-zero first price and a quantity that fits.
pub open spec fn sizable(run: RingRun, balance: u64) -> bool {
    run.prices.leg0.price > 0 && buy_qty(run_invest(run, balance), run.prices.leg0.price as int) <= u64::MAX
}

pub open spec fn completes(run: RingRun, r: ExecAction, outcome: ExecOutcome) -> bool {
    r == ExecAction::Complete(outcome) && run.phase == RunPhase::Done
}

/// How a leg's watch ending other than in a fill ends the run.
pub open spec fn leg_failed(run: RingRun, r: ExecAction, outcome: LegOutcome) -> bool {
    &&& outcome == LegOutcome::NoFill ==> completes(run, r, ExecOutcome::SoftFailure)
    &&& outcome == LegOutcome::Halted ==> completes(run, r, ExecOutcome::HardFailure)
}

fn leg0_quantity(run: &RingRun, balance: u64) -> (r: Option<u64>)
    requires
        run.wf(),
    ensures
        r is Some <==> sizable(*run, balance),
        r matches Some(q) ==> q == first_qty(*run, balance),
{
    let inv: u64 = if run.config_invest > balance {
        balance
    } else {
        run.config_invest
    };
    if run.prices.leg0.price == 0 {
        return None;
    }
    proof {
        assert(inv * SCALE <= 0xffff_ffff_ffff_ffff * 100_000_000u128) by (nonlinear_arith)
            requires
                inv <= 0xffff_ffff_ffff_ffffu64,
        ;
    }
    let q = inv as u128 * SCALE as u128 / run.prices.leg0.price as u128;
    if q > u64::MAX as u128 {
        return None;
    }
    Some(truncate_to(q as u64, run.rules.lot0))
}

fn complete(run: &mut RingRun, outcome: ExecOutcome) -> (r: ExecAction)
    ensures
        completes(*final(run), r, outcome),
        *final(run) == (RingRun { phase: RunPhase::Done, ..*old(run) }),
{
    run.phase = RunPhase::Done;
    ExecAction::Complete(outcome)
}

fn leg_failure(run: &mut RingRun, outcome: LegOutcome) -> (r: ExecAction)
    ensures
        leg_failed(*final(run), r, outcome),
        r is Complete,
        *final(run) == (RingRun { phase: RunPhase::Done, ..*old(run) }),
{
    match outcome {
        LegOutcome::Halted => complete(run, ExecOutcome::HardFailure),
        _ => complete(run, ExecOutcome::SoftFailure),
    }
}

/// A price cut to a tick grid.
pub open spec fn on_tick(price: u64, tick: u64) -> u64 {
    truncated(price as int, tick as int) as u64
}

fn leg_order(leg: u8, side: Side, qty: u64, price: u64, tick: u64) -> (r: LegOrder)
    requires
        valid_multiplier(tick),
    ensures
        r == (LegOrder { leg, side, qty, price: on_tick(price, tick) }),
{
    LegOrder { leg, side, qty, price: truncate_to(price, tick) }
}

/// Bridge that selling `qty` on leg 1 at its price brings, less the fee,
/// cut to leg 2's lot: what leg 2 sells.
pub open spec fn bridge_qty(run: RingRun, qty: int) -> int {
    truncated(
        after_fee(sell_value(qty, on_tick(run.prices.leg1.price, run.rules.tick1) as int), run.fee_ppm as int),
        run.rules.lot2 as int,
    )
}

/// Selling `qty` on leg 1 brings an amount that fits a `u64`.
pub open spec fn bridge_fits(run: RingRun, qty: int) -> bool {
    sell_value(qty, on_tick(run.prices.leg1.price, run.rules.tick1) as int) <= u64::MAX
}

fn leg2_quantity(run: &RingRun, qty: u64) -> (r: Option<u64>)
    requires
        run.wf(),
    ensures
        r is Some <==> bridge_fits(*run, qty as int),
        r matches Some(q) ==> q == bridge_qty(*run, qty as int),
{
    let price = truncate_to(run.prices.leg1.price, run.rules.tick1);
    proof {
        assert(qty * price <= 0xffff_ffff_ffff_ffff * 0xffff_ffff_ffff_ffffu128) by (nonlinear_arith)
            requires
                qty <= 0xffff_ffff_ffff_ffffu64,
                price <= 0xffff_ffff_ffff_ffffu64,
        ;
    }
    let v = qty as u128 * price as u128 / SCALE as u128;
    if v > u64::MAX as u128 {
        return None;
    }
    let keep = (FEE_DENOM - run.fee_ppm) as u64;
    proof {
        assert(v * keep <= 0xffff_ffff_ffff_ffff * 1_000_000u128) by (nonlinear_arith)
            requires
                v <= 0xffff_ffff_ffff_ffffu64,
                keep <= 1_000_000,
        ;
        assert(v * keep / 1_000_000 <= v) by (nonlinear_arith)
            requires
                keep <= 1_000_000,
                v >= 0,
        ;
    }
    let net = (v * keep as u128 / FEE_DENOM as u128) as u64;
    Some(truncate_to(net, run.rules.lot2))
}

/// One step of the sequential strategy: leg 0 buys the symbol with the
/// stablecoin, leg 1 sells what leg 0 filled for the bridge, leg 2 sells
/// the bridge that leg 1's fill brought at its price, less the fee; each leg
/// is placed once the one before it filled, and the run ends with the
/// stablecoin balance.
///
/// A balance under the operating minimum aborts before any order. A leg
/// that ends without a fill ends the run softly; a failed placement of leg
/// 1 or 2, a failed balance fetch, a halted watch or an event out of turn
/// ends it hard, as does a leg 1 fill whose proceeds do not fit a `u64`.
pub fn execute_final_ring(run: &mut RingRun, event: ExecEvent) -> (r: ExecAction)
    requires
        old(run).wf(),
    ensures
        final(run).wf(),
        final(run).prices == old(run).prices,
        final(run).rules == old(run).rules,
        old(run).phase != RunPhase::AwaitBalance ==> final(run).origin_balance == old(run).origin_balance,
        old(run).phase == RunPhase::AwaitBalance ==> match event {
            ExecEvent::Balance(b) => if b < old(run).min_balance {
                completes(*final(run), r, ExecOutcome::Aborted)
            } else if !sizable(*old(run), b) {
                completes(*final(run), r, ExecOutcome::SoftFailure)
            } else {
                &&& r == ExecAction::Place(
                    LegOrder {
                        leg: 0,
                        side: Side::Buy,
                        qty: first_qty(*old(run), b) as u64,
                        price: on_tick(old(run).prices.leg0.price, old(run).rules.tick0),
                    },
                )
                &&& final(run).phase == RunPhase::Placing(0)
                &&& final(run).origin_balance == b
            },
            _ => completes(*final(run), r, ExecOutcome::HardFailure),
        },
        old(run).phase == RunPhase::Placing(0) ==> match event {
            ExecEvent::Placed => r == ExecAction::Watch(0, true) && final(run).phase == RunPhase::Watching(0),
            ExecEvent::PlaceFailed => completes(*final(run), r, ExecOutcome::SoftFailure),
            _ => completes(*final(run), r, ExecOutcome::HardFailure),
        },
        old(run).phase == RunPhase::Watching(0) ==> match event {
            ExecEvent::LegDone(LegOutcome::Filled(x)) => {
                &&& r == ExecAction::Place(
                    LegOrder {
                        leg: 1,
                        side: Side::Sell,
                        qty: truncated(x as int, old(run).rules.lot1 as int) as u64,
                        price: on_tick(old(run).prices.leg1.price, old(run).rules.tick1),
                    },
                )
                &&& final(run).phase == RunPhase::Placing(1)
            },
            ExecEvent::LegDone(o) => leg_failed(*final(run), r, o),
            _ => completes(*final(run), r, ExecOutcome::HardFailure),
        },
        old(run).phase == RunPhase::Placing(1) ==> match event {
            ExecEvent::Placed => r == ExecAction::Watch(1, false) && final(run).phase == RunPhase::Watching(1),
            _ => completes(*final(run), r, ExecOutcome::HardFailure),
        },
        old(run).phase == RunPhase::Watching(1) ==> match event {
            ExecEvent::LegDone(LegOutcome::Filled(x)) => if bridge_fits(*old(run), x as int) {
                &&& r == ExecAction::Place(
                    LegOrder {
                        leg: 2,
                        side: Side::Sell,
                        qty: bridge_qty(*old(run), x as int) as u64,
                        price: on_tick(old(run).prices.leg2.price, old(run).rules.tick2),
                    },
                )
                &&& final(run).phase == RunPhase::Placing(2)
            } else {
                completes(*final(run), r, ExecOutcome::HardFailure)
            },
            ExecEvent::LegDone(o) => leg_failed(*final(run), r, o),
            _ => completes(*final(run), r, ExecOutcome::HardFailure),
        },
        old(run).phase == RunPhase::Placing(2) ==> match event {
            ExecEvent::Placed => r == ExecAction::Watch(2, false) && final(run).phase == RunPhase::Watching(2),
            _ => completes(*final(run), r, ExecOutcome::HardFailure),
        },
        old(run).phase == RunPhase::Watching(2) ==> match event {
            ExecEvent::LegDone(LegOutcome::Filled(_)) => r == ExecAction::FetchStable && final(run).phase
                == RunPhase::AwaitFinal,
            ExecEvent::LegDone(o) => leg_failed(*final(run), r, o),
            _ => completes(*final(run), r, ExecOutcome::HardFailure),
        },
        old(run).phase == RunPhase::AwaitFinal ==> match event {
            ExecEvent::Balance(b) => completes(*final(run), r, ExecOutcome::Balance(b)),
            _ => completes(*final(run), r, ExecOutcome::HardFailure),
        },
        old(run).phase == RunPhase::Outstanding || old(run).phase == RunPhase::Done ==> completes(
            *final(run),
            r,
            ExecOutcome::HardFailure,
        ),
{
    match (run.phase, event) {
        (RunPhase::AwaitBalance, ExecEvent::Balance(b)) => {
            if b < run.min_balance {
                return complete(run, ExecOutcome::Aborted);
            }
            match leg0_quantity(run, b) {
                Some(q) => {
                    run.origin_balance = b;
                    run.qty0 = q;
                    run.phase = RunPhase::Placing(0);
                    ExecAction::Place(leg_order(0, Side::Buy, q, run.prices.leg0.price, run.rules.tick0))
                },
                None => complete(run, ExecOutcome::SoftFailure),
            }
        },
        (RunPhase::Placing(0), ExecEvent::Placed) => {
            run.phase = RunPhase::Watching(0);
            ExecAction::Watch(0, true)
        },
        (RunPhase::Placing(0), ExecEvent::PlaceFailed) => complete(run, ExecOutcome::SoftFailure),
        (RunPhase::Watching(0), ExecEvent::LegDone(LegOutcome::Filled(x))) => {
            let q = truncate_to(x, run.rules.lot1);
            run.qty1 = q;
            run.phase = RunPhase::Placing(1);
            ExecAction::Place(leg_order(1, Side::Sell, q, run.prices.leg1.price, run.rules.tick1))
        },
        (RunPhase::Placing(1), ExecEvent::Placed) => {
            run.phase = RunPhase::Watching(1);
            ExecAction::Watch(1, false)
        },
        (RunPhase::Watching(1), ExecEvent::LegDone(LegOutcome::Filled(x))) => {
            match leg2_quantity(run, x) {
                Some(q) => {
                    run.qty2 = q;
                    run.phase = RunPhase::Placing(2);
                    ExecAction::Place(leg_order(2, Side::Sell, q, run.prices.leg2.price, run.rules.tick2))
                },
                None => complete(run, ExecOutcome::HardFailure),
            }
        },
        (RunPhase::Placing(2), ExecEvent::Placed) => {
            run.phase = RunPhase::Watching(2);
            ExecAction::Watch(2, false)
        },
        (RunPhase::Watching(2), ExecEvent::LegDone(LegOutcome::Filled(_))) => {
            run.phase = RunPhase::AwaitFinal;
            ExecAction::FetchStable
        },
        (RunPhase::AwaitFinal, ExecEvent::Balance(b)) => complete(run, ExecOutcome::Balance(b)),
        (RunPhase::Watching(n), ExecEvent::LegDone(o)) => {
            if n <= 2 {
                leg_failure(run, o)
            } else {
                complete(run, ExecOutcome::HardFailure)
            }
        },
        _ => complete(run, ExecOutcome::HardFailure),
    }
}

/// Leg 1's quantity in the parallel strategy: leg 0's, cut to leg 1's lot.
pub open spec fn par_qty1(run: RingRun, balance: u64) -> int {
    truncated(first_qty(run, balance), run.rules.lot1 as int)
}

/// Leg 2's quantity: the bridge that leg 1 brings, less the fee, cut to its lot.
pub open spec fn par_qty2(run: RingRun, balance: u64) -> int {
    bridge_qty(run, par_qty1(run, balance))
}

pub open spec fn par_sizable(run: RingRun, balance: u64) -> bool {
    sizable(run, balance) && bridge_fits(run, par_qty1(run, balance))
}

/// The outstanding leg to poll after a poll of `last`: the other one while
/// it is outstanding.
pub open spec fn next_leg(last: u8, pending0: bool, pending2: bool) -> u8 {
    if last == 0 {
        if pending2 {
            2
        } else {
            0
        }
    } else {
        if pending0 {
            0
        } else {
            2
        }
    }
}

fn pick_next(last: u8, pending0: bool, pending2: bool) -> (r: u8)
    ensures
        r == next_leg(last, pending0, pending2),
{
    if last == 0 {
        if pending2 {
            2
        } else {
            0
        }
    } else {
        if pending0 {
            0
        } else {
            2
        }
    }
}

/// One step of the parallel strategy: all three quantities are sized from
/// the snapshot up front; leg 1 is placed and watched as the first leg, then
/// legs 0 and 2 are placed together and polled in turn until both ended.
/// The run ends with the stablecoin balance where both filled.
///
/// A balance under the operating minimum aborts before any order. Leg 1
/// ending without a fill, or failing to be placed, ends the run softly, as
/// does leg 0 or 2 ending cancelled once neither is outstanding; a
/// failed placement of leg 0 or 2, a failed balance fetch, an unknown
/// status, a halted watch or an event out of turn ends it hard.
pub fn execute_final_ring_pallarel(run: &mut RingRun, event: ExecEvent) -> (r: ExecAction)
    requires
        old(run).wf(),
    ensures
        final(run).wf(),
        final(run).prices == old(run).prices,
        final(run).rules == old(run).rules,
        old(run).phase != RunPhase::AwaitBalance ==> final(run).origin_balance == old(run).origin_balance,
        old(run).phase != RunPhase::AwaitBalance ==> {
            &&& final(run).qty0 == old(run).qty0
            &&& final(run).qty1 == old(run).qty1
            &&& final(run).qty2 == old(run).qty2
        },
        old(run).phase == RunPhase::AwaitBalance ==> match event {
            ExecEvent::Balance(b) => if b < old(run).min_balance {
                completes(*final(run), r, ExecOutcome::Aborted)
            } else if !par_sizable(*old(run), b) {
                completes(*final(run), r, ExecOutcome::SoftFailure)
            } else {
                &&& r == ExecAction::Place(
                    LegOrder {
                        leg: 1,
                        side: Side::Sell,
                        qty: par_qty1(*old(run), b) as u64,
                        price: on_tick(old(run).prices.leg1.price, old(run).rules.tick1),
                    },
                )
                &&& final(run).phase == RunPhase::Placing(1)
                &&& final(run).origin_balance == b
                &&& final(run).qty0 == first_qty(*old(run), b)
                &&& final(run).qty1 == par_qty1(*old(run), b)
                &&& final(run).qty2 == par_qty2(*old(run), b)
            },
            _ => completes(*final(run), r, ExecOutcome::HardFailure),
        },
        old(run).phase == RunPhase::Placing(1) ==> match event {
            ExecEvent::Placed => r == ExecAction::Watch(1, true) && final(run).phase == RunPhase::Watching(1),
            ExecEvent::PlaceFailed => completes(*final(run), r, ExecOutcome::SoftFailure),
            _ => completes(*final(run), r, ExecOutcome::HardFailure),
        },
        old(run).phase == RunPhase::Watching(1) ==> match event {
            ExecEvent::LegDone(LegOutcome::Filled(_)) => {
                &&& r == ExecAction::Place(
                    LegOrder {
                        leg: 0,
                        side: Side::Buy,
                        qty: old(run).qty0,
                        price: on_tick(old(run).prices.leg0.price, old(run).rules.tick0),
                    },
                )
                &&& final(run).phase == RunPhase::Placing(0)
            },
            ExecEvent::LegDone(o) => leg_failed(*final(run), r, o),
            _ => completes(*final(run), r, ExecOutcome::HardFailure),
        },
        old(run).phase == RunPhase::Placing(0) ==> match event {
            ExecEvent::Placed => {
                &&& r == ExecAction::Place(
                    LegOrder {
                        leg: 2,
                        side: Side::Sell,
                        qty: old(run).qty2,
                        price: on_tick(old(run).prices.leg2.price, old(run).rules.tick2),
                    },
                )
                &&& final(run).phase == RunPhase::Placing(2)
            },
            _ => completes(*final(run), r, ExecOutcome::HardFailure),
        },
        old(run).phase == RunPhase::Placing(2) ==> match event {
            ExecEvent::Placed => {
                &&& r == ExecAction::PollLeg(0)
                &&& final(run).phase == RunPhase::Outstanding
                &&& final(run).pending0 && final(run).pending2
                &&& !final(run).cancelled
            },
            _ => completes(*final(run), r, ExecOutcome::HardFailure),
        },
        old(run).phase == RunPhase::Outstanding ==> match event {
            ExecEvent::LegStatus(l, st) => {
                let ended = st == OrderStatus::Filled || st == OrderStatus::Canceled;
                let p0 = old(run).pending0 && !(ended && l == 0);
                let p2 = old(run).pending2 && !(ended && l == 2);
                let c = old(run).cancelled || (st == OrderStatus::Canceled && ((l == 0 && old(run).pending0) || (
                l == 2 && old(run).pending2)));
                &&& final(run).pending0 == p0
                &&& final(run).pending2 == p2
                &&& final(run).cancelled == c
                &&& if !p0 && !p2 && c {
                    completes(*final(run), r, ExecOutcome::SoftFailure)
                } else if !p0 && !p2 {
                    r == ExecAction::FetchStable && final(run).phase == RunPhase::AwaitFinal
                } else {
                    r == ExecAction::PollLeg(next_leg(l, p0, p2)) && final(run).phase == RunPhase::Outstanding
                }
            },
            ExecEvent::StatusFailed(l) => {
                &&& r == ExecAction::PollLeg(next_leg(l, old(run).pending0, old(run).pending2))
                &&& final(run).phase == RunPhase::Outstanding
                &&& final(run).pending0 == old(run).pending0
                &&& final(run).pending2 == old(run).pending2
                &&& final(run).cancelled == old(run).cancelled
            },
            _ => completes(*final(run), r, ExecOutcome::HardFailure),
        },
        old(run).phase == RunPhase::AwaitFinal ==> match event {
            ExecEvent::Balance(b) => completes(*final(run), r, ExecOutcome::Balance(b)),
            _ => completes(*final(run), r, ExecOutcome::HardFailure),
        },
        old(run).phase == RunPhase::Watching(0) || old(run).phase
            == RunPhase::Watching(2) || old(run).phase == RunPhase::Done ==> completes(
            *final(run),
            r,
            ExecOutcome::HardFailure,
        ),
{
    match (run.phase, event) {
        (RunPhase::AwaitBalance, ExecEvent::Balance(b)) => {
            if b < run.min_balance {
                return complete(run, ExecOutcome::Aborted);
            }
            let q0 = match leg0_quantity(run, b) {
                Some(q) => q,
                None => return complete(run, ExecOutcome::SoftFailure),
            };
            let q1 = truncate_to(q0, run.rules.lot1);
            let q2 = match leg2_quantity(run, q1) {
                Some(q) => q,
                None => return complete(run, ExecOutcome::SoftFailure),
            };
            run.origin_balance = b;
            run.qty0 = q0;
            run.qty1 = q1;
            run.qty2 = q2;
            run.phase = RunPhase::Placing(1);
            ExecAction::Place(leg_order(1, Side::Sell, q1, run.prices.leg1.price, run.rules.tick1))
        },
        (RunPhase::Placing(1), ExecEvent::Placed) => {
            run.phase = RunPhase::Watching(1);
            ExecAction::Watch(1, true)
        },
        (RunPhase::Placing(1), ExecEvent::PlaceFailed) => complete(run, ExecOutcome::SoftFailure),
        (RunPhase::Watching(1), ExecEvent::LegDone(LegOutcome::Filled(_))) => {
            run.phase = RunPhase::Placing(0);
            ExecAction::Place(leg_order(0, Side::Buy, run.qty0, run.prices.leg0.price, run.rules.tick0))
        },
        (RunPhase::Watching(1), ExecEvent::LegDone(o)) => leg_failure(run, o),
        (RunPhase::Placing(0), ExecEvent::Placed) => {
            run.phase = RunPhase::Placing(2);
            ExecAction::Place(leg_order(2, Side::Sell, run.qty2, run.prices.leg2.price, run.rules.tick2))
        },
        (RunPhase::Placing(2), ExecEvent::Placed) => {
            run.pending0 = true;
            run.pending2 = true;
            run.cancelled = false;
            run.phase = RunPhase::Outstanding;
            ExecAction::PollLeg(0)
        },
        (RunPhase::Outstanding, ExecEvent::LegStatus(l, st)) => {
            let ended = st == OrderStatus::Filled || st == OrderStatus::Canceled;
            if st == OrderStatus::Canceled && ((l == 0 && run.pending0) || (l == 2 && run.pending2)) {
                run.cancelled = true;
            }
            if ended && l == 0 {
                run.pending0 = false;
            }
            if ended && l == 2 {
                run.pending2 = false;
            }
            if !run.pending0 && !run.pending2 && run.cancelled {
                complete(run, ExecOutcome::SoftFailure)
            } else if !run.pending0 && !run.pending2 {
                run.phase = RunPhase::AwaitFinal;
                ExecAction::FetchStable
            } else {
                ExecAction::PollLeg(pick_next(l, run.pending0, run.pending2))
            }
        },
        (RunPhase::Outstanding, ExecEvent::StatusFailed(l)) => {
            ExecAction::PollLeg(pick_next(l, run.pending0, run.pending2))
        },
        (RunPhase::AwaitFinal, ExecEvent::Balance(b)) => complete(run, ExecOutcome::Balance(b)),
        _ => complete(run, ExecOutcome::HardFailure),
    }
}

} // verus!
