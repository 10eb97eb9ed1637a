//! The state machine that watches one order to its end: it polls the
//! status, cancels a first leg that does not move, and on a later leg exits
//! a stalled position at the bid once that pays.

use vstd::prelude::*;
use crate::fixed::SCALE;
use crate::constraints::{valid_multiplier, truncated, truncate_to};

verus! {

/// The states an exchange order can report.
#[derive(Clone, Copy, PartialEq, Eq, Structural, Debug)]
pub enum OrderStatus {
    New,
    PartiallyFilled,
    Filled,
    Canceled,
}

/// Reads a status as the exchange writes it; `None` for any other text.
pub fn parse_status(s: &String) -> (r: Option<OrderStatus>)
    ensures
        r == Some(OrderStatus::New) <==> s@ == "NEW"@,
        r == Some(OrderStatus::PartiallyFilled) <==> s@ == "PARTIALLY_FILLED"@,
        r == Some(OrderStatus::Filled) <==> s@ == "FILLED"@,
        r == Some(OrderStatus::Canceled) <==> s@ == "CANCELED"@,
{
    proof {
        reveal_strlit("NEW");
        reveal_strlit("PARTIALLY_FILLED");
        reveal_strlit("FILLED");
        reveal_strlit("CANCELED");
        assert("NEW"@.len() == 3);
        assert("FILLED"@.len() == 6);
        assert("CANCELED"@.len() == 8);
        assert("PARTIALLY_FILLED"@.len() == 16);
    }
    if *s == "NEW".to_owned() {
        Some(OrderStatus::New)
    } else if *s == "PARTIALLY_FILLED".to_owned() {
        Some(OrderStatus::PartiallyFilled)
    } else if *s == "FILLED".to_owned() {
        Some(OrderStatus::Filled)
    } else if *s == "CANCELED".to_owned() {
        Some(OrderStatus::Canceled)
    } else {
        None
    }
}

/// Patience and margin of the watch.
pub struct PollConfig {
    /// Polls that an order answering `New` may take: the poll that brings
    /// the count to this number finds it stalled.
    pub stall_polls: u64,
    /// Polls an order may stay partly filled before an exit is weighed.
    pub partial_stall_polls: u64,
    /// What an exit must gain over the committed balance.
    pub min_exit_profit: u64,
}

/// One answer to a status poll. Quantities in units.
#[derive(Clone, Copy, PartialEq, Eq, Structural, Debug)]
pub struct OrderReport {
    pub status: OrderStatus,
    pub orig_qty: u64,
    pub executed_qty: u64,
}

/// Bids of the ring's symbol (leg 0) and bridge (leg 2), and the bridge
/// balance held.
#[derive(Clone, Copy, PartialEq, Eq, Structural, Debug)]
pub struct Quote {
    pub symbol_bid: u64,
    pub bridge_bid: u64,
    pub bridge_balance: u64,
}

/// A sale at the bid on leg `leg` of the ring (0: the symbol, 2: the bridge).
#[derive(Clone, Copy, PartialEq, Eq, Structural, Debug)]
pub struct Sale {
    pub leg: u8,
    pub qty: u64,
    pub price: u64,
}

/// What the caller saw after the last action.
pub enum PollEvent {
    Report(OrderReport),
    /// The exchange answered with a status outside the four known ones.
    Unrecognized,
    /// The status call failed.
    ReportFailed,
    Quoted(Quote),
    QuoteFailed,
    Cancelled,
    CancelFailed,
    SalePlaced,
    SaleFailed,
}

/// How the watch of one leg ended.
#[derive(Clone, Copy, PartialEq, Eq, Structural, Debug)]
pub enum LegOutcome {
    /// The order filled this quantity.
    Filled(u64),
    /// The order ended without a fill, or the position was exited.
    NoFill,
    /// The exchange said something the machine cannot place: stop trading.
    Halted,
}

/// What the caller does next.
#[derive(Clone, Copy, PartialEq, Eq, Structural, Debug)]
pub enum PollAction {
    /// Wait one interval (none before the first poll), then poll the
    /// watched order.
    Poll,
    /// Cancel the watched order.
    Cancel,
    /// Fetch a `Quote`.
    FetchQuote,
    /// Place this sale and watch it in place of the order.
    Sell(Sale),
    Finish(LegOutcome),
}

#[derive(Clone, Copy, PartialEq, Eq, Structural, Debug)]
pub enum PollPhase {
    Watching,
    /// A later leg stayed `New`: waiting for a quote to weigh a short sale.
    QuotingStall,
    /// A later leg stayed partly filled: waiting for a quote to weigh an exit.
    QuotingPartial,
    /// A first leg stalled: waiting for its cancel.
    CancellingFirst,
    /// An exit pays: waiting for the cancel before the sales.
    CancellingForExit,
    /// Waiting for a sale to be placed.
    Placing,
    Done,
}

pub struct PollState {
    pub phase: PollPhase,
    /// Status polls of the watched order so far.
    pub polls: u64,
    pub is_first_leg: bool,
    /// The watched order is itself an exit sale: no exit may follow from it.
    pub is_fallback_sale: bool,
    /// Stablecoin committed to the ring.
    pub origin_balance: u64,
    /// Quantity of the symbol an exit would sell.
    pub exit_qty: u64,
    /// Lot multipliers of the symbol (leg 0) and of the bridge (leg 2).
    pub symbol_lot: u64,
    pub bridge_lot: u64,
    /// Sales still to place, in order.
    pub exits: Vec<Sale>,
}

/// Stablecoin value of `qty` sold at `bid`.
pub open spec fn exit_value(qty: u64, bid: u64) -> int {
    qty * bid / (SCALE as int)
}

/// An exit pays where it brings back more than the committed balance and the margin.
pub open spec fn exit_pays(value: int, origin: u64, cfg: PollConfig) -> bool {
    value > origin + cfg.min_exit_profit
}

/// The sales of an exit, leaving out the empty ones.
pub open spec fn exit_sales(first: Sale, second: Option<Sale>) -> Seq<Sale> {
    let a = if first.qty > 0 {
        seq![first]
    } else {
        Seq::empty()
    };
    match second {
        Some(s) => if s.qty > 0 {
            a.push(s)
        } else {
            a
        },
        None => a,
    }
}

impl PollState {
    pub open spec fn wf(&self) -> bool {
        valid_multiplier(self.symbol_lot) && valid_multiplier(self.bridge_lot)
    }

    /// A watch of a freshly placed order.
    pub fn new(is_first_leg: bool, origin_balance: u64, symbol_lot: u64, bridge_lot: u64) -> (r: PollState)
        requires
            valid_multiplier(symbol_lot),
            valid_multiplier(bridge_lot),
        ensures
            r.wf(),
            r.phase == PollPhase::Watching,
            r.polls == 0,
            r.is_first_leg == is_first_leg,
            !r.is_fallback_sale,
            r.origin_balance == origin_balance,
            r.symbol_lot == symbol_lot,
            r.bridge_lot == bridge_lot,
            r.exits@.len() == 0,
    {
        PollState {
            phase: PollPhase::Watching,
            polls: 0,
            is_first_leg,
            is_fallback_sale: false,
            origin_balance,
            exit_qty: 0,
            symbol_lot,
            bridge_lot,
            exits: Vec::new(),
        }
    }
}

fn sales_of(first: Sale, second: Option<Sale>) -> (r: Vec<Sale>)
    ensures
        r@ == exit_sales(first, second),
{
    let mut v: Vec<Sale> = Vec::new();
    if first.qty > 0 {
        v.push(first);
    }
    match second {
        Some(s) => {
            if s.qty > 0 {
                v.push(s);
            }
        },
        None => {},
    }
    proof {
        if first.qty > 0 {
            assert(v@.take(1) =~= seq![first]);
        }
    }
    assert(v@ =~= exit_sales(first, second));
    v
}

/// The next sale of an exit, or the end of the watch once none is left.
fn next_exit(state: &mut PollState) -> (r: PollAction)
    ensures
        old(state).exits@.len() > 0 ==> {
            &&& r == PollAction::Sell(old(state).exits@[0])
            &&& final(state).phase == PollPhase::Placing
            &&& final(state).exits@ == old(state).exits@.drop_first()
        },
        old(state).exits@.len() == 0 ==> {
            &&& r == PollAction::Finish(LegOutcome::NoFill)
            &&& final(state).phase == PollPhase::Done
            &&& final(state).exits@ == old(state).exits@
        },
        final(state).polls == old(state).polls,
        final(state).is_first_leg == old(state).is_first_leg,
        final(state).is_fallback_sale == old(state).is_fallback_sale,
        final(state).origin_balance == old(state).origin_balance,
        final(state).exit_qty == old(state).exit_qty,
        final(state).symbol_lot == old(state).symbol_lot,
        final(state).bridge_lot == old(state).bridge_lot,
{
    if state.exits.len() > 0 {
        let s = state.exits.remove(0);
        assert(state.exits@ =~= old(state).exits@.drop_first());
        state.phase = PollPhase::Placing;
        PollAction::Sell(s)
    } else {
        state.phase = PollPhase::Done;
        PollAction::Finish(LegOutcome::NoFill)
    }
}

/// The poll count after one more poll.
pub open spec fn next_count(n: u64) -> u64 {
    if n < u64::MAX {
        (n + 1) as u64
    } else {
        n
    }
}

/// What is left of an order to fill.
pub open spec fn unfilled(rep: OrderReport) -> u64 {
    if rep.executed_qty <= rep.orig_qty {
        (rep.orig_qty - rep.executed_qty) as u64
    } else {
        0
    }
}

/// The watch is over: any further event breaks the protocol.
pub open spec fn halted(state: PollState, r: PollAction) -> bool {
    r == PollAction::Finish(LegOutcome::Halted) && state.phase == PollPhase::Done
}

pub open spec fn back_to_watching(state: PollState, r: PollAction) -> bool {
    r == PollAction::Poll && state.phase == PollPhase::Watching
}

/// After the cancel, or after a sale ended: the next sale, or the end.
pub open spec fn exit_step(pre: PollState, post: PollState, r: PollAction) -> bool {
    if pre.exits@.len() > 0 {
        &&& r == PollAction::Sell(pre.exits@[0])
        &&& post.phase == PollPhase::Placing
        &&& post.exits@ == pre.exits@.drop_first()
    } else {
        &&& r == PollAction::Finish(LegOutcome::NoFill)
        &&& post.phase == PollPhase::Done
    }
}

fn count_up(n: u64) -> (r: u64)
    ensures
        r == next_count(n),
{
    if n < u64::MAX {
        n + 1
    } else {
        n
    }
}

fn value_at_bid(qty: u64, bid: u64) -> (r: u128)
    ensures
        r == exit_value(qty, bid),
        r <= 0xffff_ffff_ffff_ffff * 0xffff_ffff_ffff_ffffu128 / 100_000_000,
{
    proof {
        assert(qty * bid <= 0xffff_ffff_ffff_ffff * 0xffff_ffff_ffff_ffffu128) by (nonlinear_arith)
            requires
                qty <= 0xffff_ffff_ffff_ffffu64,
                bid <= 0xffff_ffff_ffff_ffffu64,
        ;
        vstd::arithmetic::div_mod::lemma_div_is_ordered(
            (qty * bid) as int,
            0xffff_ffff_ffff_ffff * 0xffff_ffff_ffff_ffffu128 as int,
            100_000_000,
        );
    }
    qty as u128 * bid as u128 / SCALE as u128
}

/// One step of the watch of an order: takes what the caller saw after the
/// last action and says what to do next.
///
/// A status poll counts toward patience. `Filled` ends the watch with the
/// executed quantity, `Canceled` with no fill. A first leg still `New` at
/// its `stall_polls`-th poll is cancelled. A later leg still `New` then is
/// weighed for a short sale of its quantity at the symbol's bid; one still
/// partly filled after `partial_stall_polls` polls is weighed for an exit of
/// its unfilled part and of the bridge held. An exit that pays cancels the
/// order and places its sales one by one, each watched as a fallback sale,
/// from which no further exit follows. Anything the machine cannot place
/// halts it.
pub fn polling_order(state: &mut PollState, event: PollEvent, config: &PollConfig) -> (r: PollAction)
    requires
        old(state).wf(),
    ensures
        final(state).wf(),
        final(state).is_first_leg == old(state).is_first_leg,
        final(state).origin_balance == old(state).origin_balance,
        final(state).symbol_lot == old(state).symbol_lot,
        final(state).bridge_lot == old(state).bridge_lot,
        old(state).phase != PollPhase::Placing ==> final(state).is_fallback_sale == old(state).is_fallback_sale,
        old(state).phase == PollPhase::Watching && !old(state).is_fallback_sale ==> match event {
            PollEvent::Report(rep) => {
                let p = next_count(old(state).polls);
                &&& final(state).polls == p
                &&& !final(state).is_fallback_sale
                &&& match rep.status {
                    OrderStatus::Filled => r == PollAction::Finish(LegOutcome::Filled(rep.executed_qty))
                        && final(state).phase == PollPhase::Done,
                    OrderStatus::Canceled => r == PollAction::Finish(LegOutcome::NoFill)
                        && final(state).phase == PollPhase::Done,
                    OrderStatus::New => if p >= config.stall_polls && old(state).is_first_leg {
                        r == PollAction::Cancel && final(state).phase == PollPhase::CancellingFirst
                    } else if p >= config.stall_polls {
                        &&& r == PollAction::FetchQuote
                        &&& final(state).phase == PollPhase::QuotingStall
                        &&& final(state).exit_qty == rep.orig_qty
                    } else {
                        back_to_watching(*final(state), r)
                    },
                    OrderStatus::PartiallyFilled => if !old(state).is_first_leg && p
                        > config.partial_stall_polls {
                        &&& r == PollAction::FetchQuote
                        &&& final(state).phase == PollPhase::QuotingPartial
                        &&& final(state).exit_qty == truncated(
                            unfilled(rep) as int,
                            old(state).symbol_lot as int,
                        )
                    } else {
                        back_to_watching(*final(state), r)
                    },
                }
            },
            PollEvent::ReportFailed => back_to_watching(*final(state), r) && final(state).polls
                == next_count(old(state).polls),
            _ => halted(*final(state), r),
        },
        old(state).phase == PollPhase::Watching && old(state).is_fallback_sale ==> match event {
            PollEvent::Report(rep) => if rep.status == OrderStatus::Filled || rep.status
                == OrderStatus::Canceled {
                exit_step(*old(state), *final(state), r)
            } else {
                &&& back_to_watching(*final(state), r)
                &&& final(state).polls == next_count(old(state).polls)
                &&& final(state).exits@ == old(state).exits@
            },
            PollEvent::ReportFailed => {
                &&& back_to_watching(*final(state), r)
                &&& final(state).polls == next_count(old(state).polls)
                &&& final(state).exits@ == old(state).exits@
            },
            _ => halted(*final(state), r),
        },
        old(state).phase == PollPhase::QuotingStall ==> match event {
            PollEvent::Quoted(q) => if exit_pays(
                exit_value(old(state).exit_qty, q.symbol_bid),
                old(state).origin_balance,
                *config,
            ) {
                &&& r == PollAction::Cancel
                &&& final(state).phase == PollPhase::CancellingForExit
                &&& final(state).exits@ == exit_sales(
                    Sale { leg: 0, qty: old(state).exit_qty, price: q.symbol_bid },
                    None,
                )
            } else {
                back_to_watching(*final(state), r)
            },
            PollEvent::QuoteFailed => back_to_watching(*final(state), r),
            _ => halted(*final(state), r),
        },
        old(state).phase == PollPhase::QuotingPartial ==> match event {
            PollEvent::Quoted(q) => if exit_pays(
                exit_value(old(state).exit_qty, q.symbol_bid) + exit_value(
                    q.bridge_balance,
                    q.bridge_bid,
                ),
                old(state).origin_balance,
                *config,
            ) {
                &&& r == PollAction::Cancel
                &&& final(state).phase == PollPhase::CancellingForExit
                &&& final(state).exits@ == exit_sales(
                    Sale { leg: 0, qty: old(state).exit_qty, price: q.symbol_bid },
                    Some(
                        Sale {
                            leg: 2,
                            qty: truncated(q.bridge_balance as int, old(state).bridge_lot as int) as u64,
                            price: q.bridge_bid,
                        },
                    ),
                )
            } else {
                back_to_watching(*final(state), r)
            },
            PollEvent::QuoteFailed => back_to_watching(*final(state), r),
            _ => halted(*final(state), r),
        },
        old(state).phase == PollPhase::CancellingFirst ==> match event {
            PollEvent::Cancelled => r == PollAction::Finish(LegOutcome::NoFill) && final(state).phase
                == PollPhase::Done,
            PollEvent::CancelFailed => back_to_watching(*final(state), r),
            _ => halted(*final(state), r),
        },
        old(state).phase == PollPhase::CancellingForExit ==> match event {
            PollEvent::Cancelled => exit_step(*old(state), *final(state), r),
            PollEvent::CancelFailed => back_to_watching(*final(state), r) && final(state).exits@.len()
                == 0,
            _ => halted(*final(state), r),
        },
        old(state).phase == PollPhase::Placing ==> match event {
            PollEvent::SalePlaced => {
                &&& back_to_watching(*final(state), r)
                &&& final(state).is_fallback_sale
                &&& final(state).polls == 0
                &&& final(state).exits@ == old(state).exits@
            },
            PollEvent::SaleFailed => r == PollAction::Finish(LegOutcome::NoFill) && final(state).phase
                == PollPhase::Done,
            _ => halted(*final(state), r),
        },
        old(state).phase == PollPhase::Done ==> halted(*final(state), r),
{
    match state.phase {
        PollPhase::Watching => {
            match event {
                PollEvent::Report(rep) => {
                    state.polls = count_up(state.polls);
                    let p = state.polls;
                    if state.is_fallback_sale {
                        match rep.status {
                            OrderStatus::Filled | OrderStatus::Canceled => next_exit(state),
                            _ => PollAction::Poll,
                        }
                    } else {
                        match rep.status {
                            OrderStatus::Filled => {
                                state.phase = PollPhase::Done;
                                PollAction::Finish(LegOutcome::Filled(rep.executed_qty))
                            },
                            OrderStatus::Canceled => {
                                state.phase = PollPhase::Done;
                                PollAction::Finish(LegOutcome::NoFill)
                            },
                            OrderStatus::New => {
                                if p >= config.stall_polls && state.is_first_leg {
                                    state.phase = PollPhase::CancellingFirst;
                                    PollAction::Cancel
                                } else if p >= config.stall_polls {
                                    state.phase = PollPhase::QuotingStall;
                                    state.exit_qty = rep.orig_qty;
                                    PollAction::FetchQuote
                                } else {
                                    PollAction::Poll
                                }
                            },
                            OrderStatus::PartiallyFilled => {
                                if !state.is_first_leg && p > config.partial_stall_polls {
                                    let left = if rep.executed_qty <= rep.orig_qty {
                                        rep.orig_qty - rep.executed_qty
                                    } else {
                                        0
                                    };
                                    state.phase = PollPhase::QuotingPartial;
                                    state.exit_qty = truncate_to(left, state.symbol_lot);
                                    PollAction::FetchQuote
                                } else {
                                    PollAction::Poll
                                }
                            },
                        }
                    }
                },
                PollEvent::ReportFailed => {
                    state.polls = count_up(state.polls);
                    PollAction::Poll
                },
                _ => {
                    state.phase = PollPhase::Done;
                    PollAction::Finish(LegOutcome::Halted)
                },
            }
        },
        PollPhase::QuotingStall => {
            match event {
                PollEvent::Quoted(q) => {
                    let value = value_at_bid(state.exit_qty, q.symbol_bid);
                    if value > state.origin_balance as u128 + config.min_exit_profit as u128 {
                        state.exits = sales_of(Sale { leg: 0, qty: state.exit_qty, price: q.symbol_bid }, None);
                        state.phase = PollPhase::CancellingForExit;
                        PollAction::Cancel
                    } else {
                        state.phase = PollPhase::Watching;
                        PollAction::Poll
                    }
                },
                PollEvent::QuoteFailed => {
                    state.phase = PollPhase::Watching;
                    PollAction::Poll
                },
                _ => {
                    state.phase = PollPhase::Done;
                    PollAction::Finish(LegOutcome::Halted)
                },
            }
        },
        PollPhase::QuotingPartial => {
            match event {
                PollEvent::Quoted(q) => {
                    let value = value_at_bid(state.exit_qty, q.symbol_bid) + value_at_bid(
                        q.bridge_balance,
                        q.bridge_bid,
                    );
                    if value > state.origin_balance as u128 + config.min_exit_profit as u128 {
                        let bridge_qty = truncate_to(q.bridge_balance, state.bridge_lot);
                        state.exits = sales_of(
                            Sale { leg: 0, qty: state.exit_qty, price: q.symbol_bid },
                            Some(Sale { leg: 2, qty: bridge_qty, price: q.bridge_bid }),
                        );
                        state.phase = PollPhase::CancellingForExit;
                        PollAction::Cancel
                    } else {
                        state.phase = PollPhase::Watching;
                        PollAction::Poll
                    }
                },
                PollEvent::QuoteFailed => {
                    state.phase = PollPhase::Watching;
                    PollAction::Poll
                },
                _ => {
                    state.phase = PollPhase::Done;
                    PollAction::Finish(LegOutcome::Halted)
                },
            }
        },
        PollPhase::CancellingFirst => {
            match event {
                PollEvent::Cancelled => {
                    state.phase = PollPhase::Done;
                    PollAction::Finish(LegOutcome::NoFill)
                },
                PollEvent::CancelFailed => {
                    state.phase = PollPhase::Watching;
                    PollAction::Poll
                },
                _ => {
                    state.phase = PollPhase::Done;
                    PollAction::Finish(LegOutcome::Halted)
                },
            }
        },
        PollPhase::CancellingForExit => {
            match event {
                PollEvent::Cancelled => next_exit(state),
                PollEvent::CancelFailed => {
                    state.exits = Vec::new();
                    state.phase = PollPhase::Watching;
                    PollAction::Poll
                },
                _ => {
                    state.phase = PollPhase::Done;
                    PollAction::Finish(LegOutcome::Halted)
                },
            }
        },
        PollPhase::Placing => {
            match event {
                PollEvent::SalePlaced => {
                    state.is_fallback_sale = true;
                    state.polls = 0;
                    state.phase = PollPhase::Watching;
                    PollAction::Poll
                },
                PollEvent::SaleFailed => {
                    state.phase = PollPhase::Done;
                    PollAction::Finish(LegOutcome::NoFill)
                },
                _ => {
                    state.phase = PollPhase::Done;
                    PollAction::Finish(LegOutcome::Halted)
                },
            }
        },
        PollPhase::Done => PollAction::Finish(LegOutcome::Halted),
    }
}

} // verus!
