use railgun::control::{find_ring, ControlState, CycleDecision, CycleEnd, StabilityTracker};
use railgun::execution::{
    execute_final_ring, execute_final_ring_pallarel, ExecAction, ExecEvent, ExecOutcome, LegOrder,
    RingRules, RingRun, RunPhase, Side,
};
use railgun::fixed::SCALE;
use railgun::polling::{
    parse_status, polling_order, LegOutcome, OrderReport, OrderStatus, PollAction, PollConfig,
    PollEvent, PollPhase, PollState, Quote, Sale,
};
use railgun::ring::{Ring, RingPrices, RingResult};
use railgun::snapshot::PriceLevel;

fn poll_config() -> PollConfig {
    PollConfig { stall_polls: 3, partial_stall_polls: 6, min_exit_profit: 1_000_000 }
}

fn report(status: OrderStatus, orig: u64, executed: u64) -> PollEvent {
    PollEvent::Report(OrderReport { status, orig_qty: orig, executed_qty: executed })
}

#[test]
fn status_text_maps_to_the_four_states() {
    assert_eq!(parse_status(&"NEW".to_string()), Some(OrderStatus::New));
    assert_eq!(parse_status(&"PARTIALLY_FILLED".to_string()), Some(OrderStatus::PartiallyFilled));
    assert_eq!(parse_status(&"FILLED".to_string()), Some(OrderStatus::Filled));
    assert_eq!(parse_status(&"CANCELED".to_string()), Some(OrderStatus::Canceled));
    assert_eq!(parse_status(&"EXPIRED".to_string()), None);
    assert_eq!(parse_status(&"new".to_string()), None);
}

#[test]
fn scenario_first_leg_cancels_after_stall() {
    let cfg = poll_config();
    let mut st = PollState::new(true, 100 * SCALE, 1000, 1000);
    let script = [OrderStatus::New, OrderStatus::New, OrderStatus::New, OrderStatus::New, OrderStatus::Filled];
    let mut actions = vec![];
    for s in script.iter() {
        let a = polling_order(&mut st, report(*s, 10, 0), &cfg);
        actions.push(a);
        if a == PollAction::Cancel {
            break;
        }
    }
    // cancelled on the third NEW: the fourth poll is never made
    assert_eq!(actions, vec![PollAction::Poll, PollAction::Poll, PollAction::Cancel]);
    assert_eq!(st.phase, PollPhase::CancellingFirst);
    assert_eq!(polling_order(&mut st, PollEvent::Cancelled, &cfg), PollAction::Finish(LegOutcome::NoFill));
}

#[test]
fn scenario_partial_fill_liquidates_on_seventh_poll() {
    let cfg = poll_config();
    let mut st = PollState::new(false, 100 * SCALE, 100, 1000);
    for _ in 0..6 {
        assert_eq!(polling_order(&mut st, report(OrderStatus::PartiallyFilled, 10 * SCALE, 4 * SCALE), &cfg), PollAction::Poll);
    }
    assert_eq!(polling_order(&mut st, report(OrderStatus::PartiallyFilled, 10 * SCALE, 4 * SCALE), &cfg), PollAction::FetchQuote);
    assert_eq!(st.exit_qty, 6 * SCALE);
    // 6 symbol at 10 + 0.5 bridge at 210 = 165 > 100
    let q = Quote { symbol_bid: 10 * SCALE, bridge_bid: 210 * SCALE, bridge_balance: 50_012_345 };
    assert_eq!(polling_order(&mut st, PollEvent::Quoted(q), &cfg), PollAction::Cancel);
    let first = polling_order(&mut st, PollEvent::Cancelled, &cfg);
    assert_eq!(first, PollAction::Sell(Sale { leg: 0, qty: 6 * SCALE, price: 10 * SCALE }));
    assert_eq!(polling_order(&mut st, PollEvent::SalePlaced, &cfg), PollAction::Poll);
    assert!(st.is_fallback_sale);
    // a fallback sale never triggers another exit
    for _ in 0..20 {
        assert_eq!(polling_order(&mut st, report(OrderStatus::PartiallyFilled, 6 * SCALE, SCALE), &cfg), PollAction::Poll);
    }
    let second = polling_order(&mut st, report(OrderStatus::Filled, 6 * SCALE, 6 * SCALE), &cfg);
    assert_eq!(second, PollAction::Sell(Sale { leg: 2, qty: 50_000_000, price: 210 * SCALE }));
    assert_eq!(polling_order(&mut st, PollEvent::SalePlaced, &cfg), PollAction::Poll);
    assert_eq!(polling_order(&mut st, report(OrderStatus::Filled, 1, 1), &cfg), PollAction::Finish(LegOutcome::NoFill));
}

#[test]
fn partial_exit_that_does_not_pay_keeps_polling() {
    let cfg = poll_config();
    let mut st = PollState::new(false, 100 * SCALE, 100, 1000);
    for _ in 0..6 {
        polling_order(&mut st, report(OrderStatus::PartiallyFilled, 10 * SCALE, 4 * SCALE), &cfg);
    }
    assert_eq!(polling_order(&mut st, report(OrderStatus::PartiallyFilled, 10 * SCALE, 4 * SCALE), &cfg), PollAction::FetchQuote);
    let q = Quote { symbol_bid: SCALE, bridge_bid: SCALE, bridge_balance: SCALE };
    assert_eq!(polling_order(&mut st, PollEvent::Quoted(q), &cfg), PollAction::Poll);
    assert_eq!(st.phase, PollPhase::Watching);
}

#[test]
fn later_leg_short_sells_a_stalled_order_when_it_pays() {
    let cfg = poll_config();
    let mut st = PollState::new(false, 100 * SCALE, 1000, 1000);
    for _ in 0..2 {
        assert_eq!(polling_order(&mut st, report(OrderStatus::New, 11 * SCALE, 0), &cfg), PollAction::Poll);
    }
    assert_eq!(polling_order(&mut st, report(OrderStatus::New, 11 * SCALE, 0), &cfg), PollAction::FetchQuote);
    let q = Quote { symbol_bid: 10 * SCALE, bridge_bid: 0, bridge_balance: 0 };
    assert_eq!(polling_order(&mut st, PollEvent::Quoted(q), &cfg), PollAction::Cancel);
    assert_eq!(
        polling_order(&mut st, PollEvent::Cancelled, &cfg),
        PollAction::Sell(Sale { leg: 0, qty: 11 * SCALE, price: 10 * SCALE })
    );
    assert_eq!(polling_order(&mut st, PollEvent::SalePlaced, &cfg), PollAction::Poll);
    for _ in 0..10 {
        assert_eq!(polling_order(&mut st, report(OrderStatus::New, 11 * SCALE, 0), &cfg), PollAction::Poll);
    }
    assert_eq!(polling_order(&mut st, report(OrderStatus::Canceled, 11 * SCALE, 0), &cfg), PollAction::Finish(LegOutcome::NoFill));
}

#[test]
fn short_sale_that_does_not_pay_keeps_polling() {
    let cfg = poll_config();
    let mut st = PollState::new(false, 100 * SCALE, 1000, 1000);
    for _ in 0..2 {
        polling_order(&mut st, report(OrderStatus::New, 10 * SCALE, 0), &cfg);
    }
    assert_eq!(polling_order(&mut st, report(OrderStatus::New, 10 * SCALE, 0), &cfg), PollAction::FetchQuote);
    // 10 * 10 = 100: no gain over the committed 100
    let q = Quote { symbol_bid: 10 * SCALE, bridge_bid: 0, bridge_balance: 0 };
    assert_eq!(polling_order(&mut st, PollEvent::Quoted(q), &cfg), PollAction::Poll);
    assert_eq!(polling_order(&mut st, report(OrderStatus::Filled, 10 * SCALE, 10 * SCALE), &cfg), PollAction::Finish(LegOutcome::Filled(10 * SCALE)));
}

#[test]
fn filled_and_canceled_end_the_watch() {
    let cfg = poll_config();
    let mut st = PollState::new(true, 0, 1, 1);
    assert_eq!(polling_order(&mut st, report(OrderStatus::Filled, 7, 7), &cfg), PollAction::Finish(LegOutcome::Filled(7)));
    let mut st = PollState::new(true, 0, 1, 1);
    assert_eq!(polling_order(&mut st, PollEvent::ReportFailed, &cfg), PollAction::Poll);
    assert_eq!(st.polls, 1);
    assert_eq!(polling_order(&mut st, report(OrderStatus::Canceled, 7, 0), &cfg), PollAction::Finish(LegOutcome::NoFill));
}

#[test]
fn unknown_status_halts_the_watch() {
    let cfg = poll_config();
    let mut st = PollState::new(true, 0, 1, 1);
    assert_eq!(polling_order(&mut st, PollEvent::Unrecognized, &cfg), PollAction::Finish(LegOutcome::Halted));
    assert_eq!(polling_order(&mut st, PollEvent::Cancelled, &cfg), PollAction::Finish(LegOutcome::Halted));
}

fn level(price: u64) -> PriceLevel {
    PriceLevel { price, qty: 1_000 * SCALE }
}

fn prices() -> RingPrices {
    RingPrices { leg0: level(10 * SCALE), leg1: level(5_000_000), leg2: level(210 * SCALE) }
}

fn ring_rules() -> RingRules {
    RingRules { lot0: 100, lot1: 100, lot2: 1000, tick0: 100, tick1: 10_000_000, tick2: 100 }
}

#[test]
fn scenario_low_balance_aborts_before_leg_zero() {
    let mut run = RingRun::new(prices(), ring_rules(), 100 * SCALE, 10 * SCALE, 0);
    assert_eq!(execute_final_ring(&mut run, ExecEvent::Balance(5 * SCALE)), ExecAction::Complete(ExecOutcome::Aborted));
    assert_eq!(run.phase, RunPhase::Done);
    let mut run = RingRun::new(prices(), ring_rules(), 100 * SCALE, 10 * SCALE, 0);
    assert_eq!(execute_final_ring_pallarel(&mut run, ExecEvent::Balance(5 * SCALE)), ExecAction::Complete(ExecOutcome::Aborted));
}

#[test]
fn sequential_run_places_each_leg_from_the_last_fill() {
    let mut run = RingRun::new(prices(), ring_rules(), 100 * SCALE, 10 * SCALE, 0);
    let a = execute_final_ring(&mut run, ExecEvent::Balance(60 * SCALE));
    assert_eq!(a, ExecAction::Place(LegOrder { leg: 0, side: Side::Buy, qty: 6 * SCALE, price: 10 * SCALE }));
    assert_eq!(run.origin_balance, 60 * SCALE);
    assert_eq!(execute_final_ring(&mut run, ExecEvent::Placed), ExecAction::Watch(0, true));
    let b = execute_final_ring(&mut run, ExecEvent::LegDone(LegOutcome::Filled(599_876_543)));
    assert_eq!(b, ExecAction::Place(LegOrder { leg: 1, side: Side::Sell, qty: 599_000_000, price: 5_000_000 }));
    assert_eq!(execute_final_ring(&mut run, ExecEvent::Placed), ExecAction::Watch(1, false));
    // 5.99 sold at 0.05 brings 0.2995 of the bridge, cut to 0.299
    let c = execute_final_ring(&mut run, ExecEvent::LegDone(LegOutcome::Filled(599_000_000)));
    assert_eq!(c, ExecAction::Place(LegOrder { leg: 2, side: Side::Sell, qty: 29_900_000, price: 210 * SCALE }));
    assert_eq!(execute_final_ring(&mut run, ExecEvent::Placed), ExecAction::Watch(2, false));
    assert_eq!(execute_final_ring(&mut run, ExecEvent::LegDone(LegOutcome::Filled(29_900_000))), ExecAction::FetchStable);
    assert_eq!(execute_final_ring(&mut run, ExecEvent::Balance(62 * SCALE)), ExecAction::Complete(ExecOutcome::Balance(62 * SCALE)));
}

#[test]
fn sequential_run_fails_softly_or_hard() {
    let mut run = RingRun::new(prices(), ring_rules(), 100 * SCALE, 10 * SCALE, 0);
    execute_final_ring(&mut run, ExecEvent::Balance(60 * SCALE));
    assert_eq!(execute_final_ring(&mut run, ExecEvent::PlaceFailed), ExecAction::Complete(ExecOutcome::SoftFailure));
    let mut run = RingRun::new(prices(), ring_rules(), 100 * SCALE, 10 * SCALE, 0);
    execute_final_ring(&mut run, ExecEvent::Balance(60 * SCALE));
    execute_final_ring(&mut run, ExecEvent::Placed);
    assert_eq!(execute_final_ring(&mut run, ExecEvent::LegDone(LegOutcome::NoFill)), ExecAction::Complete(ExecOutcome::SoftFailure));
    let mut run = RingRun::new(prices(), ring_rules(), 100 * SCALE, 10 * SCALE, 0);
    execute_final_ring(&mut run, ExecEvent::Balance(60 * SCALE));
    execute_final_ring(&mut run, ExecEvent::Placed);
    execute_final_ring(&mut run, ExecEvent::LegDone(LegOutcome::Filled(6 * SCALE)));
    assert_eq!(execute_final_ring(&mut run, ExecEvent::PlaceFailed), ExecAction::Complete(ExecOutcome::HardFailure));
    let mut run = RingRun::new(prices(), ring_rules(), 100 * SCALE, 10 * SCALE, 0);
    assert_eq!(execute_final_ring(&mut run, ExecEvent::BalanceFailed), ExecAction::Complete(ExecOutcome::HardFailure));
}

#[test]
fn parallel_run_sizes_up_front_and_polls_both_legs() {
    let rules = RingRules { lot0: 100, lot1: 10, lot2: 1000, tick0: 100, tick1: 10_000, tick2: 100 };
    let mut run = RingRun::new(prices(), rules, 100 * SCALE, 10 * SCALE, 0);
    let a = execute_final_ring_pallarel(&mut run, ExecEvent::Balance(1_000 * SCALE));
    assert_eq!(a, ExecAction::Place(LegOrder { leg: 1, side: Side::Sell, qty: 10 * SCALE, price: 5_000_000 }));
    assert_eq!((run.qty0, run.qty1, run.qty2), (10 * SCALE, 10 * SCALE, 50_000_000));
    assert_eq!(execute_final_ring_pallarel(&mut run, ExecEvent::Placed), ExecAction::Watch(1, true));
    assert_eq!(
        execute_final_ring_pallarel(&mut run, ExecEvent::LegDone(LegOutcome::Filled(10 * SCALE))),
        ExecAction::Place(LegOrder { leg: 0, side: Side::Buy, qty: 10 * SCALE, price: 10 * SCALE })
    );
    assert_eq!(
        execute_final_ring_pallarel(&mut run, ExecEvent::Placed),
        ExecAction::Place(LegOrder { leg: 2, side: Side::Sell, qty: 50_000_000, price: 210 * SCALE })
    );
    assert_eq!(execute_final_ring_pallarel(&mut run, ExecEvent::Placed), ExecAction::PollLeg(0));
    assert_eq!(execute_final_ring_pallarel(&mut run, ExecEvent::LegStatus(0, OrderStatus::New)), ExecAction::PollLeg(2));
    assert_eq!(execute_final_ring_pallarel(&mut run, ExecEvent::LegStatus(2, OrderStatus::Filled)), ExecAction::PollLeg(0));
    assert_eq!(execute_final_ring_pallarel(&mut run, ExecEvent::StatusFailed(0)), ExecAction::PollLeg(0));
    assert_eq!(execute_final_ring_pallarel(&mut run, ExecEvent::LegStatus(0, OrderStatus::Filled)), ExecAction::FetchStable);
    assert_eq!(execute_final_ring_pallarel(&mut run, ExecEvent::Balance(105 * SCALE)), ExecAction::Complete(ExecOutcome::Balance(105 * SCALE)));
}

#[test]
fn sequential_leg_two_is_sized_after_the_fee() {
    let rules = RingRules { lot0: 100, lot1: 100, lot2: 100_000_000, tick0: 100, tick1: 10_000_000, tick2: 100 };
    let mut run = RingRun::new(prices(), rules, 100 * SCALE, 10 * SCALE, 1000);
    execute_final_ring(&mut run, ExecEvent::Balance(60 * SCALE));
    execute_final_ring(&mut run, ExecEvent::Placed);
    execute_final_ring(&mut run, ExecEvent::LegDone(LegOutcome::Filled(6 * SCALE)));
    execute_final_ring(&mut run, ExecEvent::Placed);
    // 6 at 0.05 is 0.3, less 0.1 % is 0.2997
    let c = execute_final_ring(&mut run, ExecEvent::LegDone(LegOutcome::Filled(6 * SCALE)));
    assert_eq!(c, ExecAction::Place(LegOrder { leg: 2, side: Side::Sell, qty: 29_970_000, price: 210 * SCALE }));
}

#[test]
fn parallel_run_with_a_cancelled_leg_fails() {
    let mut run = RingRun::new(prices(), ring_rules(), 100 * SCALE, 10 * SCALE, 0);
    execute_final_ring_pallarel(&mut run, ExecEvent::Balance(100 * SCALE));
    execute_final_ring_pallarel(&mut run, ExecEvent::Placed);
    execute_final_ring_pallarel(&mut run, ExecEvent::LegDone(LegOutcome::Filled(10 * SCALE)));
    execute_final_ring_pallarel(&mut run, ExecEvent::Placed);
    assert_eq!(execute_final_ring_pallarel(&mut run, ExecEvent::Placed), ExecAction::PollLeg(0));
    assert_eq!(execute_final_ring_pallarel(&mut run, ExecEvent::LegStatus(0, OrderStatus::Canceled)), ExecAction::PollLeg(2));
    assert_eq!(
        execute_final_ring_pallarel(&mut run, ExecEvent::LegStatus(2, OrderStatus::Filled)),
        ExecAction::Complete(ExecOutcome::SoftFailure)
    );
}

#[test]
fn parallel_run_halts_on_unknown_status() {
    let mut run = RingRun::new(prices(), ring_rules(), 100 * SCALE, 10 * SCALE, 0);
    execute_final_ring_pallarel(&mut run, ExecEvent::Balance(100 * SCALE));
    execute_final_ring_pallarel(&mut run, ExecEvent::Placed);
    assert_eq!(execute_final_ring_pallarel(&mut run, ExecEvent::LegDone(LegOutcome::Halted)), ExecAction::Complete(ExecOutcome::HardFailure));
    let mut run = RingRun::new(prices(), ring_rules(), 100 * SCALE, 10 * SCALE, 0);
    execute_final_ring_pallarel(&mut run, ExecEvent::Balance(100 * SCALE));
    assert_eq!(execute_final_ring_pallarel(&mut run, ExecEvent::PlaceFailed), ExecAction::Complete(ExecOutcome::SoftFailure));
}

fn result(symbol: &str, profit: u64) -> RingResult {
    RingResult { symbol: symbol.to_string(), percentage: profit, profit, qty: 1, optimal_invest: 1 }
}

#[test]
fn tracker_counts_cycles_of_the_same_best() {
    let mut t = StabilityTracker::new();
    let a = "AAA".to_string();
    t.record(&a);
    assert_eq!(t.lifetime, 0);
    t.record(&a);
    t.record(&a);
    assert_eq!(t.lifetime, 2);
    assert!(t.is_stable(1));
    assert!(!t.is_stable(2));
    t.record(&"BBB".to_string());
    assert_eq!(t.lifetime, 0);
    assert_eq!(t.best, "BBB");
}

#[test]
fn control_trades_only_a_stable_best() {
    let mut c = ControlState::new(100 * SCALE);
    assert_eq!(c.plan_cycle(&vec![], 1), CycleDecision::NoArbitrage);
    assert_eq!(c.block_count, 0);
    let ranked = vec![result("AAA", 9), result("BBB", 3)];
    assert_eq!(c.plan_cycle(&ranked, 1), CycleDecision::Unstable);
    assert_eq!(c.plan_cycle(&ranked, 1), CycleDecision::Unstable);
    assert_eq!(c.plan_cycle(&ranked, 1), CycleDecision::Execute);
    assert_eq!(c.block_count, 3);
    let mut z = ControlState::new(0);
    assert_eq!(z.plan_cycle(&ranked, 0), CycleDecision::Unstable);
    assert_eq!(z.plan_cycle(&ranked, 0), CycleDecision::Execute);
}

#[test]
fn control_takes_execution_outcomes() {
    let mut c = ControlState::new(100 * SCALE);
    assert_eq!(c.finish_cycle(ExecOutcome::Balance(103 * SCALE)), CycleEnd::Traded { balance: 103 * SCALE, profit: 3 * SCALE as i128 });
    assert_eq!(c.virtual_account, 103 * SCALE);
    assert_eq!(c.finish_cycle(ExecOutcome::Balance(101 * SCALE)), CycleEnd::Traded { balance: 101 * SCALE, profit: -2 * SCALE as i128 });
    assert_eq!(c.finish_cycle(ExecOutcome::SoftFailure), CycleEnd::Skipped);
    assert_eq!(c.finish_cycle(ExecOutcome::Balance(0)), CycleEnd::Skipped);
    assert_eq!(c.virtual_account, 101 * SCALE);
    assert_eq!(c.finish_cycle(ExecOutcome::HardFailure), CycleEnd::Halt);
    assert_eq!(c.finish_cycle(ExecOutcome::Aborted), CycleEnd::Halt);
}

#[test]
fn find_ring_by_name() {
    let rings = vec![
        Ring { symbol: "AAA".to_string(), leg0: "AAABUSD".to_string(), leg1: "AAABNB".to_string(), leg2: "BNBBUSD".to_string() },
        Ring { symbol: "CCC".to_string(), leg0: "CCCBUSD".to_string(), leg1: "CCCBNB".to_string(), leg2: "BNBBUSD".to_string() },
    ];
    assert_eq!(find_ring(&rings, &"CCC".to_string()), Some(1));
    assert_eq!(find_ring(&rings, &"DDD".to_string()), None);
}
