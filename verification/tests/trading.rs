use juno::symbol::split_symbol;
use juno::time::{DAY_MS, HOUR_MS, MIN_MS};
use juno::trading::gaps::{
    fill_plan, missed_candle_time, missed_candles, on_candle, GapAction, Slot,
};
use juno::trading::position::{
    decide, decide_entry, decide_exit, settle, CloseReason, Decision, Hits, PositionState, Side,
};
use juno::trading::MissedCandlePolicy;
use juno::{Advice, SymbolExt};

const QUIET: Hits = Hits {
    stop_loss_upside: false,
    stop_loss_downside: false,
    take_profit_upside: false,
    take_profit_downside: false,
};

const ADVICES: [Advice; 4] = [Advice::Abstain, Advice::Long, Advice::Short, Advice::Liquidate];

const STATES: [PositionState; 3] = [PositionState::Flat, PositionState::Long, PositionState::Short];

fn all_hits() -> Vec<Hits> {
    let mut hits = Vec::new();
    for bits in 0..16u8 {
        hits.push(Hits {
            stop_loss_upside: bits & 1 != 0,
            stop_loss_downside: bits & 2 != 0,
            take_profit_upside: bits & 4 != 0,
            take_profit_downside: bits & 8 != 0,
        });
    }
    hits
}

#[test]
fn a_long_is_closed_on_short_or_liquidate() {
    assert_eq!(decide_exit(PositionState::Long, Advice::Short, QUIET), Some(CloseReason::Strategy));
    assert_eq!(
        decide_exit(PositionState::Long, Advice::Liquidate, QUIET),
        Some(CloseReason::Strategy)
    );
    assert_eq!(decide_exit(PositionState::Long, Advice::Long, QUIET), None);
    assert_eq!(decide_exit(PositionState::Long, Advice::Abstain, QUIET), None);
}

#[test]
fn a_short_is_closed_on_long_or_liquidate() {
    assert_eq!(decide_exit(PositionState::Short, Advice::Long, QUIET), Some(CloseReason::Strategy));
    assert_eq!(
        decide_exit(PositionState::Short, Advice::Liquidate, QUIET),
        Some(CloseReason::Strategy)
    );
    assert_eq!(decide_exit(PositionState::Short, Advice::Short, QUIET), None);
    assert_eq!(decide_exit(PositionState::Short, Advice::Abstain, QUIET), None);
}

#[test]
fn stop_loss_and_take_profit_close_their_side_only() {
    let upside_stop = Hits { stop_loss_upside: true, ..QUIET };
    let downside_stop = Hits { stop_loss_downside: true, ..QUIET };
    let upside_profit = Hits { take_profit_upside: true, ..QUIET };
    let downside_profit = Hits { take_profit_downside: true, ..QUIET };
    assert_eq!(
        decide_exit(PositionState::Long, Advice::Long, upside_stop),
        Some(CloseReason::StopLoss)
    );
    assert_eq!(decide_exit(PositionState::Long, Advice::Long, downside_stop), None);
    assert_eq!(
        decide_exit(PositionState::Long, Advice::Abstain, upside_profit),
        Some(CloseReason::TakeProfit)
    );
    assert_eq!(decide_exit(PositionState::Long, Advice::Abstain, downside_profit), None);
    assert_eq!(
        decide_exit(PositionState::Short, Advice::Short, downside_stop),
        Some(CloseReason::StopLoss)
    );
    assert_eq!(decide_exit(PositionState::Short, Advice::Short, upside_stop), None);
    assert_eq!(
        decide_exit(PositionState::Short, Advice::Abstain, downside_profit),
        Some(CloseReason::TakeProfit)
    );
    assert_eq!(decide_exit(PositionState::Short, Advice::Abstain, upside_profit), None);
}

#[test]
fn the_strategy_goes_before_the_stop_loss_and_that_before_the_take_profit() {
    let every = Hits {
        stop_loss_upside: true,
        stop_loss_downside: true,
        take_profit_upside: true,
        take_profit_downside: true,
    };
    assert_eq!(decide_exit(PositionState::Long, Advice::Short, every), Some(CloseReason::Strategy));
    assert_eq!(decide_exit(PositionState::Long, Advice::Long, every), Some(CloseReason::StopLoss));
    assert_eq!(decide_exit(PositionState::Short, Advice::Long, every), Some(CloseReason::Strategy));
    assert_eq!(decide_exit(PositionState::Short, Advice::Short, every), Some(CloseReason::StopLoss));
}

#[test]
fn nothing_is_closed_without_a_position() {
    for advice in ADVICES {
        for hits in all_hits() {
            assert_eq!(decide_exit(PositionState::Flat, advice, hits), None);
        }
    }
}

#[test]
fn entries_follow_the_advice_to_an_enabled_side() {
    assert_eq!(decide_entry(PositionState::Flat, Advice::Long, true, true), Some(Side::Long));
    assert_eq!(decide_entry(PositionState::Flat, Advice::Long, true, false), Some(Side::Long));
    assert_eq!(decide_entry(PositionState::Flat, Advice::Long, false, true), None);
    assert_eq!(decide_entry(PositionState::Flat, Advice::Short, true, true), Some(Side::Short));
    assert_eq!(decide_entry(PositionState::Flat, Advice::Short, false, true), Some(Side::Short));
    assert_eq!(decide_entry(PositionState::Flat, Advice::Short, true, false), None);
    assert_eq!(decide_entry(PositionState::Flat, Advice::Abstain, true, true), None);
    assert_eq!(decide_entry(PositionState::Flat, Advice::Liquidate, true, true), None);
}

#[test]
fn no_entry_while_a_position_is_open() {
    for state in [PositionState::Long, PositionState::Short] {
        for advice in ADVICES {
            assert_eq!(decide_entry(state, advice, true, true), None);
        }
    }
}

#[test]
fn a_reversal_closes_and_opens_on_the_same_candle() {
    assert_eq!(
        decide(PositionState::Long, Advice::Short, QUIET, true, true),
        Decision { close: Some(CloseReason::Strategy), open: Some(Side::Short) }
    );
    assert_eq!(
        decide(PositionState::Short, Advice::Long, QUIET, true, true),
        Decision { close: Some(CloseReason::Strategy), open: Some(Side::Long) }
    );
    assert_eq!(
        decide(PositionState::Long, Advice::Short, QUIET, true, false),
        Decision { close: Some(CloseReason::Strategy), open: None }
    );
    assert_eq!(
        decide(PositionState::Long, Advice::Liquidate, QUIET, true, true),
        Decision { close: Some(CloseReason::Strategy), open: None }
    );
}

#[test]
fn a_single_long_position_from_entry_to_exit() {
    // Long on the first candle, liquidate on the second.
    let mut state = PositionState::Flat;
    let first = decide(state, Advice::Long, QUIET, true, true);
    assert_eq!(first, Decision { close: None, open: Some(Side::Long) });
    state = settle(state, first, true);
    assert_eq!(state, PositionState::Long);
    let second = decide(state, Advice::Liquidate, QUIET, true, true);
    assert_eq!(second, Decision { close: Some(CloseReason::Strategy), open: None });
    state = settle(state, second, false);
    assert_eq!(state, PositionState::Flat);
}

#[test]
fn an_entry_that_the_market_refuses_leaves_the_trader_flat() {
    let decision = decide(PositionState::Flat, Advice::Short, QUIET, true, true);
    assert_eq!(decision.open, Some(Side::Short));
    assert_eq!(settle(PositionState::Flat, decision, false), PositionState::Flat);
    assert_eq!(settle(PositionState::Flat, decision, true), PositionState::Short);
}

#[test]
fn there_is_never_more_than_one_position() {
    for state in STATES {
        for advice in ADVICES {
            for hits in all_hits() {
                for enable_long in [false, true] {
                    for enable_short in [false, true] {
                        let decision = decide(state, advice, hits, enable_long, enable_short);
                        if state == PositionState::Flat {
                            assert_eq!(decision.close, None);
                        }
                        if decision.open.is_some() {
                            assert!(state == PositionState::Flat || decision.close.is_some());
                        }
                        assert_eq!(decision.close, decide_exit(state, advice, hits));
                    }
                }
            }
        }
    }
}

#[test]
fn abstain_with_quiet_risk_rules_changes_nothing() {
    for state in STATES {
        let decision = decide(state, Advice::Abstain, QUIET, true, true);
        assert_eq!(decision, Decision { close: None, open: None });
        assert_eq!(settle(state, decision, true), state);
    }
}

#[test]
fn candles_that_follow_each_other_miss_nothing() {
    assert_eq!(missed_candles(0, MIN_MS, MIN_MS), 0);
    assert_eq!(missed_candles(5 * HOUR_MS, 6 * HOUR_MS, HOUR_MS), 0);
    assert_eq!(missed_candles(5 * HOUR_MS, 5 * HOUR_MS, HOUR_MS), 0);
    assert_eq!(missed_candles(6 * HOUR_MS, 5 * HOUR_MS, HOUR_MS), 0);
    assert_eq!(missed_candles(0, 0, 1), 0);
}

#[test]
fn gaps_are_counted_in_intervals() {
    assert_eq!(missed_candles(0, 2 * MIN_MS, MIN_MS), 1);
    assert_eq!(missed_candles(0, 5 * MIN_MS, MIN_MS), 4);
    assert_eq!(missed_candles(3 * DAY_MS, 10 * DAY_MS, DAY_MS), 6);
    assert_eq!(missed_candles(0, u64::MAX, 1), u64::MAX - 1);
    assert_eq!(missed_candles(0, u64::MAX, u64::MAX), 0);
}

#[test]
fn gaps_are_measured_on_the_grid_of_the_interval() {
    assert_eq!(missed_candles(MIN_MS + 59_999, 2 * MIN_MS, MIN_MS), 0);
    assert_eq!(missed_candles(MIN_MS + 1, 3 * MIN_MS + 59_999, MIN_MS), 1);
    assert_eq!(missed_candles(MIN_MS + 59_999, 3 * MIN_MS, MIN_MS), 1);
}

#[test]
fn the_policy_decides_what_a_gap_leads_to() {
    let policies =
        [MissedCandlePolicy::Ignore, MissedCandlePolicy::Restart, MissedCandlePolicy::LastValid];
    for policy in policies {
        assert_eq!(on_candle(policy, 0, MIN_MS, MIN_MS), GapAction::Proceed);
    }
    assert_eq!(on_candle(MissedCandlePolicy::Ignore, 0, 4 * MIN_MS, MIN_MS), GapAction::Proceed);
    assert_eq!(on_candle(MissedCandlePolicy::Restart, 0, 4 * MIN_MS, MIN_MS), GapAction::Restart);
    assert_eq!(on_candle(MissedCandlePolicy::LastValid, 0, 4 * MIN_MS, MIN_MS), GapAction::Fill(3));
}

#[test]
fn missing_candles_fill_the_gap() {
    let last = 7 * HOUR_MS;
    let time = 11 * HOUR_MS;
    let count = missed_candles(last, time, HOUR_MS);
    assert_eq!(count, 3);
    let times: Vec<u64> =
        (1..=count).map(|nth| missed_candle_time(last, time, HOUR_MS, nth)).collect();
    assert_eq!(times, vec![8 * HOUR_MS, 9 * HOUR_MS, 10 * HOUR_MS]);
    assert_eq!(missed_candle_time(0, u64::MAX, 1, u64::MAX - 1), u64::MAX - 1);
}

#[test]
fn symbols_split_at_the_first_dash() {
    assert_eq!(split_symbol("eth-btc"), Some(("eth", "btc")));
    assert_eq!(split_symbol("btc-eur"), Some(("btc", "eur")));
    assert_eq!(split_symbol("a-b-c"), Some(("a", "b-c")));
    assert_eq!(split_symbol("-"), Some(("", "")));
    assert_eq!(split_symbol("eth-"), Some(("eth", "")));
    assert_eq!(split_symbol("-btc"), Some(("", "btc")));
    assert_eq!(split_symbol("ethbtc"), None);
    assert_eq!(split_symbol(""), None);
    assert_eq!(split_symbol("é-ü"), Some(("é", "ü")));
}

#[test]
fn symbol_assets() {
    assert_eq!("eth-btc".assets(), ("eth", "btc"));
    assert_eq!("eth-btc".base_asset(), "eth");
    assert_eq!("eth-btc".quote_asset(), "btc");
}

#[test]
fn a_plan_has_a_place_for_each_interval() {
    let times = vec![2 * HOUR_MS, 3 * HOUR_MS, 5 * HOUR_MS];
    let plan = fill_plan(&times, HOUR_MS, HOUR_MS, 7 * HOUR_MS);
    let expected = vec![
        Slot { time: HOUR_MS, source: 0, filled: true },
        Slot { time: 2 * HOUR_MS, source: 0, filled: false },
        Slot { time: 3 * HOUR_MS, source: 1, filled: false },
        Slot { time: 4 * HOUR_MS, source: 1, filled: true },
        Slot { time: 5 * HOUR_MS, source: 2, filled: false },
        Slot { time: 6 * HOUR_MS, source: 2, filled: true },
    ];
    assert_eq!(plan, expected);
}

#[test]
fn a_plan_starts_and_ends_on_the_grid() {
    let times = vec![0, MIN_MS, 2 * MIN_MS, 3 * MIN_MS];
    let plan = fill_plan(&times, MIN_MS, 1, 3 * MIN_MS + 59_999);
    let expected = vec![
        Slot { time: MIN_MS, source: 1, filled: false },
        Slot { time: 2 * MIN_MS, source: 2, filled: false },
    ];
    assert_eq!(plan, expected);
    assert!(fill_plan(&times, MIN_MS, 1, MIN_MS).is_empty());
    assert!(fill_plan(&times, MIN_MS, 5 * MIN_MS, 2 * MIN_MS).is_empty());
    assert!(fill_plan(&times, MIN_MS, 0, 0).is_empty());
}

#[test]
fn a_plan_skips_candles_off_the_grid() {
    let times = vec![30_000, MIN_MS + 30_000];
    let plan = fill_plan(&times, MIN_MS, 0, 3 * MIN_MS);
    let expected = vec![
        Slot { time: 0, source: 0, filled: true },
        Slot { time: MIN_MS, source: 0, filled: true },
        Slot { time: 2 * MIN_MS, source: 1, filled: true },
    ];
    assert_eq!(plan, expected);
}

#[test]
fn a_plan_reaches_the_largest_time() {
    let times = vec![u64::MAX - 3];
    let plan = fill_plan(&times, 2, u64::MAX - 5, u64::MAX);
    let expected = vec![
        Slot { time: u64::MAX - 5, source: 0, filled: true },
        Slot { time: u64::MAX - 3, source: 0, filled: false },
    ];
    assert_eq!(plan, expected);
}
