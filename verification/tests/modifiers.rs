use juno::strategies::{
    combine, filter_advice, filter_enforce, filter_prevent, Changed, MidTrend, MidTrendPolicy,
    Persistence,
};
use juno::Advice;

const ALL: [Advice; 4] = [Advice::Abstain, Advice::Long, Advice::Short, Advice::Liquidate];

fn run_persistence(level: u32, return_previous: bool, inputs: &[Advice]) -> Vec<Advice> {
    let mut persistence = Persistence::new(level, return_previous);
    inputs.iter().map(|advice| persistence.update(*advice)).collect()
}

fn run_mid_trend(policy: MidTrendPolicy, inputs: &[Advice]) -> Vec<Advice> {
    let mut mid_trend = MidTrend::new(policy);
    inputs.iter().map(|advice| mid_trend.update(*advice)).collect()
}

fn run_changed(enabled: bool, inputs: &[Advice]) -> Vec<Advice> {
    let mut changed = Changed::new(enabled);
    inputs.iter().map(|advice| changed.update(*advice)).collect()
}

#[test]
fn combine_abstain_dominates() {
    for a in ALL {
        assert_eq!(combine(a, Advice::Abstain), Advice::Abstain);
        assert_eq!(combine(Advice::Abstain, a), Advice::Abstain);
    }
}

#[test]
fn combine_agreement_passes() {
    for a in ALL {
        assert_eq!(combine(a, a), a);
    }
}

#[test]
fn combine_disagreement_liquidates() {
    assert_eq!(combine(Advice::Long, Advice::Short), Advice::Liquidate);
    assert_eq!(combine(Advice::Short, Advice::Long), Advice::Liquidate);
    assert_eq!(combine(Advice::Long, Advice::Liquidate), Advice::Liquidate);
    assert_eq!(combine(Advice::Liquidate, Advice::Short), Advice::Liquidate);
}

#[test]
fn combine_is_symmetric() {
    for a in ALL {
        for b in ALL {
            assert_eq!(combine(a, b), combine(b, a));
        }
    }
}

#[test]
fn persistence_level_zero_is_identity() {
    let inputs = [
        Advice::Long,
        Advice::Short,
        Advice::Abstain,
        Advice::Liquidate,
        Advice::Liquidate,
        Advice::Long,
    ];
    assert_eq!(run_persistence(0, false, &inputs), inputs.to_vec());
    assert_eq!(run_persistence(0, true, &inputs), inputs.to_vec());
}

#[test]
fn persistence_level_two_debounces() {
    let inputs = [
        Advice::Long,
        Advice::Long,
        Advice::Long,
        Advice::Short,
        Advice::Short,
        Advice::Short,
        Advice::Short,
    ];
    let expected = vec![
        Advice::Abstain,
        Advice::Abstain,
        Advice::Long,
        Advice::Abstain,
        Advice::Abstain,
        Advice::Short,
        Advice::Short,
    ];
    assert_eq!(run_persistence(2, false, &inputs), expected);
}

#[test]
fn persistence_returns_previous_while_it_waits() {
    let inputs = [
        Advice::Long,
        Advice::Long,
        Advice::Long,
        Advice::Short,
        Advice::Short,
        Advice::Short,
        Advice::Long,
    ];
    let expected = vec![
        Advice::Abstain,
        Advice::Abstain,
        Advice::Long,
        Advice::Long,
        Advice::Long,
        Advice::Short,
        Advice::Short,
    ];
    assert_eq!(run_persistence(2, true, &inputs), expected);
}

#[test]
fn persistence_abstains_for_level_ticks_after_each_change() {
    let inputs = [
        Advice::Short,
        Advice::Short,
        Advice::Short,
        Advice::Short,
        Advice::Long,
        Advice::Short,
        Advice::Short,
        Advice::Liquidate,
        Advice::Liquidate,
        Advice::Liquidate,
        Advice::Liquidate,
    ];
    for level in 1..5u32 {
        let outputs = run_persistence(level, false, &inputs);
        for change in 0..inputs.len() {
            if change == 0 || inputs[change] != inputs[change - 1] {
                for i in change..inputs.len().min(change + level as usize) {
                    assert_eq!(outputs[i], Advice::Abstain);
                }
            }
        }
    }
}

#[test]
fn persistence_emits_what_held_for_level_plus_one_updates() {
    let inputs = [Advice::Short, Advice::Short, Advice::Short, Advice::Short, Advice::Long];
    assert_eq!(
        run_persistence(3, false, &inputs),
        vec![Advice::Abstain, Advice::Abstain, Advice::Abstain, Advice::Short, Advice::Abstain]
    );
    assert_eq!(
        run_persistence(1, false, &inputs),
        vec![Advice::Abstain, Advice::Short, Advice::Short, Advice::Short, Advice::Abstain]
    );
}

#[test]
fn persistence_maturity_is_its_level() {
    assert_eq!(Persistence::new(0, false).maturity(), 0);
    assert_eq!(Persistence::new(7, true).maturity(), 7);
    assert_eq!(Persistence::new(u32::MAX, false).maturity(), u32::MAX);
}

#[test]
fn persistence_at_the_largest_level_stays_silent() {
    let mut persistence = Persistence::new(u32::MAX, false);
    for _ in 0..1000 {
        assert_eq!(persistence.update(Advice::Long), Advice::Abstain);
    }
}

#[test]
fn mid_trend_current_is_identity() {
    let inputs = [Advice::Long, Advice::Long, Advice::Short, Advice::Abstain, Advice::Liquidate];
    assert_eq!(run_mid_trend(MidTrendPolicy::Current, &inputs), inputs.to_vec());
}

#[test]
fn mid_trend_previous_passes_advice_through() {
    let inputs = [Advice::Long, Advice::Long, Advice::Short, Advice::Abstain, Advice::Liquidate];
    assert_eq!(run_mid_trend(MidTrendPolicy::Previous, &inputs), inputs.to_vec());
}

#[test]
fn mid_trend_ignore_waits_for_the_first_turn() {
    let inputs = [
        Advice::Long,
        Advice::Long,
        Advice::Long,
        Advice::Short,
        Advice::Short,
        Advice::Long,
        Advice::Long,
    ];
    let expected = vec![
        Advice::Abstain,
        Advice::Abstain,
        Advice::Abstain,
        Advice::Short,
        Advice::Short,
        Advice::Long,
        Advice::Long,
    ];
    assert_eq!(run_mid_trend(MidTrendPolicy::Ignore, &inputs), expected);
}

#[test]
fn mid_trend_ignore_never_passes_a_trend_that_does_not_turn() {
    let inputs = [Advice::Short; 12];
    assert_eq!(run_mid_trend(MidTrendPolicy::Ignore, &inputs), vec![Advice::Abstain; 12]);
}

#[test]
fn mid_trend_maturity() {
    assert_eq!(MidTrend::new(MidTrendPolicy::Current).maturity(), 0);
    assert_eq!(MidTrend::new(MidTrendPolicy::Previous).maturity(), 1);
    assert_eq!(MidTrend::new(MidTrendPolicy::Ignore).maturity(), 1);
}

#[test]
fn changed_keeps_the_transitions() {
    let inputs = [
        Advice::Long,
        Advice::Long,
        Advice::Short,
        Advice::Short,
        Advice::Abstain,
        Advice::Long,
        Advice::Liquidate,
        Advice::Liquidate,
    ];
    let expected = vec![
        Advice::Long,
        Advice::Abstain,
        Advice::Short,
        Advice::Abstain,
        Advice::Abstain,
        Advice::Long,
        Advice::Liquidate,
        Advice::Abstain,
    ];
    assert_eq!(run_changed(true, &inputs), expected);
}

#[test]
fn changed_disabled_is_identity() {
    let inputs = [Advice::Long, Advice::Long, Advice::Short, Advice::Short];
    assert_eq!(run_changed(false, &inputs), inputs.to_vec());
    assert_eq!(Changed::new(true).maturity(), 0);
    assert_eq!(Changed::new(false).maturity(), 0);
}

#[test]
fn filter_advice_combines_both_verdicts() {
    let mut mid_trend = MidTrend::new(MidTrendPolicy::Ignore);
    let mut persistence = Persistence::new(1, false);
    let inputs = [Advice::Long, Advice::Long, Advice::Short, Advice::Short, Advice::Short];
    let outputs: Vec<Advice> = inputs
        .iter()
        .map(|advice| filter_advice(&mut mid_trend, &mut persistence, *advice))
        .collect();
    // The mid-trend filter opens on the first short; the persistence filter
    // confirms it one update later.
    let expected = vec![
        Advice::Abstain,
        Advice::Abstain,
        Advice::Abstain,
        Advice::Short,
        Advice::Short,
    ];
    assert_eq!(outputs, expected);
}

#[test]
fn filter_enforce_needs_confirmation() {
    for oversold in [false, true] {
        for overbought in [false, true] {
            assert_eq!(filter_enforce(Advice::Abstain, oversold, overbought), Advice::Abstain);
            assert_eq!(filter_enforce(Advice::Liquidate, oversold, overbought), Advice::Liquidate);
            let long = if oversold { Advice::Long } else { Advice::Liquidate };
            assert_eq!(filter_enforce(Advice::Long, oversold, overbought), long);
            let short = if overbought { Advice::Short } else { Advice::Liquidate };
            assert_eq!(filter_enforce(Advice::Short, oversold, overbought), short);
        }
    }
}

#[test]
fn filter_prevent_vetoes_entries_into_extremes() {
    for oversold in [false, true] {
        for overbought in [false, true] {
            assert_eq!(filter_prevent(Advice::Abstain, oversold, overbought), Advice::Abstain);
            assert_eq!(filter_prevent(Advice::Liquidate, oversold, overbought), Advice::Liquidate);
            let long = if overbought { Advice::Liquidate } else { Advice::Long };
            assert_eq!(filter_prevent(Advice::Long, oversold, overbought), long);
            let short = if oversold { Advice::Liquidate } else { Advice::Short };
            assert_eq!(filter_prevent(Advice::Short, oversold, overbought), short);
        }
    }
}
