//! What the signal modifiers do to a whole stream of advice, and what the
//! composite signals do from their start on.
//!
//! The modifiers are specified step by step, by `emit` and `next` on their
//! abstract states. Here the steps are chained, and the outcome is stated in
//! terms of the stream alone.

use super::modifiers::{combine_spec, MidTrendPolicy, MidTrendView, PersistenceView};
use super::sig::Sig;
use super::sig_osc::SigOsc;
use super::{next_clock, Oscillator, Signal, Strategy};
use crate::common::Advice;
use vstd::prelude::*;

verus! {

/// Whether the last `count` elements of `inputs` exist and are all equal.
pub open spec fn steady(inputs: Seq<Advice>, count: nat) -> bool {
    &&& 0 < count <= inputs.len()
    &&& forall|j: int|
        inputs.len() - count <= j < inputs.len() ==> #[trigger] inputs[j] == inputs.last()
}

/// Whether some element of `inputs` differs from the first.
pub open spec fn turned(inputs: Seq<Advice>) -> bool {
    exists|j: int| 0 <= j < inputs.len() && #[trigger] inputs[j] != inputs[0]
}

/// The last advice of `inputs` that had been observed on `level + 1` updates
/// in a row when it came, or `Abstain` if there is none.
pub open spec fn confirmed(inputs: Seq<Advice>, level: nat) -> Advice
    decreases inputs.len(),
{
    if inputs.len() == 0 {
        Advice::Abstain
    } else if steady(inputs, level + 1) {
        inputs.last()
    } else {
        confirmed(inputs.drop_last(), level)
    }
}

impl PersistenceView {
    /// The state after `inputs` were observed one after the other.
    pub open spec fn after(self, inputs: Seq<Advice>) -> PersistenceView
        decreases inputs.len(),
    {
        if inputs.len() == 0 {
            self
        } else {
            self.after(inputs.drop_last()).next(inputs.last())
        }
    }

    /// The advice emitted for the last of `inputs`, after those before it.
    pub open spec fn output(self, inputs: Seq<Advice>) -> Advice
        recommends
            inputs.len() > 0,
    {
        self.after(inputs.drop_last()).emit(inputs.last())
    }
}

impl MidTrendView {
    /// The state after `inputs` were observed one after the other.
    pub open spec fn after(self, inputs: Seq<Advice>) -> MidTrendView
        decreases inputs.len(),
    {
        if inputs.len() == 0 {
            self
        } else {
            self.after(inputs.drop_last()).next(inputs.last())
        }
    }

    /// The advice emitted for the last of `inputs`, after those before it.
    pub open spec fn output(self, inputs: Seq<Advice>) -> Advice
        recommends
            inputs.len() > 0,
    {
        self.after(inputs.drop_last()).emit(inputs.last())
    }
}

/// `Abstain` from either side wins, agreement passes through, and a long
/// against a short means `Liquidate`. The order of the two does not matter.
pub proof fn lemma_combine(a: Advice, b: Advice)
    ensures
        combine_spec(a, Advice::Abstain) == Advice::Abstain,
        combine_spec(Advice::Abstain, a) == Advice::Abstain,
        combine_spec(a, a) == a,
        combine_spec(Advice::Long, Advice::Short) == Advice::Liquidate,
        combine_spec(a, b) == combine_spec(b, a),
        a != Advice::Abstain && b != Advice::Abstain && a != b ==> combine_spec(a, b)
            == Advice::Liquidate,
{
}

/// A persistence filter of level zero is the identity, whatever it saw
/// before.
pub proof fn lemma_persistence_zero_is_identity(state: PersistenceView, inputs: Seq<Advice>)
    requires
        state.level == 0,
        inputs.len() > 0,
    ensures
        state.after(inputs) == state,
        state.output(inputs) == inputs.last(),
    decreases inputs.len(),
{
    lemma_persistence_zero_keeps_state(state, inputs.drop_last());
    lemma_persistence_zero_keeps_state(state, inputs);
}

proof fn lemma_persistence_zero_keeps_state(state: PersistenceView, inputs: Seq<Advice>)
    requires
        state.level == 0,
    ensures
        state.after(inputs) == state,
    decreases inputs.len(),
{
    if inputs.len() > 0 {
        lemma_persistence_zero_keeps_state(state, inputs.drop_last());
    }
}

/// The number of elements at the end of `inputs` that are equal to the last.
pub open spec fn run_length(inputs: Seq<Advice>) -> nat
    decreases inputs.len(),
{
    if inputs.len() == 0 {
        0
    } else if inputs.len() >= 2 && inputs[inputs.len() - 2] == inputs.last() {
        run_length(inputs.drop_last()) + 1
    } else {
        1
    }
}

/// The last `count` elements are equal exactly if the run at the end is at
/// least `count` long.
proof fn lemma_run_length(inputs: Seq<Advice>, count: nat)
    requires
        count > 0,
    ensures
        run_length(inputs) <= inputs.len(),
        steady(inputs, count) <==> run_length(inputs) >= count,
    decreases inputs.len(),
{
    if inputs.len() == 0 {
    } else if inputs.len() >= 2 && inputs[inputs.len() - 2] == inputs.last() {
        let prefix = inputs.drop_last();
        assert(prefix.last() == inputs.last());
        if count >= 2 {
            lemma_run_length(prefix, (count - 1) as nat);
            if steady(inputs, count) {
                assert forall|j: int| prefix.len() - (count - 1) <= j < prefix.len() implies prefix[j]
                    == prefix.last() by {
                    assert(prefix[j] == inputs[j]);
                }
            }
            if steady(prefix, (count - 1) as nat) {
                assert forall|j: int| inputs.len() - count <= j < inputs.len() implies inputs[j]
                    == inputs.last() by {
                    if j < prefix.len() {
                        assert(prefix[j] == inputs[j]);
                    }
                }
            }
        } else {
            lemma_run_length(prefix, 1);
        }
    } else {
        if count >= 2 && steady(inputs, count) {
            assert(inputs[inputs.len() - 2] == inputs.last());
        }
    }
}

/// The state of a persistence filter after a stream, read off the stream.
proof fn lemma_persistence_state(level: nat, return_previous: bool, inputs: Seq<Advice>)
    requires
        level > 0,
    ensures
        ({
            let state = PersistenceView::initial(level, return_previous).after(inputs);
            &&& state.level == level
            &&& state.return_previous == return_previous
            &&& state.previous == confirmed(inputs, level)
            &&& state.age == if run_length(inputs) < level {
                run_length(inputs)
            } else {
                level
            }
            &&& inputs.len() > 0 ==> state.potential == inputs.last()
            &&& inputs.len() == 0 ==> state.potential == Advice::Abstain
        }),
    decreases inputs.len(),
{
    if inputs.len() > 0 {
        let prefix = inputs.drop_last();
        lemma_persistence_state(level, return_previous, prefix);
        lemma_run_length(inputs, level + 1);
        lemma_run_length(prefix, 1);
        if prefix.len() > 0 {
            assert(prefix.last() == inputs[inputs.len() - 2]);
        }
    }
}

/// A persistence filter passes an advice on exactly when it has been observed
/// on `level + 1` updates in a row. Otherwise it repeats the advice that it
/// passed on last, if it was built to do so, and abstains if not.
pub proof fn lemma_persistence_debounces(level: nat, return_previous: bool, inputs: Seq<Advice>)
    requires
        level > 0,
        inputs.len() > 0,
    ensures
        PersistenceView::initial(level, return_previous).output(inputs) == if steady(
            inputs,
            level + 1,
        ) {
            inputs.last()
        } else if return_previous {
            confirmed(inputs.drop_last(), level)
        } else {
            Advice::Abstain
        },
{
    let prefix = inputs.drop_last();
    lemma_persistence_state(level, return_previous, prefix);
    lemma_run_length(inputs, level + 1);
    lemma_run_length(prefix, 1);
    if prefix.len() > 0 {
        assert(prefix.last() == inputs[inputs.len() - 2]);
    }
}

/// A persistence filter that does not repeat itself abstains on each of the
/// first `level` updates of a stream, and on each of the first `level`
/// updates from a change of advice on.
pub proof fn lemma_persistence_abstains_after_change(
    level: nat,
    inputs: Seq<Advice>,
    change: int,
)
    requires
        inputs.len() > 0,
        0 <= change < inputs.len(),
        change == 0 || inputs[change] != inputs[change - 1],
        inputs.len() - 1 < change + level,
    ensures
        PersistenceView::initial(level, false).output(inputs) == Advice::Abstain,
{
    lemma_persistence_debounces(level, false, inputs);
    if steady(inputs, level + 1) {
        assert(change >= 1);
        assert(inputs[change] == inputs.last());
        assert(inputs[change - 1] == inputs.last());
    }
}

/// A mid-trend filter with the policy `Current` or `Previous` is the
/// identity, whatever it saw before.
pub proof fn lemma_mid_trend_current_is_identity(state: MidTrendView, inputs: Seq<Advice>)
    requires
        state.policy != MidTrendPolicy::Ignore,
        inputs.len() > 0,
    ensures
        state.after(inputs) == state,
        state.output(inputs) == inputs.last(),
{
    lemma_mid_trend_transparent_keeps_state(state, inputs.drop_last());
    lemma_mid_trend_transparent_keeps_state(state, inputs);
}

proof fn lemma_mid_trend_transparent_keeps_state(state: MidTrendView, inputs: Seq<Advice>)
    requires
        state.transparent(),
    ensures
        state.after(inputs) == state,
    decreases inputs.len(),
{
    if inputs.len() > 0 {
        lemma_mid_trend_transparent_keeps_state(state, inputs.drop_last());
    }
}

/// The state of a mid-trend filter with the policy `Ignore` after a stream,
/// read off the stream.
proof fn lemma_mid_trend_ignore_state(inputs: Seq<Advice>)
    requires
        inputs.len() > 0,
    ensures
        ({
            let state = MidTrendView::initial(MidTrendPolicy::Ignore).after(inputs);
            &&& state.policy == MidTrendPolicy::Ignore
            &&& state.previous == Some(inputs[0])
            &&& state.enabled == !turned(inputs)
        }),
    decreases inputs.len(),
{
    let prefix = inputs.drop_last();
    if prefix.len() > 0 {
        lemma_mid_trend_ignore_state(prefix);
        lemma_turned_grows(inputs);
    } else {
        let start = MidTrendView::initial(MidTrendPolicy::Ignore);
        assert(start.after(prefix) == start);
        assert(inputs.last() == inputs[0]);
    }
}

/// A stream has turned exactly if it had turned before its last element or
/// the last element differs from the first.
proof fn lemma_turned_grows(inputs: Seq<Advice>)
    requires
        inputs.len() > 1,
    ensures
        turned(inputs) == (turned(inputs.drop_last()) || inputs.last() != inputs[0]),
        inputs.drop_last()[0] == inputs[0],
{
    let prefix = inputs.drop_last();
    if turned(prefix) {
        let j = choose|j: int| 0 <= j < prefix.len() && #[trigger] prefix[j] != prefix[0];
        assert(inputs[j] != inputs[0]);
    }
    if turned(inputs) && !turned(prefix) {
        let j = choose|j: int| 0 <= j < inputs.len() && #[trigger] inputs[j] != inputs[0];
        if j < prefix.len() {
            assert(prefix[j] != prefix[0]);
        }
    }
    if inputs.last() != inputs[0] {
        assert(inputs[inputs.len() - 1] != inputs[0]);
    }
}

/// A mid-trend filter with the policy `Ignore` abstains as long as the
/// advice is the one it started with, and is the identity from the first
/// advice that differs.
pub proof fn lemma_mid_trend_ignore_waits_for_turn(inputs: Seq<Advice>)
    requires
        inputs.len() > 0,
    ensures
        MidTrendView::initial(MidTrendPolicy::Ignore).output(inputs) == if turned(inputs) {
            inputs.last()
        } else {
            Advice::Abstain
        },
{
    let prefix = inputs.drop_last();
    if prefix.len() > 0 {
        lemma_mid_trend_ignore_state(prefix);
        lemma_turned_grows(inputs);
    } else {
        let start = MidTrendView::initial(MidTrendPolicy::Ignore);
        assert(start.after(prefix) == start);
        assert(inputs.last() == inputs[0]);
    }
}

/// Whether `after` can be what the signal `before` has become with one more
/// candle, as far as the count of its candles and its waiting go.
pub open spec fn sig_fed<S: Signal>(before: &Sig<S>, after: &Sig<S>) -> bool {
    &&& after.wf()
    &&& after.spec_maturity() == before.spec_maturity()
    &&& after.waits() == before.waits()
    &&& after.seen() == next_clock(before.seen(), before.spec_maturity() + 1)
}

/// Whether the state at place `i` can follow from the one before it.
pub open spec fn sig_fed_at<S: Signal>(states: Seq<Sig<S>>, i: int) -> bool {
    sig_fed(&states[i - 1], &states[i])
}

/// A signal that waits and was built anew, as it is at the start of a run
/// and after a restart, abstains on as many candles as its maturity says:
/// `states` holds the signal as it was built and as it was after each candle
/// since.
pub proof fn lemma_sig_abstains_after_restart<S: Signal>(states: Seq<Sig<S>>, k: int)
    requires
        states.len() > 0,
        states[0].wf(),
        states[0].seen() == 0,
        states[0].waits(),
        forall|i: int| 1 <= i < states.len() ==> #[trigger] sig_fed_at(states, i),
        0 <= k < states.len(),
        k <= states[0].spec_maturity(),
    ensures
        states[k].wf(),
        states[k].seen() == k,
        states[k].spec_advice() == Advice::Abstain,
    decreases k,
{
    if k > 0 {
        lemma_sig_abstains_after_restart(states, k - 1);
        assert(sig_fed_at(states, k));
        lemma_sig_keeps_kind(states, k);
    }
    states[k].lemma_abstains_through_maturity();
}

/// The maturity of a signal and whether it waits stay as they were when it
/// was built.
proof fn lemma_sig_keeps_kind<S: Signal>(states: Seq<Sig<S>>, k: int)
    requires
        states.len() > 0,
        forall|i: int| 1 <= i < states.len() ==> #[trigger] sig_fed_at(states, i),
        0 <= k < states.len(),
    ensures
        states[k].spec_maturity() == states[0].spec_maturity(),
        states[k].waits() == states[0].waits(),
    decreases k,
{
    if k > 0 {
        lemma_sig_keeps_kind(states, k - 1);
        assert(sig_fed_at(states, k));
    }
}

/// Whether `after` can be what the signal `before` has become with one more
/// candle, as far as the count of its candles and its waiting go.
pub open spec fn sig_osc_fed<S: Signal, O: Oscillator<Candle = S::Candle>>(
    before: &SigOsc<S, O>,
    after: &SigOsc<S, O>,
) -> bool {
    &&& after.wf()
    &&& after.spec_maturity() == before.spec_maturity()
    &&& after.waits() == before.waits()
    &&& after.seen() == next_clock(before.seen(), before.spec_maturity() + 1)
}

/// Whether the state at place `i` can follow from the one before it.
pub open spec fn sig_osc_fed_at<S: Signal, O: Oscillator<Candle = S::Candle>>(
    states: Seq<SigOsc<S, O>>,
    i: int,
) -> bool {
    sig_osc_fed(&states[i - 1], &states[i])
}

/// A signal with an oscillator that waits and was built anew, as it is at
/// the start of a run and after a restart, abstains on as many candles as its
/// maturity says: `states` holds the signal as it was built and as it was
/// after each candle since.
pub proof fn lemma_sig_osc_abstains_after_restart<S: Signal, O: Oscillator<Candle = S::Candle>>(
    states: Seq<SigOsc<S, O>>,
    k: int,
)
    requires
        states.len() > 0,
        states[0].wf(),
        states[0].seen() == 0,
        states[0].waits(),
        forall|i: int| 1 <= i < states.len() ==> #[trigger] sig_osc_fed_at(states, i),
        0 <= k < states.len(),
        k <= states[0].spec_maturity(),
    ensures
        states[k].wf(),
        states[k].seen() == k,
        states[k].spec_advice() == Advice::Abstain,
    decreases k,
{
    if k > 0 {
        lemma_sig_osc_abstains_after_restart(states, k - 1);
        assert(sig_osc_fed_at(states, k));
        lemma_sig_osc_keeps_kind(states, k);
    }
    states[k].lemma_abstains_through_maturity();
}

/// The maturity of a signal with an oscillator and whether it waits stay as
/// they were when it was built.
proof fn lemma_sig_osc_keeps_kind<S: Signal, O: Oscillator<Candle = S::Candle>>(
    states: Seq<SigOsc<S, O>>,
    k: int,
)
    requires
        states.len() > 0,
        forall|i: int| 1 <= i < states.len() ==> #[trigger] sig_osc_fed_at(states, i),
        0 <= k < states.len(),
    ensures
        states[k].spec_maturity() == states[0].spec_maturity(),
        states[k].waits() == states[0].waits(),
    decreases k,
{
    if k > 0 {
        lemma_sig_osc_keeps_kind(states, k - 1);
        assert(sig_osc_fed_at(states, k));
    }
}

} // verus!
