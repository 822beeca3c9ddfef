//! Candles that are missing from a stream.
//!
//! A candle covers one interval and carries the time at which the interval
//! starts. Two candles follow each other without a gap when their intervals
//! do.

use crate::math::{
    ceil_multiple, ceil_multiple_spec, floor_multiple, floor_multiple_spec,
    lemma_ceil_multiple_bounds, lemma_floor_multiple_bounds,
};
use crate::trading::MissedCandlePolicy;
use vstd::prelude::*;

verus! {

/// The number of candles that are missing between a candle at `last` and a
/// candle at `time`: the intervals that lie between the two.
pub open spec fn missed(last: nat, time: nat, interval: nat) -> nat {
    let from = floor_multiple_spec(last, interval);
    let to = floor_multiple_spec(time, interval);
    if to > from + interval {
        ((to - from) / (interval as int) - 1) as nat
    } else {
        0
    }
}

/// The start of the `nth` interval after the one of the candle at `last`,
/// counted from one.
pub open spec fn missed_time(last: nat, interval: nat, nth: nat) -> nat {
    floor_multiple_spec(last, interval) + nth * interval
}

/// What a trader does before it takes up a candle.
#[derive(Clone, Copy, Debug, PartialEq, Eq, Structural)]
pub enum GapAction {
    /// Nothing: no candle is missing, or missing candles are ignored.
    Proceed,
    /// Start every component afresh.
    Restart,
    /// Make up this number of candles from the last one.
    Fill(u64),
}

/// What the policy asks for when `count` candles are missing.
pub open spec fn gap_action(policy: MissedCandlePolicy, count: nat) -> GapAction {
    if count == 0 {
        GapAction::Proceed
    } else {
        match policy {
            MissedCandlePolicy::Ignore => GapAction::Proceed,
            MissedCandlePolicy::Restart => GapAction::Restart,
            MissedCandlePolicy::LastValid => GapAction::Fill(count as u64),
        }
    }
}

/// The number of candles that are missing between a candle at `last` and a
/// candle at `time`.
pub fn missed_candles(last: u64, time: u64, interval: u64) -> (count: u64)
    requires
        interval > 0,
    ensures
        count == missed(last as nat, time as nat, interval as nat),
        count > 0 ==> last < time,
        count * interval <= time,
{
    let from = floor_multiple(last, interval);
    let to = floor_multiple(time, interval);
    proof {
        lemma_floor_multiple_bounds(last as nat, interval as nat);
        lemma_floor_multiple_bounds(time as nat, interval as nat);
    }
    if to <= from || to - from <= interval {
        assert(0 * interval == 0);
        0
    } else {
        let steps = (to - from) / interval;
        proof {
            let d = (to - from) as int;
            let i = interval as int;
            vstd::arithmetic::div_mod::lemma_fundamental_div_mod(d, i);
            assert(steps >= 1) by {
                vstd::arithmetic::div_mod::lemma_div_is_ordered(i, d, i);
                vstd::arithmetic::div_mod::lemma_div_basics(i);
            }
            assert((steps - 1) * i <= d) by (nonlinear_arith)
                requires
                    d == i * (d / i) + d % i,
                    0 <= d % i,
                    steps == d / i,
                    i > 0,
            ;
        }
        let count = steps - 1;
        assert(count * interval <= time);
        count
    }
}

/// What the policy asks for before the candle at `time` is taken up, when
/// the candle before it was the one at `last`.
pub fn on_candle(policy: MissedCandlePolicy, last: u64, time: u64, interval: u64) -> (action:
    GapAction)
    requires
        interval > 0,
    ensures
        action == gap_action(policy, missed(last as nat, time as nat, interval as nat)),
{
    let count = missed_candles(last, time, interval);
    if count == 0 {
        GapAction::Proceed
    } else {
        match policy {
            MissedCandlePolicy::Ignore => GapAction::Proceed,
            MissedCandlePolicy::Restart => GapAction::Restart,
            MissedCandlePolicy::LastValid => GapAction::Fill(count),
        }
    }
}

/// The time of the `nth` of the candles that are missing between a candle at
/// `last` and a candle at `time`, counted from one.
pub fn missed_candle_time(last: u64, time: u64, interval: u64, nth: u64) -> (at: u64)
    requires
        interval > 0,
        1 <= nth <= missed(last as nat, time as nat, interval as nat),
    ensures
        at == missed_time(last as nat, interval as nat, nth as nat),
        at % interval == 0,
        last < at < time,
{
    let from = floor_multiple(last, interval);
    proof {
        lemma_missed_times(last as nat, time as nat, interval as nat, nth as nat);
    }
    from + nth * interval
}

/// The missing candles lie on the grid of the interval, strictly between the
/// candle before the gap and the candle after it, in rising order.
pub proof fn lemma_missed_times(last: nat, time: nat, interval: nat, nth: nat)
    requires
        interval > 0,
        1 <= nth <= missed(last, time, interval),
    ensures
        missed_time(last, interval, nth) % interval == 0,
        last < missed_time(last, interval, nth),
        missed_time(last, interval, nth) < floor_multiple_spec(time, interval) <= time,
        missed_time(last, interval, nth) == missed_time(last, interval, (nth - 1) as nat)
            + interval,
        nth * interval <= time,
{
    lemma_floor_multiple_bounds(last, interval);
    lemma_floor_multiple_bounds(time, interval);
    let from = floor_multiple_spec(last, interval) as int;
    let to = floor_multiple_spec(time, interval) as int;
    let i = interval as int;
    let d = to - from;
    let n = nth as int;
    vstd::arithmetic::div_mod::lemma_fundamental_div_mod(d, i);
    assert(to > from + i);
    assert(d / i >= 1) by {
        vstd::arithmetic::div_mod::lemma_div_is_ordered(i, d, i);
        vstd::arithmetic::div_mod::lemma_div_basics(i);
    }
    assert(missed(last, time, interval) == d / i - 1);
    assert((n + 1) * i <= d) by (nonlinear_arith)
        requires
            d == i * (d / i) + d % i,
            0 <= d % i,
            n + 1 <= d / i,
            i > 0,
    ;
    assert((n + 1) * i == n * i + i) by (nonlinear_arith);
    assert(n * i >= i) by (nonlinear_arith)
        requires
            n >= 1,
            i > 0,
    ;
    assert((n - 1) * i + i == n * i) by (nonlinear_arith);
    vstd::arithmetic::div_mod::lemma_mod_multiples_basic(n, i);
    assert((from + n * i) % i == 0) by {
        vstd::arithmetic::div_mod::lemma_mod_adds(from, n * i, i);
    }
}

/// Whether the times rise strictly from one to the next.
pub open spec fn rising(times: Seq<u64>) -> bool {
    forall|i: int, j: int| 0 <= i < j < times.len() ==> times[i] < times[j]
}

/// One place of a stream without gaps, and the candle that belongs there.
#[derive(Clone, Copy, Debug, PartialEq, Eq, Structural)]
pub struct Slot {
    /// The time of the place.
    pub time: u64,
    /// The index of the candle for the place.
    pub source: usize,
    /// Whether the candle is a stand-in: there is none at this time, and the
    /// source is the last one before it, or the first of all if none is
    /// before it.
    pub filled: bool,
}

/// The time of the first place of the stream that covers `start..end`.
pub open spec fn grid_start(start: nat, interval: nat) -> nat {
    ceil_multiple_spec(start, interval)
}

/// The number of places of the stream that covers `start..end`.
pub open spec fn grid_len(start: nat, end: nat, interval: nat) -> nat {
    let from = grid_start(start, interval);
    let to = floor_multiple_spec(end, interval);
    if to > from {
        ((to - from) / (interval as int)) as nat
    } else {
        0
    }
}

/// Whether `slot` names the right candle among those at `times`.
pub open spec fn slot_ok(times: Seq<u64>, slot: Slot) -> bool {
    &&& slot.source < times.len()
    &&& !slot.filled ==> times[slot.source as int] == slot.time
    &&& slot.filled ==> {
        &&& forall|j: int| 0 <= j < times.len() ==> times[j] != slot.time
        &&& times[slot.source as int] < slot.time || slot.source == 0
        &&& forall|j: int| slot.source < j < times.len() ==> times[j] > slot.time
    }
}

/// The stream without gaps that covers `start..end`: one place for each
/// multiple of the interval from `start` on that lies before the last one
/// up to `end`, each with the candle at its time or, where that is missing,
/// the last candle before it.
pub fn fill_plan(times: &Vec<u64>, interval: u64, start: u64, end: u64) -> (plan: Vec<Slot>)
    requires
        interval > 0,
        times@.len() > 0,
        rising(times@),
        start + interval - 1 <= u64::MAX,
    ensures
        plan@.len() == grid_len(start as nat, end as nat, interval as nat),
        forall|k: int|
            0 <= k < plan@.len() ==> (#[trigger] plan@[k]).time == grid_start(
                start as nat,
                interval as nat,
            ) + k * interval,
        forall|k: int| 0 <= k < plan@.len() ==> slot_ok(times@, #[trigger] plan@[k]),
{
    proof {
        lemma_ceil_multiple_bounds(start as nat, interval as nat);
        lemma_floor_multiple_bounds(end as nat, interval as nat);
    }
    let from = ceil_multiple(start, interval);
    let to = floor_multiple(end, interval);
    let mut plan: Vec<Slot> = Vec::new();
    let mut next: usize = 0;
    let mut time = from;
    if to <= from {
        return plan;
    }
    proof {
        lemma_grid(from as int, to as int, interval as int, 0);
    }
    while time < to
        invariant
            interval > 0,
            rising(times@),
            times@.len() > 0,
            from < to,
            from % interval == 0,
            to % interval == 0,
            from == grid_start(start as nat, interval as nat),
            (to - from) / (interval as int) == grid_len(start as nat, end as nat, interval as nat),
            next <= times@.len(),
            time == from + plan@.len() * interval,
            from <= time <= to,
            plan@.len() <= (to - from) / (interval as int),
            time == to <==> plan@.len() == (to - from) / (interval as int),
            forall|j: int| 0 <= j < next ==> times@[j] < time,
            forall|k: int| 0 <= k < plan@.len() ==> (#[trigger] plan@[k]).time == from + k * interval,
            forall|k: int| 0 <= k < plan@.len() ==> slot_ok(times@, #[trigger] plan@[k]),
        decreases to - time,
    {
        while next < times.len() && times[next] < time
            invariant
                next <= times@.len(),
                forall|j: int| 0 <= j < next ==> times@[j] < time,
            decreases times@.len() - next,
        {
            next = next + 1;
        }
        let slot = if next < times.len() && times[next] == time {
            let slot = Slot { time, source: next, filled: false };
            next = next + 1;
            slot
        } else {
            let source = if next > 0 {
                next - 1
            } else {
                0
            };
            proof {
                assert forall|j: int| 0 <= j < times@.len() implies times@[j] != time by {
                    if j >= next {
                        assert(times@[next as int] > time);
                    }
                }
            }
            Slot { time, source, filled: true }
        };
        let ghost before = plan@;
        plan.push(slot);
        proof {
            lemma_grid(from as int, to as int, interval as int, before.len() as int);
            lemma_grid(from as int, to as int, interval as int, before.len() as int + 1);
            assert forall|k: int| 0 <= k < plan@.len() implies (#[trigger] plan@[k]).time == from
                + k * interval by {
                if k < before.len() {
                    assert(plan@[k] == before[k]);
                }
            }
            assert forall|k: int| 0 <= k < plan@.len() implies slot_ok(
                times@,
                #[trigger] plan@[k],
            ) by {
                if k < before.len() {
                    assert(plan@[k] == before[k]);
                }
            }
        }
        time = time + interval;
    }
    plan
}

/// On the way from one multiple of the interval to a later one, place `k` is
/// at least one interval short of the end as long as it is short of it at
/// all, and the end is reached after as many places as there are intervals
/// in between.
proof fn lemma_grid(from: int, to: int, interval: int, k: int)
    requires
        interval > 0,
        0 <= from < to,
        from % interval == 0,
        to % interval == 0,
        0 <= k,
        from + k * interval <= to,
    ensures
        (to - from) / interval >= 1,
        k <= (to - from) / interval,
        from + k * interval == to <==> k == (to - from) / interval,
        from + k * interval < to ==> from + (k + 1) * interval <= to,
        (k + 1) * interval == k * interval + interval,
{
    let d = to - from;
    let n = d / interval;
    vstd::arithmetic::div_mod::lemma_fundamental_div_mod(from, interval);
    vstd::arithmetic::div_mod::lemma_fundamental_div_mod(to, interval);
    let a = from / interval;
    let b = to / interval;
    assert(d == (b - a) * interval) by (nonlinear_arith)
        requires
            from == interval * a,
            to == interval * b,
            d == to - from,
    ;
    vstd::arithmetic::div_mod::lemma_div_multiples_vanish(b - a, interval);
    assert(n == b - a);
    assert((k + 1) * interval == k * interval + interval) by (nonlinear_arith);
    assert(k <= n) by (nonlinear_arith)
        requires
            d == n * interval,
            k * interval <= d,
            interval > 0,
    ;
    assert(k == n <==> k * interval == d) by (nonlinear_arith)
        requires
            d == n * interval,
            interval > 0,
    ;
    assert(k < n ==> (k + 1) * interval <= d) by (nonlinear_arith)
        requires
            d == n * interval,
            interval > 0,
    ;
    assert(n >= 1) by (nonlinear_arith)
        requires
            d == n * interval,
            d > 0,
            interval > 0,
    ;
}

} // verus!
