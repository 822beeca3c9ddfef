//! Modifiers that turn a raw stream of advice into one that is safe to trade
//! on: `MidTrend` withholds a trend that was already under way at the start,
//! `Persistence` debounces, `Changed` keeps only the transitions, and
//! `combine` merges the verdicts of two filters.

use crate::common::Advice;
use vstd::prelude::*;

verus! {

/// How a strategy treats the trend it finds itself in when it starts.
#[derive(Clone, Copy, Debug, PartialEq, Eq, Structural)]
pub enum MidTrendPolicy {
    /// Act on the current trend at once.
    Current,
    /// Reserved for acting on the trend that preceded the start; it passes
    /// advice through like `Current` but takes one candle to mature.
    Previous,
    /// Stay out until the advice changes for the first time.
    Ignore,
}

impl MidTrendPolicy {
    /// The place of the policy among the three.
    pub open spec fn index(self) -> int {
        match self {
            MidTrendPolicy::Current => 0,
            MidTrendPolicy::Previous => 1,
            MidTrendPolicy::Ignore => 2,
        }
    }
}

/// The abstract state of a `MidTrend`.
pub struct MidTrendView {
    pub policy: MidTrendPolicy,
    /// The first advice that was observed, once there is one.
    pub previous: Option<Advice>,
    /// Whether the filter still withholds advice.
    pub enabled: bool,
}

impl MidTrendView {
    /// Whether advice passes through unchanged in this state.
    pub open spec fn transparent(self) -> bool {
        !self.enabled || self.policy != MidTrendPolicy::Ignore
    }

    /// The advice emitted when `value` is observed in this state.
    pub open spec fn emit(self, value: Advice) -> Advice {
        if self.transparent() {
            value
        } else if self.previous is Some && self.previous != Some(value) {
            value
        } else {
            Advice::Abstain
        }
    }

    /// The state after `value` was observed in this state.
    pub open spec fn next(self, value: Advice) -> MidTrendView {
        if self.transparent() {
            self
        } else if self.previous is None {
            MidTrendView { previous: Some(value), ..self }
        } else if self.previous != Some(value) {
            MidTrendView { enabled: false, ..self }
        } else {
            self
        }
    }

    /// The number of candles before the filter's output is meaningful.
    pub open spec fn maturity(self) -> nat {
        if self.policy == MidTrendPolicy::Current {
            0
        } else {
            1
        }
    }

    /// The state of a filter that has seen nothing yet.
    pub open spec fn initial(policy: MidTrendPolicy) -> MidTrendView {
        MidTrendView { policy, previous: None, enabled: true }
    }
}

/// Withholds advice until the trend that was under way at the start has
/// ended, when the policy is `Ignore`; otherwise passes advice through.
pub struct MidTrend {
    policy: MidTrendPolicy,
    previous: Option<Advice>,
    enabled: bool,
}

impl View for MidTrend {
    type V = MidTrendView;

    closed spec fn view(&self) -> MidTrendView {
        MidTrendView { policy: self.policy, previous: self.previous, enabled: self.enabled }
    }
}

impl MidTrend {
    pub fn new(policy: MidTrendPolicy) -> (r: Self)
        ensures
            r@ == MidTrendView::initial(policy),
    {
        Self { policy, previous: None, enabled: true }
    }

    pub fn maturity(&self) -> (m: u32)
        ensures
            m == self@.maturity(),
    {
        if self.policy == MidTrendPolicy::Current {
            0
        } else {
            1
        }
    }

    /// Observes `value` and returns the advice to act on.
    pub fn update(&mut self, value: Advice) -> (r: Advice)
        ensures
            r == old(self)@.emit(value),
            final(self)@ == old(self)@.next(value),
    {
        if !self.enabled || self.policy != MidTrendPolicy::Ignore {
            return value;
        }
        let mut result = Advice::Abstain;
        match self.previous {
            None => {
                self.previous = Some(value);
            },
            Some(first) => {
                if value != first {
                    self.enabled = false;
                    result = value;
                }
            },
        }
        result
    }
}

/// The abstract state of a `Persistence`.
pub struct PersistenceView {
    /// For how many updates in a row the candidate has been observed, counted
    /// up to `level`.
    pub age: nat,
    /// For how many further updates an advice must hold before it is emitted.
    pub level: nat,
    /// Whether the last confirmed advice is repeated while a candidate waits.
    pub return_previous: bool,
    /// The candidate: the advice observed last.
    pub potential: Advice,
    /// The advice confirmed last.
    pub previous: Advice,
}

impl PersistenceView {
    /// The state of a filter that has seen nothing yet.
    pub open spec fn initial(level: nat, return_previous: bool) -> PersistenceView {
        PersistenceView {
            age: 0,
            level,
            return_previous,
            potential: Advice::Abstain,
            previous: Advice::Abstain,
        }
    }

    /// For how many earlier updates in a row `value` has been the candidate.
    pub open spec fn held(self, value: Advice) -> nat {
        if value != self.potential {
            0
        } else {
            self.age
        }
    }

    /// The advice emitted when `value` is observed in this state.
    pub open spec fn emit(self, value: Advice) -> Advice {
        if self.level == 0 || self.held(value) >= self.level {
            value
        } else if self.return_previous {
            self.previous
        } else {
            Advice::Abstain
        }
    }

    /// The state after `value` was observed in this state.
    pub open spec fn next(self, value: Advice) -> PersistenceView {
        if self.level == 0 {
            self
        } else {
            PersistenceView {
                age: if self.held(value) < self.level {
                    self.held(value) + 1
                } else {
                    self.level
                },
                potential: value,
                previous: if self.held(value) >= self.level {
                    value
                } else {
                    self.previous
                },
                ..self
            }
        }
    }
}

/// Debounces advice: a value is emitted once it has been observed on
/// `level + 1` updates in a row.
pub struct Persistence {
    age: u32,
    level: u32,
    return_previous: bool,
    potential: Advice,
    previous: Advice,
}

impl View for Persistence {
    type V = PersistenceView;

    closed spec fn view(&self) -> PersistenceView {
        PersistenceView {
            age: self.age as nat,
            level: self.level as nat,
            return_previous: self.return_previous,
            potential: self.potential,
            previous: self.previous,
        }
    }
}

impl Persistence {
    #[verifier::type_invariant]
    spec fn age_within_level(self) -> bool {
        self.age <= self.level
    }

    pub fn new(level: u32, return_previous: bool) -> (r: Self)
        ensures
            r@ == PersistenceView::initial(level as nat, return_previous),
    {
        Self {
            age: 0,
            level,
            return_previous,
            potential: Advice::Abstain,
            previous: Advice::Abstain,
        }
    }

    pub fn maturity(&self) -> (m: u32)
        ensures
            m == self@.level,
    {
        self.level
    }

    /// Observes `value` and returns the advice to act on.
    pub fn update(&mut self, value: Advice) -> (r: Advice)
        ensures
            r == old(self)@.emit(value),
            final(self)@ == old(self)@.next(value),
    {
        proof {
            use_type_invariant(&*self);
        }
        if self.level == 0 {
            return value;
        }
        if value != self.potential {
            self.age = 0;
            self.potential = value;
        }
        let result = if self.age >= self.level {
            self.previous = self.potential;
            self.potential
        } else if self.return_previous {
            self.previous
        } else {
            Advice::Abstain
        };
        if self.age < self.level {
            self.age = self.age + 1;
        }
        result
    }
}

/// The abstract state of a `Changed`.
pub struct ChangedView {
    /// The advice observed on the previous update.
    pub previous: Advice,
    pub enabled: bool,
}

impl ChangedView {
    /// The state of a filter that has seen nothing yet.
    pub open spec fn initial(enabled: bool) -> ChangedView {
        ChangedView { previous: Advice::Abstain, enabled }
    }

    /// The advice emitted when `value` is observed in this state.
    pub open spec fn emit(self, value: Advice) -> Advice {
        if !self.enabled || value != self.previous {
            value
        } else {
            Advice::Abstain
        }
    }

    /// The state after `value` was observed in this state.
    pub open spec fn next(self, value: Advice) -> ChangedView {
        if self.enabled {
            ChangedView { previous: value, ..self }
        } else {
            self
        }
    }
}

/// Keeps the transitions of a stream of advice: a value is emitted when it
/// differs from the one observed just before it, and `Abstain` otherwise.
pub struct Changed {
    previous: Advice,
    enabled: bool,
}

impl View for Changed {
    type V = ChangedView;

    closed spec fn view(&self) -> ChangedView {
        ChangedView { previous: self.previous, enabled: self.enabled }
    }
}

impl Changed {
    pub fn new(enabled: bool) -> (r: Self)
        ensures
            r@ == ChangedView::initial(enabled),
    {
        Self { previous: Advice::Abstain, enabled }
    }

    pub fn maturity(&self) -> (m: u32)
        ensures
            m == 0,
    {
        0
    }

    /// Observes `value` and returns the advice to act on.
    pub fn update(&mut self, value: Advice) -> (r: Advice)
        ensures
            r == old(self)@.emit(value),
            final(self)@ == old(self)@.next(value),
    {
        if !self.enabled {
            return value;
        }
        let result = if value != self.previous {
            value
        } else {
            Advice::Abstain
        };
        self.previous = value;
        result
    }
}

/// The maturity of a mid-trend filter and a persistence filter side by side:
/// that of the slower one.
pub open spec fn filters_maturity(policy: MidTrendPolicy, level: u32) -> nat {
    let mid_trend = MidTrendView::initial(policy).maturity();
    if mid_trend >= level {
        mid_trend
    } else {
        level as nat
    }
}

/// Whether a source of the given maturity and the two filters behind it make
/// a strategy: their maturities add up to at least one candle and to no more
/// than a counter of candles holds.
pub open spec fn maturities_fit(source: nat, policy: MidTrendPolicy, level: u32) -> bool {
    1 <= source + filters_maturity(policy, level) <= u32::MAX + 1
}

/// Whether a source of the given maturity and the two filters behind it make
/// a strategy.
pub fn maturities_add_up(source: u32, policy: MidTrendPolicy, level: u32) -> (ok: bool)
    ensures
        ok == maturities_fit(source as nat, policy, level),
{
    let mid_trend: u32 = match policy {
        MidTrendPolicy::Current => 0,
        _ => 1,
    };
    let filters = if mid_trend >= level {
        mid_trend
    } else {
        level
    };
    if filters == 0 {
        source >= 1
    } else {
        source <= u32::MAX - (filters - 1)
    }
}

/// What a mid-trend filter and a persistence filter make of `advice`
/// together: each sees it, and their verdicts are combined.
pub open spec fn filtered(
    mid_trend: MidTrendView,
    persistence: PersistenceView,
    advice: Advice,
) -> Advice {
    combine_spec(mid_trend.emit(advice), persistence.emit(advice))
}

/// Shows `advice` to both filters and combines their verdicts.
pub fn filter_advice(
    mid_trend: &mut MidTrend,
    persistence: &mut Persistence,
    advice: Advice,
) -> (r: Advice)
    ensures
        r == filtered(old(mid_trend)@, old(persistence)@, advice),
        final(mid_trend)@ == old(mid_trend)@.next(advice),
        final(persistence)@ == old(persistence)@.next(advice),
{
    let first = mid_trend.update(advice);
    let second = persistence.update(advice);
    combine(first, second)
}

/// Merges the advice of two filters: `Abstain` from either side wins, agreement
/// passes through, and disagreement means `Liquidate`.
pub open spec fn combine_spec(advice1: Advice, advice2: Advice) -> Advice {
    if advice1 == Advice::Abstain || advice2 == Advice::Abstain {
        Advice::Abstain
    } else if advice1 == advice2 {
        advice1
    } else {
        Advice::Liquidate
    }
}

pub fn combine(advice1: Advice, advice2: Advice) -> (r: Advice)
    ensures
        r == combine_spec(advice1, advice2),
{
    if advice1 == Advice::Abstain || advice2 == Advice::Abstain {
        Advice::Abstain
    } else if advice1 == advice2 {
        advice1
    } else {
        Advice::Liquidate
    }
}

} // verus!
