//! Trading runs: their parameters as one chromosome, what to do about
//! missing candles, and what to do with the position.

pub mod gaps;
pub mod position;
pub mod stop_loss;

use crate::genetics::{determined_by_genes, same_genes, Chromosome};
use crate::random::{gen_range_u32, gen_range_usize, gen_ratio};
use crate::time::{DAY_MS, HOUR_MS};
use rand::rngs::StdRng;
use vstd::prelude::*;

verus! {

/// What a trader does when candles are missing from the stream.
#[derive(Clone, Copy, Debug, PartialEq, Eq, Structural)]
pub enum MissedCandlePolicy {
    /// Carry on as if nothing was missing.
    Ignore,
    /// Start every component afresh.
    Restart,
    /// Fill the gap with the last candle that was seen.
    LastValid,
}

/// The number of missed-candle policies.
pub const MISSED_CANDLE_POLICIES: u32 = 3;

impl MissedCandlePolicy {
    /// The number that stands for the policy in a gene.
    pub open spec fn spec_index(self) -> u32 {
        match self {
            MissedCandlePolicy::Ignore => 0,
            MissedCandlePolicy::Restart => 1,
            MissedCandlePolicy::LastValid => 2,
        }
    }

    /// The number that stands for the policy in a gene.
    pub fn index(self) -> (i: u32)
        ensures
            i == self.spec_index(),
            i < MISSED_CANDLE_POLICIES,
    {
        match self {
            MissedCandlePolicy::Ignore => 0,
            MissedCandlePolicy::Restart => 1,
            MissedCandlePolicy::LastValid => 2,
        }
    }

    /// The policy that `index` stands for.
    pub fn from_index(index: u32) -> (policy: Self)
        requires
            index < MISSED_CANDLE_POLICIES,
        ensures
            policy.spec_index() == index,
    {
        if index == 0 {
            MissedCandlePolicy::Ignore
        } else if index == 1 {
            MissedCandlePolicy::Restart
        } else {
            MissedCandlePolicy::LastValid
        }
    }
}

/// A missed-candle policy, as the number that stands for it: one of `0..3`.
pub fn missed_candle_policy(rng: &mut StdRng) -> (r: u32)
    ensures
        r < MISSED_CANDLE_POLICIES,
{
    gen_range_u32(rng, 0, 3)
}

/// Whether a stop loss trails the price: yes or no, each as likely as the
/// other.
pub fn trail_stop_loss(rng: &mut StdRng) -> bool {
    gen_ratio(rng, 1, 2)
}

/// The intervals that a search runs a trader on.
pub const INTERVALS: [u64; 7] = [
    HOUR_MS,
    2 * HOUR_MS,
    4 * HOUR_MS,
    6 * HOUR_MS,
    8 * HOUR_MS,
    12 * HOUR_MS,
    DAY_MS,
];

/// Whether `value` is a gene that stands for an interval: one of `INTERVALS`.
pub open spec fn interval_gene_ok(value: int) -> bool {
    exists|k: int| 0 <= k < INTERVALS@.len() && #[trigger] INTERVALS@[k] == value
}

/// One of `INTERVALS`.
pub fn gen_interval(rng: &mut StdRng) -> (r: u64)
    ensures
        interval_gene_ok(r as int),
{
    let k = gen_range_usize(rng, 0, INTERVALS.len());
    INTERVALS[k]
}

/// The parameters of a trader: the interval of the candles it is run on, and
/// what it does about missing candles, as the number that stands for the
/// policy.
#[derive(Clone, Copy, Debug, PartialEq, Eq, Structural)]
pub struct TraderParams {
    pub interval: u64,
    pub missed_candle_policy: u32,
}

impl Chromosome for TraderParams {
    open spec fn spec_len() -> nat {
        2
    }

    open spec fn gene(&self, i: int) -> int {
        if i == 0 {
            self.interval as int
        } else {
            self.missed_candle_policy as int
        }
    }

    open spec fn gene_ok(i: int, value: int) -> bool {
        if i == 0 {
            interval_gene_ok(value)
        } else {
            0 <= value < MISSED_CANDLE_POLICIES
        }
    }

    fn len() -> (n: usize) {
        2
    }

    fn generate(rng: &mut StdRng) -> (c: Self) {
        let interval = gen_interval(rng);
        let missed_candle_policy = missed_candle_policy(rng);
        Self { interval, missed_candle_policy }
    }

    fn cross(&mut self, parent: &Self, i: usize) {
        if i == 0 {
            self.interval = parent.interval;
        } else {
            self.missed_candle_policy = parent.missed_candle_policy;
        }
    }

    fn mutate(&mut self, rng: &mut StdRng, i: usize) {
        if i == 0 {
            self.interval = gen_interval(rng);
        } else {
            self.missed_candle_policy = missed_candle_policy(rng);
        }
    }
}

impl TraderParams {
    /// What the trader does about missing candles.
    pub fn policy(&self) -> (policy: MissedCandlePolicy)
        requires
            self.missed_candle_policy < MISSED_CANDLE_POLICIES,
        ensures
            policy.spec_index() == self.missed_candle_policy,
    {
        MissedCandlePolicy::from_index(self.missed_candle_policy)
    }
}

/// The record is nothing but its genes.
pub proof fn lemma_trader_params_determined()
    ensures
        determined_by_genes::<TraderParams>(),
{
    assert forall|a: TraderParams, b: TraderParams| #[trigger] same_genes(&a, &b) implies a
        == b by {
        assert(a.gene(0) == b.gene(0));
        assert(a.gene(1) == b.gene(1));
    }
}

/// Everything that a trading run is parameterised by: the parameters of the
/// trader, of the strategy, of the stop loss and of the take profit, in this
/// order.
#[derive(Copy, Debug)]
pub struct TradingParams<T: Chromosome, S: Chromosome, L: Chromosome, P: Chromosome> {
    pub trader: T,
    pub strategy: S,
    pub stop_loss: L,
    pub take_profit: P,
}

impl<T: Chromosome, S: Chromosome, L: Chromosome, P: Chromosome> Clone for TradingParams<T, S, L, P> {
    fn clone(&self) -> (r: Self)
        ensures
            r == *self,
    {
        *self
    }
}

impl<T: Chromosome, S: Chromosome, L: Chromosome, P: Chromosome> Chromosome for TradingParams<
    T,
    S,
    L,
    P,
> {
    open spec fn spec_len() -> nat {
        T::spec_len() + S::spec_len() + L::spec_len() + P::spec_len()
    }

    open spec fn gene(&self, i: int) -> int {
        if i < T::spec_len() {
            self.trader.gene(i)
        } else if i < T::spec_len() + S::spec_len() {
            self.strategy.gene(i - T::spec_len())
        } else if i < T::spec_len() + S::spec_len() + L::spec_len() {
            self.stop_loss.gene(i - T::spec_len() - S::spec_len())
        } else {
            self.take_profit.gene(i - T::spec_len() - S::spec_len() - L::spec_len())
        }
    }

    open spec fn gene_ok(i: int, value: int) -> bool {
        if i < T::spec_len() {
            T::gene_ok(i, value)
        } else if i < T::spec_len() + S::spec_len() {
            S::gene_ok(i - T::spec_len(), value)
        } else if i < T::spec_len() + S::spec_len() + L::spec_len() {
            L::gene_ok(i - T::spec_len() - S::spec_len(), value)
        } else {
            P::gene_ok(i - T::spec_len() - S::spec_len() - L::spec_len(), value)
        }
    }

    fn len() -> (n: usize) {
        T::len() + S::len() + L::len() + P::len()
    }

    fn generate(rng: &mut StdRng) -> (c: Self) {
        let trader = T::generate(rng);
        let strategy = S::generate(rng);
        let stop_loss = L::generate(rng);
        let take_profit = P::generate(rng);
        let c = Self { trader, strategy, stop_loss, take_profit };
        proof {
            let t = T::spec_len() as int;
            let s = t + S::spec_len();
            let l = s + L::spec_len();
            assert forall|i: int| 0 <= i < Self::spec_len() implies #[trigger] Self::gene_ok(
                i,
                c.gene(i),
            ) by {
                if i < t {
                    assert(T::gene_ok(i, c.trader.gene(i)));
                } else if i < s {
                    assert(S::gene_ok(i - t, c.strategy.gene(i - t)));
                } else if i < l {
                    assert(L::gene_ok(i - s, c.stop_loss.gene(i - s)));
                } else {
                    assert(P::gene_ok(i - l, c.take_profit.gene(i - l)));
                }
            }
        }
        c
    }

    fn cross(&mut self, parent: &Self, i: usize) {
        let t = T::len();
        let s = S::len();
        let l = L::len();
        if i < t {
            self.trader.cross(&parent.trader, i);
        } else if i - t < s {
            self.strategy.cross(&parent.strategy, i - t);
        } else if i - t - s < l {
            self.stop_loss.cross(&parent.stop_loss, i - t - s);
        } else {
            self.take_profit.cross(&parent.take_profit, i - t - s - l);
        }
        proof {
            assert forall|j: int| 0 <= j < Self::spec_len() implies #[trigger] self.gene(j) == if j
                == i {
                parent.gene(j)
            } else {
                old(self).gene(j)
            } by {
                if j < t {
                    let _ = self.trader.gene(j);
                } else if j - t < s {
                    let _ = self.strategy.gene(j - t);
                } else if j - t - s < l {
                    let _ = self.stop_loss.gene(j - t - s);
                } else {
                    let _ = self.take_profit.gene(j - t - s - l);
                }
            }
        }
    }

    fn mutate(&mut self, rng: &mut StdRng, i: usize) {
        let t = T::len();
        let s = S::len();
        let l = L::len();
        if i < t {
            self.trader.mutate(rng, i);
        } else if i - t < s {
            self.strategy.mutate(rng, i - t);
        } else if i - t - s < l {
            self.stop_loss.mutate(rng, i - t - s);
        } else {
            self.take_profit.mutate(rng, i - t - s - l);
        }
        proof {
            assert forall|j: int| 0 <= j < Self::spec_len() && j != i implies #[trigger] self.gene(
                j,
            ) == old(self).gene(j) by {
                if j < t {
                    let _ = self.trader.gene(j);
                } else if j - t < s {
                    let _ = self.strategy.gene(j - t);
                } else if j - t - s < l {
                    let _ = self.stop_loss.gene(j - t - s);
                } else {
                    let _ = self.take_profit.gene(j - t - s - l);
                }
            }
        }
    }
}

} // verus!
