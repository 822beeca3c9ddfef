//! The contract of a stop loss, and the stop loss that never triggers.

use crate::genetics::Chromosome;
use rand::rngs::StdRng;
use vstd::prelude::*;

verus! {

/// A rule that closes a position when the price has moved too far against
/// it. It is cleared with the candle on which a position opens and updated
/// with every candle after that.
///
/// A rule that overrides nothing never triggers.
pub trait StopLoss: Sized {
    type Params: Chromosome;

    /// What the rule is fed.
    type Candle;

    fn new(params: &Self::Params) -> Self;

    /// Whether a long position is to be closed.
    fn upside_hit(&self) -> (hit: bool)
        default_ensures
            !hit,
    {
        false
    }

    /// Whether a short position is to be closed.
    fn downside_hit(&self) -> (hit: bool)
        default_ensures
            !hit,
    {
        false
    }

    fn clear(&mut self, candle: &Self::Candle)
        default_ensures
            *final(self) == *old(self),
    {
    }

    fn update(&mut self, candle: &Self::Candle)
        default_ensures
            *final(self) == *old(self),
    {
    }
}

/// The parameters of a rule that does nothing: there are none.
#[derive(Clone, Copy, Debug, PartialEq, Eq, Structural)]
pub struct NoopTakeProfitParams {}

impl Chromosome for NoopTakeProfitParams {
    open spec fn spec_len() -> nat {
        0
    }

    open spec fn gene(&self, i: int) -> int {
        0
    }

    open spec fn gene_ok(i: int, value: int) -> bool {
        false
    }

    fn len() -> (n: usize) {
        0
    }

    fn generate(rng: &mut StdRng) -> (c: Self) {
        Self {  }
    }

    fn cross(&mut self, parent: &Self, i: usize) {
    }

    fn mutate(&mut self, rng: &mut StdRng, i: usize) {
    }
}

/// The stop loss that never triggers, on candles of type `K`.
pub struct NoopStopLoss<K> {
    candle: core::marker::PhantomData<K>,
}

impl<K> StopLoss for NoopStopLoss<K> {
    type Params = NoopTakeProfitParams;

    type Candle = K;

    fn new(params: &Self::Params) -> Self {
        Self { candle: core::marker::PhantomData }
    }
}

} // verus!
