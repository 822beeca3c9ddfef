//! Values shared by every part of the engine.

use vstd::prelude::*;

verus! {

/// What a strategy recommends after a candle.
///
/// `Abstain` stands for "no opinion": the strategy is not mature yet, or its
/// filters withhold the signal. `Liquidate` asks to leave any open position
/// without opening a new one.
#[derive(Clone, Copy, Debug, PartialEq, Eq, Structural)]
pub enum Advice {
    Abstain,
    Long,
    Short,
    Liquidate,
}

} // verus!
