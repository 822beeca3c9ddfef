//! What a trader does with its position on each candle.
//!
//! A trader holds at most one position. On each candle it first decides
//! whether to leave the position it holds and then, if it holds none, whether
//! to enter one. Both decisions are made here; carrying them out, at the
//! prices and sizes of the market, is the trader's part.

use crate::common::Advice;
use vstd::prelude::*;

verus! {

/// The position that a trader holds.
#[derive(Clone, Copy, Debug, PartialEq, Eq, Structural)]
pub enum PositionState {
    Flat,
    Long,
    Short,
}

/// The side of a position.
#[derive(Clone, Copy, Debug, PartialEq, Eq, Structural)]
pub enum Side {
    Long,
    Short,
}

/// Why a position was closed.
#[derive(Clone, Copy, Debug, PartialEq, Eq, Structural)]
pub enum CloseReason {
    /// The strategy advised against the position.
    Strategy,
    StopLoss,
    TakeProfit,
    /// The run ended while the position was open.
    Cancelled,
}

/// What stop loss and take profit report after a candle.
#[derive(Clone, Copy, Debug, PartialEq, Eq, Structural)]
pub struct Hits {
    /// The stop loss asks to close a long position.
    pub stop_loss_upside: bool,
    /// The stop loss asks to close a short position.
    pub stop_loss_downside: bool,
    /// The take profit asks to close a long position.
    pub take_profit_upside: bool,
    /// The take profit asks to close a short position.
    pub take_profit_downside: bool,
}

/// What a trader does on a candle.
#[derive(Clone, Copy, Debug, PartialEq, Eq, Structural)]
pub struct Decision {
    /// The reason to close the open position, if it is to be closed.
    pub close: Option<CloseReason>,
    /// The side to open a position on, if one is to be opened.
    pub open: Option<Side>,
}

/// Whether the strategy advises against a position in the given state.
pub open spec fn advised_against(state: PositionState, advice: Advice) -> bool {
    match state {
        PositionState::Flat => false,
        PositionState::Long => advice == Advice::Short || advice == Advice::Liquidate,
        PositionState::Short => advice == Advice::Long || advice == Advice::Liquidate,
    }
}

/// The reason to close the position in the given state, if there is one. The
/// advice of the strategy goes before the stop loss, and the stop loss before
/// the take profit.
pub open spec fn exit_reason(state: PositionState, advice: Advice, hits: Hits) -> Option<
    CloseReason,
> {
    let (stop_loss, take_profit) = match state {
        PositionState::Flat => (false, false),
        PositionState::Long => (hits.stop_loss_upside, hits.take_profit_upside),
        PositionState::Short => (hits.stop_loss_downside, hits.take_profit_downside),
    };
    if advised_against(state, advice) {
        Some(CloseReason::Strategy)
    } else if stop_loss {
        Some(CloseReason::StopLoss)
    } else if take_profit {
        Some(CloseReason::TakeProfit)
    } else {
        None
    }
}

/// The side to enter on from the given state, if there is one: a trader that
/// holds no position follows the advice to the side that is enabled.
pub open spec fn entry_side(
    state: PositionState,
    advice: Advice,
    enable_long: bool,
    enable_short: bool,
) -> Option<Side> {
    if state != PositionState::Flat {
        None
    } else if advice == Advice::Long && enable_long {
        Some(Side::Long)
    } else if advice == Advice::Short && enable_short {
        Some(Side::Short)
    } else {
        None
    }
}

/// The state after a position was closed, if there was a reason to.
pub open spec fn after_exit(state: PositionState, close: Option<CloseReason>) -> PositionState {
    if close is Some {
        PositionState::Flat
    } else {
        state
    }
}

/// The state after a position was opened, if one was.
pub open spec fn after_entry(state: PositionState, opened: Option<Side>) -> PositionState {
    match opened {
        Some(Side::Long) => PositionState::Long,
        Some(Side::Short) => PositionState::Short,
        None => state,
    }
}

/// What a trader does on a candle: first the exit, then the entry from the
/// state that the exit leaves.
pub open spec fn decision(
    state: PositionState,
    advice: Advice,
    hits: Hits,
    enable_long: bool,
    enable_short: bool,
) -> Decision {
    let close = exit_reason(state, advice, hits);
    Decision { close, open: entry_side(after_exit(state, close), advice, enable_long, enable_short) }
}

/// The reason to close the position in the given state, if there is one.
pub fn decide_exit(state: PositionState, advice: Advice, hits: Hits) -> (close: Option<CloseReason>)
    ensures
        close == exit_reason(state, advice, hits),
{
    match state {
        PositionState::Flat => None,
        PositionState::Long => {
            if advice == Advice::Short || advice == Advice::Liquidate {
                Some(CloseReason::Strategy)
            } else if hits.stop_loss_upside {
                Some(CloseReason::StopLoss)
            } else if hits.take_profit_upside {
                Some(CloseReason::TakeProfit)
            } else {
                None
            }
        },
        PositionState::Short => {
            if advice == Advice::Long || advice == Advice::Liquidate {
                Some(CloseReason::Strategy)
            } else if hits.stop_loss_downside {
                Some(CloseReason::StopLoss)
            } else if hits.take_profit_downside {
                Some(CloseReason::TakeProfit)
            } else {
                None
            }
        },
    }
}

/// The side to enter on from the given state, if there is one.
pub fn decide_entry(
    state: PositionState,
    advice: Advice,
    enable_long: bool,
    enable_short: bool,
) -> (open: Option<Side>)
    ensures
        open == entry_side(state, advice, enable_long, enable_short),
{
    if state != PositionState::Flat {
        None
    } else if advice == Advice::Long && enable_long {
        Some(Side::Long)
    } else if advice == Advice::Short && enable_short {
        Some(Side::Short)
    } else {
        None
    }
}

/// What a trader does on a candle.
pub fn decide(
    state: PositionState,
    advice: Advice,
    hits: Hits,
    enable_long: bool,
    enable_short: bool,
) -> (r: Decision)
    ensures
        r == decision(state, advice, hits, enable_long, enable_short),
{
    let close = decide_exit(state, advice, hits);
    let state = if close.is_some() {
        PositionState::Flat
    } else {
        state
    };
    Decision { close, open: decide_entry(state, advice, enable_long, enable_short) }
}

/// The state after a decision was carried out. An entry may come to nothing,
/// where the market admits no order of the size at hand: `opened` says
/// whether it was made.
pub fn settle(state: PositionState, decision: Decision, opened: bool) -> (next: PositionState)
    ensures
        next == after_entry(
            after_exit(state, decision.close),
            if opened {
                decision.open
            } else {
                None
            },
        ),
{
    let state = if decision.close.is_some() {
        PositionState::Flat
    } else {
        state
    };
    if opened {
        match decision.open {
            Some(Side::Long) => PositionState::Long,
            Some(Side::Short) => PositionState::Short,
            None => state,
        }
    } else {
        state
    }
}

/// A trader without a position closes nothing, and a trader opens a position
/// only if it holds none once the decision to close is made: at no time is
/// there more than one position.
pub proof fn lemma_one_position_at_a_time(
    state: PositionState,
    advice: Advice,
    hits: Hits,
    enable_long: bool,
    enable_short: bool,
)
    ensures
        ({
            let d = decision(state, advice, hits, enable_long, enable_short);
            &&& state == PositionState::Flat ==> d.close is None
            &&& d.open is Some ==> after_exit(state, d.close) == PositionState::Flat
            &&& d.open == Some(Side::Long) ==> advice == Advice::Long && enable_long
            &&& d.open == Some(Side::Short) ==> advice == Advice::Short && enable_short
        }),
{
}

/// A trader that is advised nothing and whose stop loss and take profit are
/// quiet does nothing. In particular it does nothing on the advice of a
/// strategy that is not mature yet.
pub proof fn lemma_abstain_changes_nothing(
    state: PositionState,
    hits: Hits,
    enable_long: bool,
    enable_short: bool,
)
    requires
        !hits.stop_loss_upside,
        !hits.stop_loss_downside,
        !hits.take_profit_upside,
        !hits.take_profit_downside,
    ensures
        decision(state, Advice::Abstain, hits, enable_long, enable_short) == (Decision {
            close: None,
            open: None,
        }),
{
}

} // verus!
