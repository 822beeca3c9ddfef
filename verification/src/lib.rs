//! Building blocks of a candle-by-candle backtesting and strategy-optimisation
//! engine: integer time arithmetic, trading advice and the signal modifiers
//! that debounce it, composite signal strategies, the decisions of a trader
//! about its position, and gene-indexed parameter records together with the
//! evolutionary search that breeds them.
//!
//! Prices, fees and fitness values are floating-point quantities and stay
//! outside: the crate works on what can be decided from integers,
//! enumerations and the order between fitness scores. Raw signals,
//! oscillators and evaluations come from outside as implementations of the
//! traits declared here.
//!
//! The functions of this crate carry contracts, and the contracts are proved.
//! What is taken on trust says so where it stands: the draws of the random
//! generator in `random`, and the readings of the clock in
//! `genetics::timings`.

pub mod common;
pub mod genetics;
pub mod indicators;
pub mod math;
pub mod random;
pub mod strategies;
pub mod symbol;
pub mod text;
pub mod time;
pub mod trading;

pub use common::Advice;
pub use symbol::SymbolExt;
