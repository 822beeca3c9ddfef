//! Signal modifiers and the contracts that strategies are written against.

pub mod laws;
pub mod modifiers;
pub mod params;
pub mod sig;
pub mod sig_osc;

pub use modifiers::{
    combine, filter_advice, maturities_add_up, Changed, MidTrend, MidTrendPolicy, Persistence,
};
pub use params::{
    DoubleMAParams, FourWeekRuleParams, MacdParams, SingleMAParams, TripleMAParams,
};
pub use sig::{Sig, SigParams};
pub use sig_osc::{
    filter_enforce, filter_prevent, osc_filter_for, osc_filter_from_str, osc_filter_to_str, SigOsc,
    SigOscParams,
};

use crate::common::Advice;
use crate::genetics::Chromosome;
use crate::indicators::{adler32, is_ma, ma_name, MA_CHOICES};
use crate::random::{choose_one, gen_range_usize};
use crate::text::str_eq;
use rand::rngs::StdRng;
use vstd::prelude::*;

verus! {

/// The three mid-trend policies, for a generator to choose from.
pub const MID_TREND_POLICY_CHOICES: [MidTrendPolicy; 3] = [
    MidTrendPolicy::Current,
    MidTrendPolicy::Previous,
    MidTrendPolicy::Ignore,
];

/// Draws of the values that strategy parameters take.
pub trait StdRngExt {
    /// Any of the three mid-trend policies.
    fn gen_mid_trend_policy(&mut self) -> MidTrendPolicy;

    /// The tag of any of the moving averages.
    fn gen_ma(&mut self) -> (tag: u32)
        ensures
            is_ma(tag),
    ;
}

impl StdRngExt for StdRng {
    fn gen_mid_trend_policy(&mut self) -> MidTrendPolicy {
        choose_one(self, &MID_TREND_POLICY_CHOICES)
    }

    fn gen_ma(&mut self) -> (tag: u32) {
        let i = gen_range_usize(self, 0, MA_CHOICES.len());
        MA_CHOICES[i]
    }
}

/// Whether `name` is the name of a moving average.
pub open spec fn is_ma_name(name: Seq<char>) -> bool {
    ||| name == "alma"@
    ||| name == "dema"@
    ||| name == "ema"@
    ||| name == "ema2"@
    ||| name == "kama"@
    ||| name == "sma"@
    ||| name == "smma"@
}

/// The tag of the moving average with the given name, and zero for any other
/// string.
pub open spec fn ma_tag(name: Seq<char>) -> u32 {
    if name == "alma"@ {
        adler32::ALMA
    } else if name == "dema"@ {
        adler32::DEMA
    } else if name == "ema"@ {
        adler32::EMA
    } else if name == "ema2"@ {
        adler32::EMA2
    } else if name == "kama"@ {
        adler32::KAMA
    } else if name == "sma"@ {
        adler32::SMA
    } else if name == "smma"@ {
        adler32::SMMA
    } else {
        0
    }
}

/// Names and tags stand for each other: the name of a tag leads back to the
/// tag, and the tag of a name back to the name.
pub proof fn lemma_ma_names(tag: u32, name: Seq<char>)
    ensures
        is_ma(tag) ==> is_ma_name(ma_name(tag)) && ma_tag(ma_name(tag)) == tag,
        is_ma_name(name) ==> is_ma(ma_tag(name)) && ma_name(ma_tag(name)) == name,
{
    reveal_strlit("alma");
    reveal_strlit("dema");
    reveal_strlit("ema");
    reveal_strlit("ema2");
    reveal_strlit("kama");
    reveal_strlit("sma");
    reveal_strlit("smma");
    assert("alma"@[0] == 'a' && "dema"@[0] == 'd' && "kama"@[0] == 'k');
    assert("ema"@[0] == 'e' && "ema2"@[0] == 'e' && "ema"@.len() == 3 && "ema2"@.len() == 4);
    assert("sma"@[0] == 's' && "smma"@[0] == 's' && "sma"@.len() == 3 && "smma"@.len() == 4);
}

/// The name of the moving average with the given tag.
pub fn ma_to_str(value: u32) -> (name: &'static str)
    requires
        is_ma(value),
    ensures
        name@ == ma_name(value),
{
    if value == adler32::ALMA {
        "alma"
    } else if value == adler32::DEMA {
        "dema"
    } else if value == adler32::EMA {
        "ema"
    } else if value == adler32::EMA2 {
        "ema2"
    } else if value == adler32::KAMA {
        "kama"
    } else if value == adler32::SMA {
        "sma"
    } else {
        "smma"
    }
}

/// The tag of the moving average with the given name, if there is one.
pub fn ma_from_str(representation: &str) -> (tag: Option<u32>)
    ensures
        tag == if is_ma_name(representation@) {
            Some(ma_tag(representation@))
        } else {
            None
        },
{
    if str_eq(representation, "alma") {
        Some(adler32::ALMA)
    } else if str_eq(representation, "dema") {
        Some(adler32::DEMA)
    } else if str_eq(representation, "ema") {
        Some(adler32::EMA)
    } else if str_eq(representation, "ema2") {
        Some(adler32::EMA2)
    } else if str_eq(representation, "kama") {
        Some(adler32::KAMA)
    } else if str_eq(representation, "sma") {
        Some(adler32::SMA)
    } else if str_eq(representation, "smma") {
        Some(adler32::SMMA)
    } else {
        None
    }
}

/// The tag of the moving average with the given name.
pub fn str_to_ma(representation: &str) -> (tag: u32)
    requires
        is_ma_name(representation@),
    ensures
        tag == ma_tag(representation@),
{
    match ma_from_str(representation) {
        Some(tag) => tag,
        None => 0,
    }
}

/// A count of candles after one more candle, where the count stops at
/// `limit`.
pub open spec fn next_clock(clock: nat, limit: nat) -> nat {
    if clock < limit {
        clock + 1
    } else {
        limit
    }
}

/// A component that is fed one candle after the other and needs a number of
/// them, its maturity, before what it reports is meaningful.
///
/// A strategy is mature once it has seen as many candles as its maturity
/// says. One that waits lets that many candles pass before it reports
/// anything: what it reports is meaningful from the candle after them on.
///
/// The contracts speak of a strategy through models: which parameters it can
/// be built from, its invariant, its maturity, the candles it has seen and
/// whether it waits. The strategies
/// of this crate define them. A type from elsewhere that has no means to do
/// so leaves them open, and what its methods promise is then taken on trust.
pub trait Strategy: Sized {
    /// The parameters that a strategy is built from.
    type Params: Chromosome;

    /// What the strategy is fed.
    type Candle;

    /// Whether a strategy can be built from `params`.
    open spec fn valid_params(params: &Self::Params) -> bool {
        arbitrary()
    }

    /// The maturity of a strategy built from `params`.
    open spec fn maturity_of(params: &Self::Params) -> nat {
        arbitrary()
    }

    /// The invariant of the strategy's state.
    open spec fn wf(&self) -> bool {
        arbitrary()
    }

    open spec fn spec_maturity(&self) -> nat {
        arbitrary()
    }

    /// The number of candles seen so far, counted up to one more than the
    /// maturity.
    open spec fn seen(&self) -> nat {
        arbitrary()
    }

    /// Whether the strategy lets as many candles pass as its maturity says
    /// before it reports anything.
    open spec fn waits(&self) -> bool {
        arbitrary()
    }

    fn new(params: &Self::Params) -> (s: Self)
        requires
            Self::valid_params(params),
        ensures
            s.wf(),
            s.seen() == 0,
            s.spec_maturity() == Self::maturity_of(params),
    ;

    fn maturity(&self) -> (m: u32)
        requires
            self.wf(),
        ensures
            m == self.spec_maturity(),
    ;

    /// Whether as many candles were seen as the maturity says.
    fn mature(&self) -> (b: bool)
        requires
            self.wf(),
        ensures
            b == (self.seen() >= self.spec_maturity()),
            self.seen() <= self.spec_maturity() + 1,
    ;

    fn update(&mut self, candle: &Self::Candle)
        requires
            old(self).wf(),
        ensures
            final(self).wf(),
            final(self).spec_maturity() == old(self).spec_maturity(),
            final(self).seen() == next_clock(old(self).seen(), old(self).spec_maturity() + 1),
            final(self).waits() == old(self).waits(),
    ;
}

/// A strategy that recommends a side.
pub trait Signal: Strategy {
    open spec fn spec_advice(&self) -> Advice {
        arbitrary()
    }

    /// The advice after the last candle. A signal abstains until it is
    /// mature, and one that waits abstains on as many candles as its maturity
    /// says, from its start on.
    fn advice(&self) -> (a: Advice)
        requires
            self.wf(),
        ensures
            a == self.spec_advice(),
            self.seen() < self.spec_maturity() ==> a == Advice::Abstain,
            self.waits() && self.seen() <= self.spec_maturity() ==> a == Advice::Abstain,
    ;
}

/// A strategy that tells when the market is stretched to either side.
pub trait Oscillator: Strategy {
    open spec fn spec_overbought(&self) -> bool {
        arbitrary()
    }

    open spec fn spec_oversold(&self) -> bool {
        arbitrary()
    }

    fn overbought(&self) -> (b: bool)
        requires
            self.wf(),
        ensures
            b == self.spec_overbought(),
    ;

    fn oversold(&self) -> (b: bool)
        requires
            self.wf(),
        ensures
            b == self.spec_oversold(),
    ;
}

} // verus!
