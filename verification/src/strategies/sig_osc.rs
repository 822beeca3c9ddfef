//! A raw signal that an oscillator confirms or vetoes, behind a mid-trend
//! filter and a persistence filter.

use super::modifiers::{
    filter_advice, filtered, filters_maturity, maturities_fit, MidTrend, MidTrendPolicy, MidTrendView, Persistence,
    PersistenceView,
};
use super::sig::{mid_trend_policy, persistence};
use super::{Oscillator, Signal, Strategy};
use crate::common::Advice;
use crate::genetics::Chromosome;
use crate::random::gen_ratio;
use crate::text::str_eq;
use rand::rngs::StdRng;
use vstd::prelude::*;

verus! {

/// The oscillator must confirm an entry: a long needs an oversold market, a
/// short an overbought one.
pub const OSC_FILTER_ENFORCE: u32 = 0;

/// The oscillator may veto an entry: no long into an overbought market, no
/// short into an oversold one.
pub const OSC_FILTER_PREVENT: u32 = 1;

/// The parameters of a `SigOsc`: those of the raw signal, those of the
/// oscillator, then the way the oscillator is used, the level of the
/// persistence filter and the policy of the mid-trend filter.
#[derive(Copy, Debug)]
pub struct SigOscParams<S: Chromosome, O: Chromosome> {
    pub sig: S,
    pub osc: O,
    pub osc_filter: u32,
    pub persistence: u32,
    pub mid_trend_policy: MidTrendPolicy,
}

impl<S: Chromosome, O: Chromosome> Clone for SigOscParams<S, O> {
    fn clone(&self) -> (r: Self)
        ensures
            r == *self,
    {
        *self
    }
}

/// One of the two ways to use the oscillator, each as likely as the other.
fn gen_osc_filter(rng: &mut StdRng) -> (r: u32)
    ensures
        r == OSC_FILTER_ENFORCE || r == OSC_FILTER_PREVENT,
{
    // A fair coin is tossed: a ratio of one to two is the chance of one
    // half.
    let heads = gen_ratio(rng, 1, 2);
    osc_filter_for(heads)
}

impl<S: Chromosome, O: Chromosome> Chromosome for SigOscParams<S, O> {
    open spec fn spec_len() -> nat {
        S::spec_len() + O::spec_len() + 3
    }

    open spec fn gene(&self, i: int) -> int {
        if i < S::spec_len() {
            self.sig.gene(i)
        } else if i < S::spec_len() + O::spec_len() {
            self.osc.gene(i - S::spec_len())
        } else if i == S::spec_len() + O::spec_len() {
            self.osc_filter as int
        } else if i == S::spec_len() + O::spec_len() + 1 {
            self.persistence as int
        } else {
            self.mid_trend_policy.index()
        }
    }

    open spec fn gene_ok(i: int, value: int) -> bool {
        if i < S::spec_len() {
            S::gene_ok(i, value)
        } else if i < S::spec_len() + O::spec_len() {
            O::gene_ok(i - S::spec_len(), value)
        } else if i == S::spec_len() + O::spec_len() {
            value == OSC_FILTER_ENFORCE || value == OSC_FILTER_PREVENT
        } else if i == S::spec_len() + O::spec_len() + 1 {
            0 <= value < 10
        } else {
            0 <= value < 3
        }
    }

    fn len() -> (n: usize) {
        S::len() + O::len() + 3
    }

    fn generate(rng: &mut StdRng) -> (c: Self) {
        let sig = S::generate(rng);
        let osc = O::generate(rng);
        let c = Self {
            sig,
            osc,
            osc_filter: gen_osc_filter(rng),
            persistence: persistence(rng),
            mid_trend_policy: mid_trend_policy(rng),
        };
        proof {
            assert forall|i: int| 0 <= i < Self::spec_len() implies #[trigger] Self::gene_ok(
                i,
                c.gene(i),
            ) by {
                if i < S::spec_len() {
                    assert(S::gene_ok(i, c.sig.gene(i)));
                } else if i < S::spec_len() + O::spec_len() {
                    assert(O::gene_ok(i - S::spec_len(), c.osc.gene(i - S::spec_len())));
                }
            }
        }
        c
    }

    fn cross(&mut self, parent: &Self, i: usize) {
        let n = S::len();
        let m = O::len();
        if i < n {
            self.sig.cross(&parent.sig, i);
        } else if i - n < m {
            self.osc.cross(&parent.osc, i - n);
        } else if i - n - m == 0 {
            self.osc_filter = parent.osc_filter;
        } else if i - n - m == 1 {
            self.persistence = parent.persistence;
        } else {
            self.mid_trend_policy = parent.mid_trend_policy;
        }
        proof {
            assert forall|j: int| 0 <= j < Self::spec_len() implies #[trigger] self.gene(j) == if j
                == i {
                parent.gene(j)
            } else {
                old(self).gene(j)
            } by {
                if j < n {
                    let _ = self.sig.gene(j);
                } else if j - n < m {
                    let _ = self.osc.gene(j - n);
                }
            }
        }
    }

    fn mutate(&mut self, rng: &mut StdRng, i: usize) {
        let n = S::len();
        let m = O::len();
        if i < n {
            self.sig.mutate(rng, i);
        } else if i - n < m {
            self.osc.mutate(rng, i - n);
        } else if i - n - m == 0 {
            self.osc_filter = gen_osc_filter(rng);
        } else if i - n - m == 1 {
            self.persistence = persistence(rng);
        } else {
            self.mid_trend_policy = mid_trend_policy(rng);
        }
        proof {
            assert forall|j: int| 0 <= j < Self::spec_len() && j != i implies #[trigger] self.gene(
                j,
            ) == old(self).gene(j) by {
                if j < n {
                    let _ = self.sig.gene(j);
                } else if j - n < m {
                    let _ = self.osc.gene(j - n);
                }
            }
        }
    }
}

/// The way to use the oscillator that a toss of a coin stands for: heads is
/// to enforce, tails to prevent.
pub fn osc_filter_for(heads: bool) -> (r: u32)
    ensures
        r == if heads {
            OSC_FILTER_ENFORCE
        } else {
            OSC_FILTER_PREVENT
        },
{
    if heads {
        OSC_FILTER_ENFORCE
    } else {
        OSC_FILTER_PREVENT
    }
}

/// Whether `value` stands for a way to use the oscillator.
pub open spec fn is_osc_filter(value: u32) -> bool {
    value == OSC_FILTER_ENFORCE || value == OSC_FILTER_PREVENT
}

/// The name of the way to use the oscillator that `value` stands for, and the
/// empty string for any other number.
pub open spec fn osc_filter_name(value: u32) -> Seq<char> {
    if value == OSC_FILTER_ENFORCE {
        "enforce"@
    } else if value == OSC_FILTER_PREVENT {
        "prevent"@
    } else {
        Seq::empty()
    }
}

/// The two names differ, so each leads back to its number.
pub proof fn lemma_osc_filter_names()
    ensures
        "enforce"@ != "prevent"@,
        "enforce"@.len() == 7,
        "prevent"@.len() == 7,
{
    reveal_strlit("enforce");
    reveal_strlit("prevent");
    assert("enforce"@[0] == 'e' && "prevent"@[0] == 'p');
}

/// The name of a way to use the oscillator.
pub fn osc_filter_to_str(value: u32) -> (name: &'static str)
    requires
        is_osc_filter(value),
    ensures
        name@ == osc_filter_name(value),
{
    if value == OSC_FILTER_ENFORCE {
        "enforce"
    } else {
        "prevent"
    }
}

/// The way to use the oscillator with the given name, if there is one.
pub fn osc_filter_from_str(representation: &str) -> (value: Option<u32>)
    ensures
        value == if representation@ == "enforce"@ {
            Some(OSC_FILTER_ENFORCE)
        } else if representation@ == "prevent"@ {
            Some(OSC_FILTER_PREVENT)
        } else {
            None
        },
        value matches Some(v) ==> is_osc_filter(v) && osc_filter_name(v) == representation@,
{
    proof {
        lemma_osc_filter_names();
    }
    if str_eq(representation, "enforce") {
        Some(OSC_FILTER_ENFORCE)
    } else if str_eq(representation, "prevent") {
        Some(OSC_FILTER_PREVENT)
    } else {
        None
    }
}

/// What is left of `advice` when the oscillator must confirm an entry.
pub open spec fn enforced(advice: Advice, oversold: bool, overbought: bool) -> Advice {
    match advice {
        Advice::Abstain => Advice::Abstain,
        Advice::Liquidate => Advice::Liquidate,
        Advice::Long => if oversold {
            Advice::Long
        } else {
            Advice::Liquidate
        },
        Advice::Short => if overbought {
            Advice::Short
        } else {
            Advice::Liquidate
        },
    }
}

/// What is left of `advice` when the oscillator may veto an entry.
pub open spec fn prevented(advice: Advice, oversold: bool, overbought: bool) -> Advice {
    match advice {
        Advice::Abstain => Advice::Abstain,
        Advice::Liquidate => Advice::Liquidate,
        Advice::Long => if overbought {
            Advice::Liquidate
        } else {
            Advice::Long
        },
        Advice::Short => if oversold {
            Advice::Liquidate
        } else {
            Advice::Short
        },
    }
}

/// What is left of `advice` under the given use of the oscillator.
pub open spec fn osc_filtered(
    osc_filter: u32,
    advice: Advice,
    oversold: bool,
    overbought: bool,
) -> Advice {
    if osc_filter == OSC_FILTER_ENFORCE {
        enforced(advice, oversold, overbought)
    } else {
        prevented(advice, oversold, overbought)
    }
}

/// Lets a long pass only into an oversold market and a short only into an
/// overbought one; an entry that is not confirmed becomes `Liquidate`.
pub fn filter_enforce(advice: Advice, oversold: bool, overbought: bool) -> (r: Advice)
    ensures
        r == enforced(advice, oversold, overbought),
{
    match advice {
        Advice::Abstain => Advice::Abstain,
        Advice::Liquidate => Advice::Liquidate,
        Advice::Long => {
            if oversold {
                Advice::Long
            } else {
                Advice::Liquidate
            }
        },
        Advice::Short => {
            if overbought {
                Advice::Short
            } else {
                Advice::Liquidate
            }
        },
    }
}

/// Turns a long into an overbought market and a short into an oversold one
/// into `Liquidate`; any other advice passes.
pub fn filter_prevent(advice: Advice, oversold: bool, overbought: bool) -> (r: Advice)
    ensures
        r == prevented(advice, oversold, overbought),
{
    match advice {
        Advice::Abstain => Advice::Abstain,
        Advice::Liquidate => Advice::Liquidate,
        Advice::Long => {
            if overbought {
                Advice::Liquidate
            } else {
                Advice::Long
            }
        },
        Advice::Short => {
            if oversold {
                Advice::Liquidate
            } else {
                Advice::Short
            }
        },
    }
}

/// A raw signal whose advice is first held against an oscillator, then
/// passes a mid-trend filter and a persistence filter, and is acted on where
/// the two agree.
pub struct SigOsc<S: Signal, O: Oscillator<Candle = S::Candle>> {
    sig: S,
    osc: O,
    osc_filter: u32,
    advice: Advice,
    mid_trend: MidTrend,
    persistence: Persistence,
    t: u32,
    t1: u32,
    /// Whether more candles were seen than the maturity says.
    past: Ghost<bool>,
}

impl<S: Signal, O: Oscillator<Candle = S::Candle>> SigOsc<S, O> {
    /// The raw signal.
    pub closed spec fn inner(&self) -> S {
        self.sig
    }

    /// The oscillator.
    pub closed spec fn oscillator(&self) -> O {
        self.osc
    }

    /// The way the oscillator is used.
    pub closed spec fn osc_filter(&self) -> u32 {
        self.osc_filter
    }

    /// The state of the mid-trend filter.
    pub closed spec fn mid_trend(&self) -> MidTrendView {
        self.mid_trend@
    }

    /// The state of the persistence filter.
    pub closed spec fn persistence(&self) -> PersistenceView {
        self.persistence@
    }

    /// Whether the raw signal and the oscillator are both mature.
    pub open spec fn raw_mature(&self) -> bool {
        &&& self.inner().seen() >= self.inner().spec_maturity()
        &&& self.oscillator().seen() >= self.oscillator().spec_maturity()
    }

    /// The advice of the raw signal as the oscillator leaves it.
    pub open spec fn raw_advice(&self) -> Advice {
        osc_filtered(
            self.osc_filter(),
            self.inner().spec_advice(),
            self.oscillator().spec_oversold(),
            self.oscillator().spec_overbought(),
        )
    }

    /// Holds `advice` against the oscillator.
    fn filter(&self, advice: Advice) -> (r: Advice)
        requires
            self.wf(),
        ensures
            r == osc_filtered(
                self.osc_filter(),
                advice,
                self.oscillator().spec_oversold(),
                self.oscillator().spec_overbought(),
            ),
    {
        let oversold = self.osc.oversold();
        let overbought = self.osc.overbought();
        if self.osc_filter == OSC_FILTER_ENFORCE {
            filter_enforce(advice, oversold, overbought)
        } else {
            filter_prevent(advice, oversold, overbought)
        }
    }
}

impl<S: Signal, O: Oscillator<Candle = S::Candle>> SigOsc<S, O> {
    /// Whether the filters hold back the first advice that reaches them: the
    /// persistence filter is at work, or the mid-trend filter is one that
    /// does not pass advice through at once.
    pub open spec fn holds_back(&self) -> bool {
        self.persistence().level >= 1 || self.mid_trend().policy != MidTrendPolicy::Previous
    }

    /// The signal abstains until it is mature, whatever the raw signal and
    /// the oscillator
    /// made of the candles.
    pub proof fn lemma_abstains_until_mature(&self)
        requires
            self.wf(),
        ensures
            self.seen() <= self.spec_maturity() + 1,
            self.seen() < self.spec_maturity() ==> self.spec_advice() == Advice::Abstain,
    {
    }

    /// The signal abstains on as many candles as its maturity says, from its
    /// start on, if it waits. It does where its filters hold back the first
    /// advice that reaches them, and else where the raw signal waits and is
    /// not faster than the oscillator.
    pub proof fn lemma_abstains_through_maturity(&self)
        requires
            self.wf(),
            self.waits(),
        ensures
            self.seen() <= self.spec_maturity() ==> self.spec_advice() == Advice::Abstain,
    {
    }
}

/// The larger of two maturities.
pub open spec fn slower(first: nat, second: nat) -> nat {
    if first >= second {
        first
    } else {
        second
    }
}

impl<S: Signal, O: Oscillator<Candle = S::Candle>> Strategy for SigOsc<S, O> {
    type Params = SigOscParams<S::Params, O::Params>;

    type Candle = S::Candle;

    /// The raw signal and the oscillator can be built, the oscillator is used
    /// in one of the two ways, and the maturities add up to at least one
    /// candle and to no more than the counter can hold.
    open spec fn valid_params(params: &Self::Params) -> bool {
        &&& S::valid_params(&params.sig)
        &&& O::valid_params(&params.osc)
        &&& params.osc_filter == OSC_FILTER_ENFORCE || params.osc_filter == OSC_FILTER_PREVENT
        &&& maturities_fit(
            slower(S::maturity_of(&params.sig), O::maturity_of(&params.osc)),
            params.mid_trend_policy,
            params.persistence,
        )
    }

    /// The maturity of the slower of raw signal and oscillator and that of
    /// the slower filter, less the candle that they share.
    open spec fn maturity_of(params: &Self::Params) -> nat {
        (slower(S::maturity_of(&params.sig), O::maturity_of(&params.osc)) + filters_maturity(
            params.mid_trend_policy,
            params.persistence,
        ) - 1) as nat
    }

    closed spec fn wf(&self) -> bool {
        let inner_maturity = slower(self.sig.spec_maturity(), self.osc.spec_maturity());
        &&& self.sig.wf()
        &&& self.osc.wf()
        &&& self.osc_filter == OSC_FILTER_ENFORCE || self.osc_filter == OSC_FILTER_PREVENT
        &&& self.t <= self.t1
        &&& self.past@ ==> self.t == self.t1
        &&& self.t1 + 1 == inner_maturity + filters_maturity(
            self.mid_trend@.policy,
            self.persistence@.level as u32,
        )
        &&& self.persistence@.level <= u32::MAX
        &&& !self.persistence@.return_previous
        &&& self.sig.seen() <= self.sig.spec_maturity() + 1
        &&& self.osc.seen() <= self.osc.spec_maturity() + 1
        &&& !self.past@ ==> self.sig.seen() == if self.t <= self.sig.spec_maturity() {
            self.t as nat
        } else {
            self.sig.spec_maturity() + 1
        }
        &&& !self.past@ ==> self.osc.seen() == if self.t <= self.osc.spec_maturity() {
            self.t as nat
        } else {
            self.osc.spec_maturity() + 1
        }
        &&& self.t < self.t1 ==> self.persistence@.age == 0 || self.persistence@.age
            + inner_maturity <= self.t + 1
        &&& self.t < self.t1 && self.t < inner_maturity ==> self.mid_trend@.previous is None
            && self.mid_trend@.enabled
        &&& self.advice != Advice::Abstain ==> self.t == self.t1
        &&& self.advice != Advice::Abstain && self.waits() ==> self.past@
    }

    closed spec fn spec_maturity(&self) -> nat {
        self.t1 as nat
    }

    closed spec fn seen(&self) -> nat {
        if self.past@ {
            (self.t + 1) as nat
        } else {
            self.t as nat
        }
    }

    /// The signal waits where its filters hold back the first advice that
    /// reaches them, and else where the raw signal waits and is not faster
    /// than the oscillator.
    open spec fn waits(&self) -> bool {
        self.holds_back() || (self.inner().waits() && self.inner().spec_maturity()
            >= self.oscillator().spec_maturity())
    }

    fn new(params: &Self::Params) -> (s: Self)
        ensures
            s.inner().wf(),
            s.inner().seen() == 0,
            s.inner().spec_maturity() == S::maturity_of(&params.sig),
            s.oscillator().wf(),
            s.oscillator().seen() == 0,
            s.oscillator().spec_maturity() == O::maturity_of(&params.osc),
            s.osc_filter() == params.osc_filter,
            s.mid_trend() == MidTrendView::initial(params.mid_trend_policy),
            s.persistence() == PersistenceView::initial(params.persistence as nat, false),
            s.spec_advice() == Advice::Abstain,
    {
        let sig = S::new(&params.sig);
        let osc = O::new(&params.osc);
        let mid_trend = MidTrend::new(params.mid_trend_policy);
        let persistence = Persistence::new(params.persistence, false);
        let slower_source = if sig.maturity() >= osc.maturity() {
            sig.maturity()
        } else {
            osc.maturity()
        };
        let slower_filter = if mid_trend.maturity() >= persistence.maturity() {
            mid_trend.maturity()
        } else {
            persistence.maturity()
        };
        let t1 = if slower_filter == 0 {
            slower_source - 1
        } else {
            slower_source + (slower_filter - 1)
        };
        Self {
            advice: Advice::Abstain,
            t: 0,
            t1,
            past: Ghost(false),
            sig,
            osc,
            osc_filter: params.osc_filter,
            mid_trend,
            persistence,
        }
    }

    fn maturity(&self) -> (m: u32) {
        self.t1
    }

    fn mature(&self) -> (b: bool) {
        self.t >= self.t1
    }

    /// Feeds the candle to the raw signal and to the oscillator. Once both
    /// are mature, the advice of the raw signal is held against the
    /// oscillator and goes through the filters, and the outcome becomes the
    /// advice of this signal; until then nothing but the counts of candles moves.
    fn update(&mut self, candle: &Self::Candle)
        ensures
            final(self).inner().wf(),
            final(self).inner().spec_maturity() == old(self).inner().spec_maturity(),
            final(self).oscillator().wf(),
            final(self).oscillator().spec_maturity() == old(self).oscillator().spec_maturity(),
            final(self).osc_filter() == old(self).osc_filter(),
            final(self).mid_trend() == if final(self).raw_mature() {
                old(self).mid_trend().next(final(self).raw_advice())
            } else {
                old(self).mid_trend()
            },
            final(self).persistence() == if final(self).raw_mature() {
                old(self).persistence().next(final(self).raw_advice())
            } else {
                old(self).persistence()
            },
            final(self).spec_advice() == if final(self).raw_mature() {
                filtered(old(self).mid_trend(), old(self).persistence(), final(self).raw_advice())
            } else {
                old(self).spec_advice()
            },
            final(self).inner().waits() == old(self).inner().waits(),
            final(self).holds_back() == old(self).holds_back(),
    {
        if self.t < self.t1 {
            self.t = self.t + 1;
        } else {
            self.past = Ghost(true);
        }
        self.sig.update(candle);
        self.osc.update(candle);
        if self.sig.mature() && self.osc.mature() {
            let raw = self.sig.advice();
            let advice = self.filter(raw);
            self.advice = filter_advice(&mut self.mid_trend, &mut self.persistence, advice);
        }
    }
}

impl<S: Signal, O: Oscillator<Candle = S::Candle>> Signal for SigOsc<S, O> {
    closed spec fn spec_advice(&self) -> Advice {
        self.advice
    }

    fn advice(&self) -> (a: Advice) {
        self.advice
    }
}

} // verus!
