//! A raw signal behind a mid-trend filter and a persistence filter.

use super::modifiers::{
    filter_advice, filtered, filters_maturity, maturities_fit, MidTrend, MidTrendPolicy, MidTrendView, Persistence,
    PersistenceView,
};
use super::{Signal, StdRngExt, Strategy};
use crate::common::Advice;
use crate::genetics::Chromosome;
use crate::random::gen_range_u32;
use rand::rngs::StdRng;
use vstd::prelude::*;

verus! {

/// The parameters of a `Sig`: those of the raw signal, then the level of the
/// persistence filter and the policy of the mid-trend filter.
#[derive(Copy, Debug)]
pub struct SigParams<S: Chromosome> {
    pub sig: S,
    pub persistence: u32,
    pub mid_trend_policy: MidTrendPolicy,
}

impl<S: Chromosome> Clone for SigParams<S> {
    fn clone(&self) -> (r: Self)
        ensures
            r == *self,
    {
        *self
    }
}

/// A persistence level: one of `0..10`.
pub(crate) fn persistence(rng: &mut StdRng) -> (r: u32)
    ensures
        r < 10,
{
    gen_range_u32(rng, 0, 10)
}

impl<S: Chromosome> Chromosome for SigParams<S> {
    open spec fn spec_len() -> nat {
        S::spec_len() + 2
    }

    open spec fn gene(&self, i: int) -> int {
        if i < S::spec_len() {
            self.sig.gene(i)
        } else if i == S::spec_len() {
            self.persistence as int
        } else {
            self.mid_trend_policy.index()
        }
    }

    open spec fn gene_ok(i: int, value: int) -> bool {
        if i < S::spec_len() {
            S::gene_ok(i, value)
        } else if i == S::spec_len() {
            0 <= value < 10
        } else {
            0 <= value < 3
        }
    }

    fn len() -> (n: usize) {
        S::len() + 2
    }

    fn generate(rng: &mut StdRng) -> (c: Self) {
        let sig = S::generate(rng);
        let c = Self { sig, persistence: persistence(rng), mid_trend_policy: mid_trend_policy(rng) };
        proof {
            assert forall|i: int| 0 <= i < Self::spec_len() implies #[trigger] Self::gene_ok(
                i,
                c.gene(i),
            ) by {
                if i < S::spec_len() {
                    assert(S::gene_ok(i, c.sig.gene(i)));
                }
            }
        }
        c
    }

    fn cross(&mut self, parent: &Self, i: usize) {
        let n = S::len();
        if i < n {
            self.sig.cross(&parent.sig, i);
        } else if i - n == 0 {
            self.persistence = parent.persistence;
        } else {
            self.mid_trend_policy = parent.mid_trend_policy;
        }
        proof {
            assert forall|j: int| 0 <= j < Self::spec_len() implies #[trigger] self.gene(j) == if j
                == i {
                parent.gene(j)
            } else {
                old(self).gene(j)
            } by {
                if j < n {
                    let _ = self.sig.gene(j);
                }
            }
        }
    }

    fn mutate(&mut self, rng: &mut StdRng, i: usize) {
        let n = S::len();
        if i < n {
            self.sig.mutate(rng, i);
        } else if i - n == 0 {
            self.persistence = persistence(rng);
        } else {
            self.mid_trend_policy = mid_trend_policy(rng);
        }
        proof {
            assert forall|j: int| 0 <= j < Self::spec_len() && j != i implies #[trigger] self.gene(
                j,
            ) == old(self).gene(j) by {
                if j < n {
                    let _ = self.sig.gene(j);
                }
            }
        }
    }
}

/// A raw signal whose advice passes a mid-trend filter and a persistence
/// filter, and is acted on where the two agree.
pub struct Sig<S: Signal> {
    sig: S,
    mid_trend: MidTrend,
    persistence: Persistence,
    advice: Advice,
    t: u32,
    t1: u32,
    /// Whether more candles were seen than the maturity says.
    past: Ghost<bool>,
}

impl<S: Signal> Sig<S> {
    /// The raw signal.
    pub closed spec fn inner(&self) -> S {
        self.sig
    }

    /// Whether the raw signal is mature.
    pub open spec fn raw_mature(&self) -> bool {
        self.inner().seen() >= self.inner().spec_maturity()
    }

    /// The advice of the raw signal.
    pub open spec fn raw_advice(&self) -> Advice {
        self.inner().spec_advice()
    }

    /// The state of the mid-trend filter.
    pub closed spec fn mid_trend(&self) -> MidTrendView {
        self.mid_trend@
    }

    /// The state of the persistence filter.
    pub closed spec fn persistence(&self) -> PersistenceView {
        self.persistence@
    }
}

impl<S: Signal> Sig<S> {
    /// Whether the filters hold back the first advice that reaches them: the
    /// persistence filter is at work, or the mid-trend filter is one that
    /// does not pass advice through at once.
    pub open spec fn holds_back(&self) -> bool {
        self.persistence().level >= 1 || self.mid_trend().policy != MidTrendPolicy::Previous
    }

    /// The signal abstains until it is mature, whatever the raw signal
    /// made of the candles.
    pub proof fn lemma_abstains_until_mature(&self)
        requires
            self.wf(),
        ensures
            self.seen() <= self.spec_maturity() + 1,
            self.seen() < self.spec_maturity() ==> self.spec_advice() == Advice::Abstain,
    {
    }

    /// The signal abstains on as many candles as its maturity says, from its
    /// start on, if it waits. It does where its filters hold back the first
    /// advice that reaches them, and else where the raw signal waits.
    pub proof fn lemma_abstains_through_maturity(&self)
        requires
            self.wf(),
            self.waits(),
        ensures
            self.seen() <= self.spec_maturity() ==> self.spec_advice() == Advice::Abstain,
    {
    }
}

impl<S: Signal> Strategy for Sig<S> {
    type Params = SigParams<S::Params>;

    type Candle = S::Candle;

    /// The raw signal can be built, and the maturities add up to at least
    /// one candle and to no more than the counter can hold.
    open spec fn valid_params(params: &Self::Params) -> bool {
        &&& S::valid_params(&params.sig)
        &&& maturities_fit(
            S::maturity_of(&params.sig),
            params.mid_trend_policy,
            params.persistence,
        )
    }

    /// The maturity of the raw signal and that of the slower filter, less
    /// the candle that they share.
    open spec fn maturity_of(params: &Self::Params) -> nat {
        (S::maturity_of(&params.sig) + filters_maturity(
            params.mid_trend_policy,
            params.persistence,
        ) - 1) as nat
    }

    closed spec fn wf(&self) -> bool {
        let inner_maturity = self.sig.spec_maturity();
        &&& self.sig.wf()
        &&& self.t <= self.t1
        &&& self.past@ ==> self.t == self.t1
        &&& self.t1 + 1 == inner_maturity + filters_maturity(
            self.mid_trend@.policy,
            self.persistence@.level as u32,
        )
        &&& self.persistence@.level <= u32::MAX
        &&& !self.persistence@.return_previous
        &&& self.sig.seen() <= inner_maturity + 1
        &&& !self.past@ ==> self.sig.seen() == if self.t <= inner_maturity {
            self.t as nat
        } else {
            inner_maturity + 1
        }
        &&& self.t < self.t1 ==> self.persistence@.age == 0 || self.persistence@.age
            + inner_maturity <= self.t + 1
        &&& self.t < self.t1 && self.t < inner_maturity ==> self.mid_trend@.previous is None
            && self.mid_trend@.enabled
        &&& self.advice != Advice::Abstain ==> self.t == self.t1
        &&& self.advice != Advice::Abstain && self.waits() ==> self.past@
    }

    closed spec fn spec_maturity(&self) -> nat {
        self.t1 as nat
    }

    closed spec fn seen(&self) -> nat {
        if self.past@ {
            (self.t + 1) as nat
        } else {
            self.t as nat
        }
    }

    /// The signal waits where its filters hold back the first advice that
    /// reaches them, and else where the raw signal waits.
    open spec fn waits(&self) -> bool {
        self.holds_back() || self.inner().waits()
    }

    fn new(params: &Self::Params) -> (s: Self)
        ensures
            s.inner().wf(),
            s.inner().seen() == 0,
            s.inner().spec_maturity() == S::maturity_of(&params.sig),
            s.mid_trend() == MidTrendView::initial(params.mid_trend_policy),
            s.persistence() == PersistenceView::initial(params.persistence as nat, false),
            s.spec_advice() == Advice::Abstain,
    {
        let sig = S::new(&params.sig);
        let mid_trend = MidTrend::new(params.mid_trend_policy);
        let persistence = Persistence::new(params.persistence, false);
        let slower = if mid_trend.maturity() >= persistence.maturity() {
            mid_trend.maturity()
        } else {
            persistence.maturity()
        };
        let t1 = if slower == 0 {
            sig.maturity() - 1
        } else {
            sig.maturity() + (slower - 1)
        };
        Self { advice: Advice::Abstain, t: 0, t1, past: Ghost(false), sig, mid_trend, persistence }
    }

    fn maturity(&self) -> (m: u32) {
        self.t1
    }

    fn mature(&self) -> (b: bool) {
        self.t >= self.t1
    }

    /// Feeds the candle to the raw signal. Once that is mature, its advice
    /// goes through the filters and the outcome becomes the advice of this
    /// signal; until then nothing but the counts of candles moves.
    fn update(&mut self, candle: &Self::Candle)
        ensures
            final(self).inner().wf(),
            final(self).inner().spec_maturity() == old(self).inner().spec_maturity(),
            final(self).mid_trend() == if final(self).raw_mature() {
                old(self).mid_trend().next(final(self).raw_advice())
            } else {
                old(self).mid_trend()
            },
            final(self).persistence() == if final(self).raw_mature() {
                old(self).persistence().next(final(self).raw_advice())
            } else {
                old(self).persistence()
            },
            final(self).spec_advice() == if final(self).raw_mature() {
                filtered(old(self).mid_trend(), old(self).persistence(), final(self).raw_advice())
            } else {
                old(self).spec_advice()
            },
            final(self).inner().waits() == old(self).inner().waits(),
            final(self).holds_back() == old(self).holds_back(),
    {
        if self.t < self.t1 {
            self.t = self.t + 1;
        } else {
            self.past = Ghost(true);
        }
        self.sig.update(candle);
        if self.sig.mature() {
            let raw = self.sig.advice();
            self.advice = filter_advice(&mut self.mid_trend, &mut self.persistence, raw);
        }
    }
}

impl<S: Signal> Signal for Sig<S> {
    closed spec fn spec_advice(&self) -> Advice {
        self.advice
    }

    fn advice(&self) -> (a: Advice) {
        self.advice
    }
}

/// A mid-trend policy: any of the three.
pub(crate) fn mid_trend_policy(rng: &mut StdRng) -> (r: MidTrendPolicy) {
    rng.gen_mid_trend_policy()
}

} // verus!
