//! What holds of every chromosome, and of those that are made up of others.

use super::{determined_by_genes, same_genes, Chromosome};
use crate::strategies::{SigOscParams, SigParams};
use crate::trading::stop_loss::NoopTakeProfitParams;
use crate::trading::TradingParams;
use vstd::prelude::*;

verus! {

/// Whether `c` can be what `a` has become after the genes at the places
/// `0..count` were copied from `b`: it has the genes of `b` there and the
/// genes of `a` behind them.
pub open spec fn crossed_to<C: Chromosome>(a: &C, b: &C, c: &C, count: nat) -> bool {
    forall|i: int|
        0 <= i < C::spec_len() ==> #[trigger] c.gene(i) == if i < count {
            b.gene(i)
        } else {
            a.gene(i)
        }
}

/// Copying one more gene goes from `crossed_to` for `count` to `crossed_to`
/// for `count + 1`: `c` stands for `a` with the first `count` genes from `b`,
/// and `d` for `c` after gene `count` was copied from `b`.
pub proof fn lemma_cross_one_more<C: Chromosome>(a: C, b: C, c: C, d: C, count: nat)
    requires
        count < C::spec_len(),
        crossed_to(&a, &b, &c, count),
        forall|j: int|
            0 <= j < C::spec_len() ==> #[trigger] d.gene(j) == if j == count {
                b.gene(j)
            } else {
                c.gene(j)
            },
    ensures
        crossed_to(&a, &b, &d, count + 1),
{
    assert forall|i: int| 0 <= i < C::spec_len() implies #[trigger] d.gene(i) == if i < count
        + 1 {
        b.gene(i)
    } else {
        a.gene(i)
    } by {
        let _ = c.gene(i);
    }
}

/// A chromosome that has had every gene copied from another has the genes of
/// that other, and is equal to it where chromosomes are nothing but their
/// genes: `c` stands for `a` after all genes were copied from `b`.
pub proof fn lemma_cross_all<C: Chromosome>(a: C, b: C, c: C)
    requires
        crossed_to(&a, &b, &c, C::spec_len()),
    ensures
        same_genes(&c, &b),
        determined_by_genes::<C>() ==> c == b,
{
    assert(same_genes(&c, &b));
}

/// A chromosome that a mutation of gene `i` has changed differs from what it
/// was in gene `i` and in no other gene, where chromosomes are nothing but
/// their genes: `c` stands for `a` after the mutation.
pub proof fn lemma_mutation_is_local<C: Chromosome>(a: C, c: C, i: int)
    requires
        0 <= i < C::spec_len(),
        forall|j: int| 0 <= j < C::spec_len() && j != i ==> #[trigger] c.gene(j) == a.gene(j),
        determined_by_genes::<C>(),
        c != a,
    ensures
        c.gene(i) != a.gene(i),
{
    if c.gene(i) == a.gene(i) {
        assert(same_genes(&c, &a));
    }
}

/// The parameters of a whole trading run have the genes of their four parts,
/// one part after the other.
pub proof fn lemma_trading_params_compose<
    T: Chromosome,
    S: Chromosome,
    L: Chromosome,
    P: Chromosome,
>(params: TradingParams<T, S, L, P>, i: int)
    requires
        0 <= i,
    ensures
        TradingParams::<T, S, L, P>::spec_len() == T::spec_len() + S::spec_len() + L::spec_len()
            + P::spec_len(),
        i < T::spec_len() ==> params.gene(i) == params.trader.gene(i),
        i < S::spec_len() ==> params.gene(T::spec_len() + i) == params.strategy.gene(i),
        i < L::spec_len() ==> params.gene(T::spec_len() + S::spec_len() + i)
            == params.stop_loss.gene(i),
        i < P::spec_len() ==> params.gene(T::spec_len() + S::spec_len() + L::spec_len() + i)
            == params.take_profit.gene(i),
{
}

/// The parameters of a filtered signal have the genes of the raw signal and
/// two of their own after them.
pub proof fn lemma_sig_params_compose<S: Chromosome>(params: SigParams<S>, i: int)
    requires
        0 <= i,
    ensures
        SigParams::<S>::spec_len() == S::spec_len() + 2,
        i < S::spec_len() ==> params.gene(i) == params.sig.gene(i),
        params.gene(S::spec_len() as int) == params.persistence,
        params.gene(S::spec_len() as int + 1) == params.mid_trend_policy.index(),
{
}

/// The parameters of a signal with an oscillator have the genes of the raw
/// signal, then those of the oscillator, and three of their own after them.
pub proof fn lemma_sig_osc_params_compose<S: Chromosome, O: Chromosome>(
    params: SigOscParams<S, O>,
    i: int,
)
    requires
        0 <= i,
    ensures
        SigOscParams::<S, O>::spec_len() == S::spec_len() + O::spec_len() + 3,
        i < S::spec_len() ==> params.gene(i) == params.sig.gene(i),
        i < O::spec_len() ==> params.gene(S::spec_len() + i) == params.osc.gene(i),
        params.gene((S::spec_len() + O::spec_len()) as int) == params.osc_filter,
        params.gene((S::spec_len() + O::spec_len()) as int + 1) == params.persistence,
        params.gene((S::spec_len() + O::spec_len()) as int + 2) == params.mid_trend_policy.index(),
{
}

/// The record without parameters is nothing but its genes, of which it has
/// none.
pub proof fn lemma_noop_params_determined()
    ensures
        determined_by_genes::<NoopTakeProfitParams>(),
{
}

/// The parameters of a filtered signal are nothing but their genes if those
/// of the raw signal are.
pub proof fn lemma_sig_params_determined<S: Chromosome>()
    requires
        determined_by_genes::<S>(),
    ensures
        determined_by_genes::<SigParams<S>>(),
{
    assert forall|a: SigParams<S>, b: SigParams<S>| #[trigger] same_genes(&a, &b) implies a
        == b by {
        let n = S::spec_len() as int;
        assert forall|i: int| 0 <= i < S::spec_len() implies #[trigger] a.sig.gene(i)
            == b.sig.gene(i) by {
            assert(a.gene(i) == b.gene(i));
        }
        assert(same_genes(&a.sig, &b.sig));
        assert(a.gene(n) == b.gene(n));
        assert(a.gene(n + 1) == b.gene(n + 1));
    }
}

/// The parameters of a signal with an oscillator are nothing but their genes
/// if those of the raw signal and those of the oscillator are.
pub proof fn lemma_sig_osc_params_determined<S: Chromosome, O: Chromosome>()
    requires
        determined_by_genes::<S>(),
        determined_by_genes::<O>(),
    ensures
        determined_by_genes::<SigOscParams<S, O>>(),
{
    assert forall|a: SigOscParams<S, O>, b: SigOscParams<S, O>| #[trigger]
        same_genes(&a, &b) implies a == b by {
        let n = S::spec_len() as int;
        let m = n + O::spec_len();
        assert forall|i: int| 0 <= i < S::spec_len() implies #[trigger] a.sig.gene(i)
            == b.sig.gene(i) by {
            assert(a.gene(i) == b.gene(i));
        }
        assert forall|i: int| 0 <= i < O::spec_len() implies #[trigger] a.osc.gene(i)
            == b.osc.gene(i) by {
            assert(a.gene(n + i) == b.gene(n + i));
        }
        assert(same_genes(&a.sig, &b.sig));
        assert(same_genes(&a.osc, &b.osc));
        assert(a.gene(m) == b.gene(m));
        assert(a.gene(m + 1) == b.gene(m + 1));
        assert(a.gene(m + 2) == b.gene(m + 2));
    }
}

/// The parameters of a whole trading run are nothing but their genes if those
/// of the four parts are.
pub proof fn lemma_trading_params_determined<
    T: Chromosome,
    S: Chromosome,
    L: Chromosome,
    P: Chromosome,
>()
    requires
        determined_by_genes::<T>(),
        determined_by_genes::<S>(),
        determined_by_genes::<L>(),
        determined_by_genes::<P>(),
    ensures
        determined_by_genes::<TradingParams<T, S, L, P>>(),
{
    assert forall|a: TradingParams<T, S, L, P>, b: TradingParams<T, S, L, P>| #[trigger]
        same_genes(&a, &b) implies a == b by {
        let t = T::spec_len() as int;
        let s = t + S::spec_len();
        let l = s + L::spec_len();
        assert forall|i: int| 0 <= i < T::spec_len() implies #[trigger] a.trader.gene(i)
            == b.trader.gene(i) by {
            assert(a.gene(i) == b.gene(i));
        }
        assert forall|i: int| 0 <= i < S::spec_len() implies #[trigger] a.strategy.gene(i)
            == b.strategy.gene(i) by {
            assert(a.gene(t + i) == b.gene(t + i));
        }
        assert forall|i: int| 0 <= i < L::spec_len() implies #[trigger] a.stop_loss.gene(i)
            == b.stop_loss.gene(i) by {
            assert(a.gene(s + i) == b.gene(s + i));
        }
        assert forall|i: int| 0 <= i < P::spec_len() implies #[trigger] a.take_profit.gene(i)
            == b.take_profit.gene(i) by {
            assert(a.gene(l + i) == b.gene(l + i));
        }
        assert(same_genes(&a.trader, &b.trader));
        assert(same_genes(&a.strategy, &b.strategy));
        assert(same_genes(&a.stop_loss, &b.stop_loss));
        assert(same_genes(&a.take_profit, &b.take_profit));
    }
}

} // verus!
