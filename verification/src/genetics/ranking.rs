//! The order of individuals by fitness.

use super::{Chromosome, Individual};
use vstd::prelude::*;
use vstd::seq_lib::{to_multiset_build, to_multiset_insert};

verus! {

/// Whether the fitness `a` is strictly better than the fitness `b`. Any score
/// is better than none.
pub open spec fn fitter(a: Option<i64>, b: Option<i64>) -> bool {
    match (a, b) {
        (Some(x), Some(y)) => x > y,
        (Some(_), None) => true,
        (None, _) => false,
    }
}

/// Whether the individuals stand in the order of their fitness, the best
/// first.
pub open spec fn ranked<C: Chromosome>(population: Seq<Individual<C>>) -> bool {
    forall|i: int, j: int|
        0 <= i < j < population.len() ==> !fitter(
            (#[trigger] population[j]).fitness,
            (#[trigger] population[i]).fitness,
        )
}

/// The test for the fitness `fitness`.
pub open spec fn has_fitness<C: Chromosome>(fitness: Option<i64>) -> spec_fn(Individual<C>) -> bool {
    |individual: Individual<C>| individual.fitness == fitness
}

/// The individuals of the given fitness, in the order in which they stand.
pub open spec fn with_fitness<C: Chromosome>(
    population: Seq<Individual<C>>,
    fitness: Option<i64>,
) -> Seq<Individual<C>> {
    population.filter(has_fitness(fitness))
}

/// Where no element passes the test, nothing is left.
proof fn lemma_filter_none<A>(s: Seq<A>, pred: spec_fn(A) -> bool)
    requires
        forall|i: int| 0 <= i < s.len() ==> !pred(#[trigger] s[i]),
    ensures
        s.filter(pred) == Seq::<A>::empty(),
    decreases s.len(),
{
    reveal(Seq::filter);
    if s.len() > 0 {
        assert(!pred(s[s.len() - 1]));
        assert forall|i: int| 0 <= i < s.drop_last().len() implies !pred(
            #[trigger] s.drop_last()[i],
        ) by {
            assert(s.drop_last()[i] == s[i]);
        }
        lemma_filter_none(s.drop_last(), pred);
    } else {
        assert(s =~= Seq::<A>::empty());
    }
}

/// What the test leaves of a single element.
proof fn lemma_filter_one<A>(a: A, pred: spec_fn(A) -> bool)
    ensures
        seq![a].filter(pred) == if pred(a) {
            seq![a]
        } else {
            Seq::<A>::empty()
        },
{
    reveal_with_fuel(Seq::filter, 2);
    assert(seq![a].drop_last() =~= Seq::<A>::empty());
    assert(Seq::<A>::empty().push(a) =~= seq![a]);
}

/// Putting `individual` behind those that are fitter and before all others
/// puts it first among its equals.
proof fn lemma_insert_keeps_order<C: Chromosome>(
    sorted: Seq<Individual<C>>,
    at: int,
    individual: Individual<C>,
    tail: Seq<Individual<C>>,
    fitness: Option<i64>,
)
    requires
        0 <= at <= sorted.len(),
        forall|k: int| 0 <= k < at ==> fitter((#[trigger] sorted[k]).fitness, individual.fitness),
        with_fitness(sorted, fitness) == with_fitness(tail, fitness),
    ensures
        with_fitness(sorted.insert(at, individual), fitness) == with_fitness(
            seq![individual] + tail,
            fitness,
        ),
{
    let pred = has_fitness::<C>(fitness);
    let front = sorted.take(at);
    let back = sorted.skip(at);
    assert(sorted =~= front + back);
    assert(sorted.insert(at, individual) =~= front + seq![individual] + back);
    Seq::filter_distributes_over_add(front, back, pred);
    Seq::filter_distributes_over_add(front, seq![individual], pred);
    Seq::filter_distributes_over_add(front + seq![individual], back, pred);
    Seq::filter_distributes_over_add(seq![individual], tail, pred);
    lemma_filter_one(individual, pred);
    if individual.fitness == fitness {
        assert forall|i: int| 0 <= i < front.len() implies !pred(#[trigger] front[i]) by {
            assert(front[i] == sorted[i]);
        }
        lemma_filter_none(front, pred);
        assert(front.filter(pred) + back.filter(pred) =~= back.filter(pred));
        assert(front.filter(pred) + seq![individual] =~= seq![individual]);
    } else {
        assert(front.filter(pred) + Seq::<Individual<C>>::empty() =~= front.filter(pred));
        assert(Seq::<Individual<C>>::empty() + tail.filter(pred) =~= tail.filter(pred));
    }
}

/// The test for a fitness that is no worse than `fitness`.
pub open spec fn as_fit_as<C: Chromosome>(fitness: Option<i64>) -> spec_fn(Individual<C>) -> bool {
    |individual: Individual<C>| !fitter(fitness, individual.fitness)
}

/// The number of individuals whose fitness is no worse than `fitness`.
pub open spec fn count_as_fit_as<C: Chromosome>(
    population: Seq<Individual<C>>,
    fitness: Option<i64>,
) -> nat {
    population.filter(as_fit_as(fitness)).len()
}

/// One more individual counts if it passes the test, wherever it is put.
proof fn lemma_count_insert<C: Chromosome>(
    s: Seq<Individual<C>>,
    at: int,
    individual: Individual<C>,
    fitness: Option<i64>,
)
    requires
        0 <= at <= s.len(),
    ensures
        count_as_fit_as(s.insert(at, individual), fitness) == count_as_fit_as(s, fitness) + (if fitter(
            fitness,
            individual.fitness,
        ) {
            0int
        } else {
            1int
        }),
{
    let pred = as_fit_as::<C>(fitness);
    let front = s.take(at);
    let back = s.skip(at);
    assert(s =~= front + back);
    assert(s.insert(at, individual) =~= front + seq![individual] + back);
    Seq::filter_distributes_over_add(front, back, pred);
    Seq::filter_distributes_over_add(front, seq![individual], pred);
    Seq::filter_distributes_over_add(front + seq![individual], back, pred);
    lemma_filter_one(individual, pred);
}

/// Where every element passes the test, all are left.
proof fn lemma_filter_all<A>(s: Seq<A>, pred: spec_fn(A) -> bool)
    requires
        forall|i: int| 0 <= i < s.len() ==> pred(#[trigger] s[i]),
    ensures
        s.filter(pred).len() == s.len(),
    decreases s.len(),
{
    if s.len() > 0 {
        let rest = s.drop_last();
        assert forall|i: int| 0 <= i < rest.len() implies pred(#[trigger] rest[i]) by {
            assert(rest[i] == s[i]);
        }
        lemma_filter_all(rest, pred);
        rest.lemma_filter_len_push(pred, s.last());
        assert(rest.push(s.last()) =~= s);
        assert(pred(s[s.len() - 1]));
    } else {
        reveal(Seq::filter);
    }
}

/// Where the first `n` individuals are no worse than `fitness`, at least `n`
/// are.
pub proof fn lemma_count_head<C: Chromosome>(s: Seq<Individual<C>>, n: int, fitness: Option<i64>)
    requires
        0 <= n <= s.len(),
        forall|i: int| 0 <= i < n ==> !fitter(fitness, (#[trigger] s[i]).fitness),
    ensures
        count_as_fit_as(s, fitness) >= n,
{
    let pred = as_fit_as::<C>(fitness);
    s.lemma_filter_take_len(pred, n);
    assert forall|i: int| 0 <= i < s.take(n).len() implies pred(#[trigger] s.take(n)[i]) by {
        assert(s.take(n)[i] == s[i]);
    }
    lemma_filter_all(s.take(n), pred);
}

/// Where more than `r` individuals of a ranked population are no worse than
/// `fitness`, the one at rank `r` is among them.
pub proof fn lemma_rank<C: Chromosome>(s: Seq<Individual<C>>, r: int, fitness: Option<i64>)
    requires
        ranked(s),
        0 <= r < s.len(),
        count_as_fit_as(s, fitness) > r,
    ensures
        !fitter(fitness, s[r].fitness),
{
    let pred = as_fit_as::<C>(fitness);
    if fitter(fitness, s[r].fitness) {
        let front = s.take(r);
        let back = s.skip(r);
        assert(s =~= front + back);
        Seq::filter_distributes_over_add(front, back, pred);
        assert forall|i: int| 0 <= i < back.len() implies !pred(#[trigger] back[i]) by {
            assert(back[i] == s[r + i]);
            if i > 0 {
                assert(!fitter(s[r + i].fitness, s[r].fitness));
            }
        }
        lemma_filter_none(back, pred);
        front.lemma_filter_len(pred);
        assert(front.filter(pred) + Seq::<Individual<C>>::empty() =~= front.filter(pred));
    }
}

/// Whether the fitness `a` is strictly better than the fitness `b`.
pub fn is_fitter(a: Option<i64>, b: Option<i64>) -> (r: bool)
    ensures
        r == fitter(a, b),
{
    match a {
        Some(x) => match b {
            Some(y) => x > y,
            None => true,
        },
        None => false,
    }
}

/// Puts the individuals in the order of their fitness, the best first.
/// Individuals of equal fitness keep their order.
pub fn sort_by_fitness_desc<C: Chromosome>(population: Vec<Individual<C>>) -> (sorted: Vec<
    Individual<C>,
>)
    ensures
        ranked(sorted@),
        sorted@.to_multiset() == population@.to_multiset(),
        sorted@.len() == population@.len(),
        forall|fitness: Option<i64>|
            #[trigger] with_fitness(sorted@, fitness) == with_fitness(population@, fitness),
        forall|fitness: Option<i64>|
            #[trigger] count_as_fit_as(sorted@, fitness) == count_as_fit_as(population@, fitness),
{
    let ghost unsorted = population@;
    let mut rest = population;
    let mut sorted: Vec<Individual<C>> = Vec::new();
    proof {
        assert(sorted@.to_multiset().add(rest@.to_multiset()) =~= unsorted.to_multiset()) by {
            sorted@.to_multiset_ensures();
        }
        assert forall|fitness: Option<i64>| #[trigger]
            count_as_fit_as(sorted@, fitness) + count_as_fit_as(rest@, fitness) == count_as_fit_as(
                unsorted,
                fitness,
            ) by {
            lemma_filter_none(sorted@, as_fit_as::<C>(fitness));
        }
        assert(unsorted.skip(rest@.len() as int) =~= sorted@);
        assert(rest@ =~= unsorted.take(rest@.len() as int));
    }
    while rest.len() > 0
        invariant
            ranked(sorted@),
            sorted@.to_multiset().add(rest@.to_multiset()) == unsorted.to_multiset(),
            sorted@.len() + rest@.len() == unsorted.len(),
            rest@ == unsorted.take(rest@.len() as int),
            forall|fitness: Option<i64>|
                #[trigger] with_fitness(sorted@, fitness) == with_fitness(
                    unsorted.skip(rest@.len() as int),
                    fitness,
                ),
            forall|fitness: Option<i64>|
                #[trigger] count_as_fit_as(sorted@, fitness) + count_as_fit_as(rest@, fitness)
                    == count_as_fit_as(unsorted, fitness),
        decreases rest.len(),
    {
        let ghost before = rest@;
        let individual = rest.pop().unwrap();
        proof {
            assert(before =~= rest@.push(individual));
            to_multiset_build(rest@, individual);
            assert(rest@ =~= unsorted.take(rest@.len() as int));
            assert(individual == unsorted[rest@.len() as int]);
        }
        let mut at: usize = 0;
        while at < sorted.len() && is_fitter(sorted[at].fitness, individual.fitness)
            invariant
                at <= sorted.len(),
                forall|k: int| 0 <= k < at ==> fitter((#[trigger] sorted[k]).fitness, individual.fitness),
            decreases sorted.len() - at,
        {
            at = at + 1;
        }
        let ghost placed = sorted@;
        sorted.insert(at, individual);
        proof {
            let tail = unsorted.skip(before.len() as int);
            assert(unsorted.skip(rest@.len() as int) =~= seq![individual] + tail);
            assert forall|fitness: Option<i64>| #[trigger]
                with_fitness(sorted@, fitness) == with_fitness(
                    unsorted.skip(rest@.len() as int),
                    fitness,
                ) by {
                assert(with_fitness(placed, fitness) == with_fitness(tail, fitness));
                lemma_insert_keeps_order(placed, at as int, individual, tail, fitness);
            }
            assert forall|fitness: Option<i64>| #[trigger]
                count_as_fit_as(sorted@, fitness) + count_as_fit_as(rest@, fitness)
                    == count_as_fit_as(unsorted, fitness) by {
                assert(count_as_fit_as(placed, fitness) + count_as_fit_as(before, fitness)
                    == count_as_fit_as(unsorted, fitness));
                lemma_count_insert(placed, at as int, individual, fitness);
                rest@.lemma_filter_len_push(as_fit_as::<C>(fitness), individual);
            }
            to_multiset_insert(placed, at as int, individual);
            assert(sorted@.to_multiset().add(rest@.to_multiset()) =~= unsorted.to_multiset());
            assert forall|i: int, j: int| 0 <= i < j < sorted@.len() implies !fitter(
                (#[trigger] sorted@[j]).fitness,
                (#[trigger] sorted@[i]).fitness,
            ) by {
                if j < at {
                    assert(sorted@[i] == placed[i] && sorted@[j] == placed[j]);
                } else if j == at {
                    assert(sorted@[i] == placed[i]);
                } else if i < at {
                    assert(sorted@[i] == placed[i] && sorted@[j] == placed[j - 1]);
                } else if i == at {
                    assert(sorted@[j] == placed[j - 1]);
                    assert(!fitter(placed[j - 1].fitness, placed[at as int].fitness) || j - 1 == at);
                } else {
                    assert(sorted@[i] == placed[i - 1] && sorted@[j] == placed[j - 1]);
                }
            }
        }
    }
    proof {
        assert(rest@ =~= Seq::empty());
        rest@.to_multiset_ensures();
        assert(sorted@.to_multiset() =~= unsorted.to_multiset());
        assert(unsorted.skip(0) =~= unsorted);
        assert forall|fitness: Option<i64>| #[trigger]
            count_as_fit_as(sorted@, fitness) == count_as_fit_as(unsorted, fitness) by {
            lemma_filter_none(rest@, as_fit_as::<C>(fitness));
        }
    }
    sorted
}

} // verus!
