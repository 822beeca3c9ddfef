//! Ways to pick the parents of the next generation.

use super::ranking::{fitter, is_fitter};
use super::{all_in_domain, in_domain, Chromosome, Individual};
use crate::random::{gen_range_usize, shuffle};
use rand::rngs::StdRng;
use vstd::prelude::*;

verus! {

/// A way to pick parents from a population.
pub trait Selection {
    /// Picks `count` parents. Where every chromosome of the population has its
    /// genes in their domains, so has every parent.
    fn select<C: Chromosome>(
        &self,
        rng: &mut StdRng,
        population: &Vec<Individual<C>>,
        count: usize,
    ) -> (parents: Vec<Individual<C>>)
        requires
            C::spec_len() <= usize::MAX,
            count <= population.len(),
        ensures
            parents.len() == count,
            all_in_domain(population@) ==> all_in_domain(parents@),
    ;
}

/// Whether every one of `chosen` is one of `population`.
pub open spec fn all_from<C: Chromosome>(
    chosen: Seq<Individual<C>>,
    population: Seq<Individual<C>>,
) -> bool {
    forall|i: int| 0 <= i < chosen.len() ==> population.contains(#[trigger] chosen[i])
}

/// What is taken from a population in its domains is in its domains.
pub proof fn lemma_all_from_in_domain<C: Chromosome>(
    chosen: Seq<Individual<C>>,
    population: Seq<Individual<C>>,
)
    requires
        all_from(chosen, population),
        all_in_domain(population),
    ensures
        all_in_domain(chosen),
{
    assert forall|i: int| 0 <= i < chosen.len() implies in_domain(
        &#[trigger] chosen[i].chromosome,
    ) by {
        assert(population.contains(chosen[i]));
        let j = choose|j: int| 0 <= j < population.len() && population[j] == chosen[i];
        assert(in_domain(&population[j].chromosome));
    }
}

/// Two sequences that hold the same elements equally often are taken from
/// each other.
pub proof fn lemma_rearranged_all_from<C: Chromosome>(
    chosen: Seq<Individual<C>>,
    population: Seq<Individual<C>>,
)
    requires
        chosen.to_multiset() == population.to_multiset(),
    ensures
        all_from(chosen, population),
{
    assert forall|i: int| 0 <= i < chosen.len() implies population.contains(
        #[trigger] chosen[i],
    ) by {
        assert(chosen.contains(chosen[i]));
        vstd::seq_lib::to_multiset_contains(chosen, chosen[i]);
        vstd::seq_lib::to_multiset_contains(population, chosen[i]);
    }
}

/// Picks the individuals at the head of the population, which are its best
/// where the population is ranked, and hands them out in that order or
/// shuffled.
#[derive(Clone, Copy, Debug)]
pub struct EliteSelection {
    pub shuffle: bool,
}

impl Selection for EliteSelection {
    fn select<C: Chromosome>(
        &self,
        rng: &mut StdRng,
        population: &Vec<Individual<C>>,
        count: usize,
    ) -> (parents: Vec<Individual<C>>)
        ensures
            parents@.to_multiset() == population@.take(count as int).to_multiset(),
            !self.shuffle ==> parents@ == population@.take(count as int),
    {
        let mut parents: Vec<Individual<C>> = Vec::with_capacity(count);
        let mut i: usize = 0;
        while i < count
            invariant
                i <= count <= population.len(),
                parents@ == population@.take(i as int),
            decreases count - i,
        {
            parents.push(population[i]);
            i = i + 1;
            assert(parents@ =~= population@.take(i as int));
        }
        if self.shuffle {
            shuffle(rng, &mut parents);
        }
        proof {
            let head = population@.take(count as int);
            lemma_rearranged_all_from(parents@, head);
            assert(all_from(parents@, population@)) by {
                assert forall|i: int| 0 <= i < parents@.len() implies population@.contains(
                    #[trigger] parents@[i],
                ) by {
                    let j = choose|j: int| 0 <= j < head.len() && head[j] == parents@[i];
                    assert(population@[j] == parents@[i]);
                }
            }
            if all_in_domain(population@) {
                lemma_all_from_in_domain(parents@, population@);
            }
            vstd::seq_lib::to_multiset_len(parents@);
            vstd::seq_lib::to_multiset_len(head);
        }
        parents
    }
}

/// The fitness of each individual, in order.
pub open spec fn fitnesses<C: Chromosome>(population: Seq<Individual<C>>) -> Seq<Option<i64>> {
    Seq::new(population.len(), |i: int| population[i].fitness)
}

/// The place of the one that wins a tournament among those drawn: the first
/// stands until a later one is strictly fitter, and so on to the last.
pub open spec fn tournament_winner(fitness: Seq<Option<i64>>, drawn: Seq<usize>) -> usize
    decreases drawn.len(),
{
    if drawn.len() <= 1 {
        drawn[0]
    } else {
        let winner = tournament_winner(fitness, drawn.drop_last());
        if fitter(fitness[drawn.last() as int], fitness[winner as int]) {
            drawn.last()
        } else {
            winner
        }
    }
}

/// Whether `drawn` can be what was drawn for one tournament: so many places
/// as the tournament has contestants, each a place of the population.
pub open spec fn is_draw(drawn: Seq<usize>, size: nat, population_size: nat) -> bool {
    &&& drawn.len() == size
    &&& forall|k: int| 0 <= k < drawn.len() ==> drawn[k] < population_size
}

/// Whether `parent` can have won a tournament of the given size in
/// `population`.
pub open spec fn won_by<C: Chromosome>(
    population: Seq<Individual<C>>,
    size: nat,
    parent: Individual<C>,
) -> bool {
    exists|drawn: Seq<usize>| #[trigger]
        is_draw(drawn, size, population.len()) && parent == population[tournament_winner(
            fitnesses(population),
            drawn,
        ) as int]
}

/// The winner of a tournament is one of those drawn, and none of those drawn
/// is strictly fitter.
pub proof fn lemma_tournament_winner(fitness: Seq<Option<i64>>, drawn: Seq<usize>)
    requires
        drawn.len() >= 1,
        forall|k: int| 0 <= k < drawn.len() ==> drawn[k] < fitness.len(),
    ensures
        drawn.contains(tournament_winner(fitness, drawn)),
        forall|k: int|
            0 <= k < drawn.len() ==> !fitter(
                fitness[#[trigger] drawn[k] as int],
                fitness[tournament_winner(fitness, drawn) as int],
            ),
    decreases drawn.len(),
{
    if drawn.len() <= 1 {
        assert(drawn[0] == tournament_winner(fitness, drawn));
    } else {
        let rest = drawn.drop_last();
        lemma_tournament_winner(fitness, rest);
        let earlier = tournament_winner(fitness, rest);
        let j = choose|j: int| 0 <= j < rest.len() && rest[j] == earlier;
        assert(drawn[j] == earlier);
        assert(drawn[drawn.len() - 1] == drawn.last());
        assert forall|k: int| 0 <= k < drawn.len() implies !fitter(
            fitness[#[trigger] drawn[k] as int],
            fitness[tournament_winner(fitness, drawn) as int],
        ) by {
            if k < rest.len() {
                assert(rest[k] == drawn[k]);
            }
        }
    }
}

/// The place of the one that wins the tournament among the individuals at
/// the places drawn.
pub fn winner_of<C: Chromosome>(population: &Vec<Individual<C>>, drawn: &Vec<usize>) -> (winner:
    usize)
    requires
        drawn@.len() >= 1,
        forall|k: int| 0 <= k < drawn@.len() ==> drawn@[k] < population@.len(),
    ensures
        winner < population@.len(),
        winner == tournament_winner(fitnesses(population@), drawn@),
{
    let mut winner = drawn[0];
    let mut round: usize = 1;
    proof {
        assert(drawn@.take(1).len() == 1);
        assert(drawn@.take(1)[0] == drawn@[0]);
    }
    while round < drawn.len()
        invariant
            1 <= round <= drawn@.len(),
            winner < population@.len(),
            forall|k: int| 0 <= k < drawn@.len() ==> drawn@[k] < population@.len(),
            winner == tournament_winner(fitnesses(population@), drawn@.take(round as int)),
        decreases drawn@.len() - round,
    {
        let challenger = drawn[round];
        proof {
            let upto = drawn@.take(round + 1);
            assert(upto.drop_last() =~= drawn@.take(round as int));
            assert(upto.last() == challenger);
        }
        if is_fitter(population[challenger].fitness, population[winner].fitness) {
            winner = challenger;
        }
        round = round + 1;
    }
    proof {
        assert(drawn@.take(drawn@.len() as int) =~= drawn@);
    }
    winner
}

/// Picks each parent as the winner of a tournament of its own: so many
/// individuals as the tournament has contestants are drawn, and the fittest
/// of them wins, the one drawn first among equals.
#[derive(Clone, Copy, Debug)]
pub struct TournamentSelection {
    size: usize,
}

impl TournamentSelection {
    #[verifier::type_invariant]
    spec fn contested(self) -> bool {
        self.size >= 1
    }

    /// The number of individuals that are drawn for each parent.
    pub closed spec fn size(self) -> nat {
        self.size as nat
    }

    pub fn new(size: usize) -> (r: Self)
        requires
            size >= 1,
        ensures
            r.size() == size,
    {
        Self { size }
    }
}

impl Selection for TournamentSelection {
    fn select<C: Chromosome>(
        &self,
        rng: &mut StdRng,
        population: &Vec<Individual<C>>,
        count: usize,
    ) -> (parents: Vec<Individual<C>>)
        ensures
            all_from(parents@, population@),
            forall|i: int|
                0 <= i < parents@.len() ==> won_by(population@, self.size(), #[trigger] parents@[i]),
    {
        proof {
            use_type_invariant(self);
        }
        let mut parents: Vec<Individual<C>> = Vec::with_capacity(count);
        let mut i: usize = 0;
        while i < count
            invariant
                i <= count <= population.len(),
                self.size() >= 1,
                parents@.len() == i,
                all_from(parents@, population@),
                forall|k: int|
                    0 <= k < parents@.len() ==> won_by(
                        population@,
                        self.size(),
                        #[trigger] parents@[k],
                    ),
            decreases count - i,
        {
            let mut drawn: Vec<usize> = Vec::with_capacity(self.size);
            while drawn.len() < self.size
                invariant
                    0 < population@.len(),
                    drawn@.len() <= self.size(),
                    forall|k: int| 0 <= k < drawn@.len() ==> drawn@[k] < population@.len(),
                decreases self.size() - drawn@.len(),
            {
                let place = gen_range_usize(rng, 0, population.len());
                drawn.push(place);
            }
            let winner = winner_of(population, &drawn);
            let ghost before = parents@;
            parents.push(population[winner]);
            i = i + 1;
            proof {
                assert(is_draw(drawn@, self.size(), population@.len()));
                assert(won_by(population@, self.size(), population@[winner as int]));
                assert forall|k: int| 0 <= k < parents@.len() implies population@.contains(
                    #[trigger] parents@[k],
                ) by {
                    if k < before.len() {
                        assert(parents@[k] == before[k]);
                    } else {
                        assert(parents@[k] == population@[winner as int]);
                    }
                }
                assert forall|k: int| 0 <= k < parents@.len() implies won_by(
                    population@,
                    self.size(),
                    #[trigger] parents@[k],
                ) by {
                    if k < before.len() {
                        assert(parents@[k] == before[k]);
                    }
                }
            }
        }
        proof {
            if all_in_domain(population@) {
                lemma_all_from_in_domain(parents@, population@);
            }
        }
        parents
    }
}

/// Hands out fresh individuals in place of parents: with it the search is a
/// random one.
#[derive(Clone, Copy, Debug)]
pub struct GenerateRandomSelection {}

impl Selection for GenerateRandomSelection {
    fn select<C: Chromosome>(
        &self,
        rng: &mut StdRng,
        population: &Vec<Individual<C>>,
        count: usize,
    ) -> (parents: Vec<Individual<C>>)
        ensures
            all_in_domain(parents@),
            forall|i: int| 0 <= i < parents@.len() ==> (#[trigger] parents@[i]).fitness is None,
    {
        let mut parents: Vec<Individual<C>> = Vec::with_capacity(count);
        let mut i: usize = 0;
        while i < count
            invariant
                i <= count,
                C::spec_len() <= usize::MAX,
                parents@.len() == i,
                all_in_domain(parents@),
                forall|k: int| 0 <= k < parents@.len() ==> (#[trigger] parents@[k]).fitness is None,
            decreases count - i,
        {
            let ghost before = parents@;
            parents.push(Individual::generate(rng));
            i = i + 1;
            proof {
                assert forall|k: int| 0 <= k < parents@.len() implies in_domain(
                    &#[trigger] parents@[k].chromosome,
                ) by {
                    if k < before.len() {
                        assert(parents@[k] == before[k]);
                    }
                }
                assert forall|k: int| 0 <= k < parents@.len() implies (
                #[trigger] parents@[k]).fitness is None by {
                    if k < before.len() {
                        assert(parents@[k] == before[k]);
                    }
                }
            }
        }
        parents
    }
}

} // verus!
