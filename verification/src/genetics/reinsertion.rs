//! Ways to make up the next generation of the previous one and its
//! offspring.

use super::rate::{lemma_share, Rate};
use super::{Chromosome, Individual};
use vstd::prelude::*;

verus! {

/// A way to make up the next generation: so many individuals from the head of
/// the previous one stay, and offspring fill the remaining places.
///
/// How many stay and how many are bred is a matter of the implementation,
/// which states it in the two models `kept` and `bred`. An implementation
/// from elsewhere that has no means to do so leaves them open, and what its
/// methods promise is then taken on trust.
pub trait Reinsertion {
    /// How many individuals of a population of the given size stay.
    open spec fn kept(&self, size: nat) -> nat {
        arbitrary()
    }

    /// How many offspring a population of the given size breeds.
    open spec fn bred(&self, size: nat) -> nat {
        arbitrary()
    }

    /// How many offspring a population of the given size breeds. No more
    /// stay than there are, no more are bred than there are, and those that
    /// stay and those that are bred fill the population.
    fn offspring_count(&self, size: usize) -> (n: usize)
        ensures
            n == self.bred(size as nat),
            n <= size,
            self.kept(size as nat) <= size <= self.kept(size as nat) + n,
    ;

    /// The next generation: the head of the previous one, then offspring from
    /// the first on until the size of the population is reached.
    fn reinsert<C: Chromosome>(
        &self,
        population: Vec<Individual<C>>,
        offspring: Vec<Individual<C>>,
    ) -> (next: Vec<Individual<C>>)
        requires
            offspring.len() == self.bred(population.len() as nat),
        ensures
            next@ == refilled(population@, offspring@, self.kept(population.len() as nat)),
    ;
}

/// The first `kept` of `population`, then as many of `offspring` as the
/// population has places left.
pub open spec fn refilled<C: Chromosome>(
    population: Seq<Individual<C>>,
    offspring: Seq<Individual<C>>,
    kept: nat,
) -> Seq<Individual<C>> {
    population.take(kept as int) + offspring.take(population.len() - kept)
}

/// Makes up a generation of the first `kept` of `population` and the first
/// offspring.
fn refill<C: Chromosome>(
    population: Vec<Individual<C>>,
    offspring: Vec<Individual<C>>,
    kept: usize,
) -> (next: Vec<Individual<C>>)
    requires
        kept <= population.len() <= kept + offspring.len(),
    ensures
        next@ == refilled(population@, offspring@, kept as nat),
{
    let size = population.len();
    let mut next = population;
    next.truncate(kept);
    let mut offspring = offspring;
    offspring.truncate(size - kept);
    next.append(&mut offspring);
    next
}

/// Keeps a share of the previous generation, its best where it is ranked,
/// and breeds a share of its size as offspring, or as many as it takes to
/// fill the places that are left.
#[derive(Clone, Copy, Debug)]
pub struct EliteReinsertion {
    elite_rate: Rate,
    offspring_rate: Rate,
}

impl EliteReinsertion {
    /// The share of the previous generation that stays.
    pub closed spec fn elite_rate(self) -> Rate {
        self.elite_rate
    }

    /// The share of the population's size that is bred.
    pub closed spec fn offspring_rate(self) -> Rate {
        self.offspring_rate
    }

    pub fn new(elite_rate: Rate, offspring_rate: Rate) -> (r: Self)
        ensures
            r.elite_rate() == elite_rate,
            r.offspring_rate() == offspring_rate,
    {
        Self { elite_rate, offspring_rate }
    }
}

impl Reinsertion for EliteReinsertion {
    open spec fn kept(&self, size: nat) -> nat {
        self.elite_rate().share(size)
    }

    open spec fn bred(&self, size: nat) -> nat {
        let share = self.offspring_rate().share(size);
        let places = (size - self.elite_rate().share(size)) as nat;
        if share >= places {
            share
        } else {
            places
        }
    }

    fn offspring_count(&self, size: usize) -> (n: usize) {
        proof {
            self.elite_rate().lemma_proper();
            self.offspring_rate().lemma_proper();
            lemma_share(size as nat, self.elite_rate().numerator(), self.elite_rate().denominator());
            lemma_share(
                size as nat,
                self.offspring_rate().numerator(),
                self.offspring_rate().denominator(),
            );
        }
        let share = self.offspring_rate.of(size);
        let places = size - self.elite_rate.of(size);
        if share >= places {
            share
        } else {
            places
        }
    }

    fn reinsert<C: Chromosome>(
        &self,
        population: Vec<Individual<C>>,
        offspring: Vec<Individual<C>>,
    ) -> (next: Vec<Individual<C>>) {
        proof {
            self.elite_rate().lemma_proper();
            lemma_share(
                population.len() as nat,
                self.elite_rate().numerator(),
                self.elite_rate().denominator(),
            );
        }
        let kept = self.elite_rate.of(population.len());
        refill(population, offspring, kept)
    }
}

/// Replaces the previous generation by its offspring.
#[derive(Clone, Copy, Debug)]
pub struct PureReinsertion {}

impl Reinsertion for PureReinsertion {
    open spec fn kept(&self, size: nat) -> nat {
        0
    }

    open spec fn bred(&self, size: nat) -> nat {
        size
    }

    fn offspring_count(&self, size: usize) -> (n: usize) {
        size
    }

    fn reinsert<C: Chromosome>(
        &self,
        population: Vec<Individual<C>>,
        offspring: Vec<Individual<C>>,
    ) -> (next: Vec<Individual<C>>) {
        refill(population, offspring, 0)
    }
}

} // verus!
