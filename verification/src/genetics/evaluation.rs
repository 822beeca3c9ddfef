//! The contract of whatever gives individuals their fitness.

use super::{Chromosome, Individual};
use vstd::prelude::*;

verus! {

/// Whether `after` is `before` with a fitness for every individual: the
/// chromosomes are the same, and an individual that had a fitness has kept
/// it.
pub open spec fn evaluated<C: Chromosome>(
    before: Seq<Individual<C>>,
    after: Seq<Individual<C>>,
) -> bool {
    &&& after.len() == before.len()
    &&& forall|i: int|
        0 <= i < after.len() ==> {
            &&& (#[trigger] after[i]).chromosome == before[i].chromosome
            &&& after[i].fitness is Some
            &&& before[i].fitness is Some ==> after[i].fitness == before[i].fitness
        }
}

/// Gives individuals their fitness. What the fitness measures is up to the
/// implementation; the search only relies on every individual having one
/// afterwards.
pub trait Evaluation {
    type Chromosome: Chromosome;

    /// Gives a fitness to each individual that has none.
    fn evaluate(&self, population: &mut Vec<Individual<Self::Chromosome>>)
        ensures
            evaluated(old(population)@, final(population)@),
    ;
}

} // verus!
