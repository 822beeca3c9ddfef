//! Ways to alter a chromosome at random.

use super::rate::Rate;
use super::{in_domain, Chromosome};
use rand::rngs::StdRng;
use vstd::prelude::*;

verus! {

/// Whether each gene of `after` is the one of `before` or a value of its
/// domain.
pub open spec fn altered_within_domain<C: Chromosome>(before: &C, after: &C) -> bool {
    forall|i: int|
        0 <= i < C::spec_len() ==> #[trigger] after.gene(i) == before.gene(i) || C::gene_ok(
            i,
            after.gene(i),
        )
}

/// A way to alter a chromosome at random.
pub trait Mutation {
    /// Alters the chromosome. A gene that changes is drawn from its domain.
    fn mutate<C: Chromosome>(&self, rng: &mut StdRng, chromosome: &mut C)
        requires
            C::spec_len() <= usize::MAX,
        ensures
            altered_within_domain(old(chromosome), final(chromosome)),
    ;
}

/// Draws each gene afresh with the same chance.
#[derive(Clone, Copy, Debug)]
pub struct UniformMutation {
    mutation_rate: Rate,
}

impl UniformMutation {
    /// The chance with which a gene is drawn afresh.
    pub closed spec fn mutation_rate(self) -> Rate {
        self.mutation_rate
    }

    pub fn new(mutation_rate: Rate) -> (r: Self)
        ensures
            r.mutation_rate() == mutation_rate,
    {
        Self { mutation_rate }
    }
}

impl Mutation for UniformMutation {
    fn mutate<C: Chromosome>(&self, rng: &mut StdRng, chromosome: &mut C)
        ensures
            self.mutation_rate().numerator() == 0 ==> *final(chromosome) == *old(chromosome),
            self.mutation_rate().numerator() == self.mutation_rate().denominator() ==> in_domain(
                final(chromosome),
            ),
    {
        let n = C::len();
        let mut i: usize = 0;
        let ghost before = *chromosome;
        while i < n
            invariant
                i <= n == C::spec_len() <= usize::MAX,
                altered_within_domain(&before, chromosome),
                self.mutation_rate().numerator() == 0 ==> *chromosome == before,
                self.mutation_rate().numerator() == self.mutation_rate().denominator() ==> forall|
                    j: int,
                | 0 <= j < i ==> #[trigger] C::gene_ok(j, chromosome.gene(j)),
            decreases n - i,
        {
            let ghost earlier = *chromosome;
            if self.mutation_rate.draw(rng) {
                chromosome.mutate(rng, i);
            }
            proof {
                assert forall|j: int| 0 <= j < C::spec_len() implies #[trigger] chromosome.gene(j)
                    == before.gene(j) || C::gene_ok(j, chromosome.gene(j)) by {
                    assert(earlier.gene(j) == before.gene(j) || C::gene_ok(j, earlier.gene(j)));
                }
                if self.mutation_rate().numerator() == self.mutation_rate().denominator() {
                    assert forall|j: int| 0 <= j <= i implies #[trigger] C::gene_ok(
                        j,
                        chromosome.gene(j),
                    ) by {
                        if j < i {
                            assert(C::gene_ok(j, earlier.gene(j)));
                            assert(chromosome.gene(j) == earlier.gene(j));
                        }
                    }
                }
            }
            i = i + 1;
        }
    }
}

} // verus!
