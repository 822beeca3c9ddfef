//! Ways to make two children of two parents.

use super::rate::Rate;
use super::{same_genes, Chromosome};
use rand::rngs::StdRng;
use vstd::prelude::*;

verus! {

/// Whether the two children share out the genes of the two parents: at each
/// place one child has the gene of the first parent and the other that of the
/// second.
pub open spec fn shared_out<C: Chromosome>(
    parent1: &C,
    parent2: &C,
    child1: &C,
    child2: &C,
) -> bool {
    forall|i: int|
        0 <= i < C::spec_len() ==> {
            ||| #[trigger] child1.gene(i) == parent1.gene(i) && child2.gene(i) == parent2.gene(i)
            ||| child1.gene(i) == parent2.gene(i) && child2.gene(i) == parent1.gene(i)
        }
}

/// A way to make two children of two parents.
pub trait Crossover {
    /// Two children that share out the genes of the parents.
    fn cross<C: Chromosome>(&self, rng: &mut StdRng, parent1: &C, parent2: &C) -> (children: (
        C,
        C,
    ))
        requires
            C::spec_len() <= usize::MAX,
        ensures
            shared_out(parent1, parent2, &children.0, &children.1),
    ;
}

/// Starts from copies of the parents and swaps each gene between them with
/// the same chance.
#[derive(Clone, Copy, Debug)]
pub struct UniformCrossover {
    mix_rate: Rate,
}

impl UniformCrossover {
    /// The chance with which a gene is swapped.
    pub closed spec fn mix_rate(self) -> Rate {
        self.mix_rate
    }

    pub fn new(mix_rate: Rate) -> (r: Self)
        ensures
            r.mix_rate() == mix_rate,
    {
        Self { mix_rate }
    }
}

impl Crossover for UniformCrossover {
    fn cross<C: Chromosome>(&self, rng: &mut StdRng, parent1: &C, parent2: &C) -> (children: (
        C,
        C,
    ))
        ensures
            self.mix_rate().numerator() == 0 ==> children.0 == *parent1 && children.1 == *parent2,
            self.mix_rate().numerator() == self.mix_rate().denominator() ==> same_genes(
                &children.0,
                parent2,
            ) && same_genes(&children.1, parent1),
    {
        let mut child1 = *parent1;
        let mut child2 = *parent2;
        let n = C::len();
        let mut i: usize = 0;
        while i < n
            invariant
                i <= n == C::spec_len() <= usize::MAX,
                forall|j: int|
                    0 <= j < i ==> {
                        ||| #[trigger] child1.gene(j) == parent1.gene(j) && child2.gene(j)
                            == parent2.gene(j)
                        ||| child1.gene(j) == parent2.gene(j) && child2.gene(j) == parent1.gene(j)
                    },
                forall|j: int| i <= j < n ==> #[trigger] child1.gene(j) == parent1.gene(j),
                forall|j: int| i <= j < n ==> #[trigger] child2.gene(j) == parent2.gene(j),
                self.mix_rate().numerator() == 0 ==> child1 == *parent1 && child2 == *parent2,
                self.mix_rate().numerator() == self.mix_rate().denominator() ==> forall|j: int|
                    0 <= j < i ==> #[trigger] child1.gene(j) == parent2.gene(j),
                self.mix_rate().numerator() == self.mix_rate().denominator() ==> forall|j: int|
                    0 <= j < i ==> #[trigger] child2.gene(j) == parent1.gene(j),
            decreases n - i,
        {
            let ghost before1 = child1;
            let ghost before2 = child2;
            if self.mix_rate.draw(rng) {
                child1.cross(parent2, i);
                child2.cross(parent1, i);
            }
            proof {
                assert forall|j: int| 0 <= j <= i implies {
                    ||| #[trigger] child1.gene(j) == parent1.gene(j) && child2.gene(j)
                        == parent2.gene(j)
                    ||| child1.gene(j) == parent2.gene(j) && child2.gene(j) == parent1.gene(j)
                } by {
                    if j < i {
                        assert(child1.gene(j) == before1.gene(j));
                        assert(child2.gene(j) == before2.gene(j));
                    } else {
                        assert(before1.gene(j) == parent1.gene(j));
                        assert(before2.gene(j) == parent2.gene(j));
                    }
                }
                assert forall|j: int| i < j < n implies #[trigger] child1.gene(j) == parent1.gene(
                    j,
                ) by {
                    assert(child1.gene(j) == before1.gene(j));
                }
                assert forall|j: int| i < j < n implies #[trigger] child2.gene(j) == parent2.gene(
                    j,
                ) by {
                    assert(child2.gene(j) == before2.gene(j));
                }
                if self.mix_rate().numerator() == self.mix_rate().denominator() {
                    assert forall|j: int| 0 <= j <= i implies #[trigger] child1.gene(j)
                        == parent2.gene(j) by {
                        if j < i {
                            assert(child1.gene(j) == before1.gene(j));
                        }
                    }
                    assert forall|j: int| 0 <= j <= i implies #[trigger] child2.gene(j)
                        == parent1.gene(j) by {
                        if j < i {
                            assert(child2.gene(j) == before2.gene(j));
                        }
                    }
                }
            }
            i = i + 1;
        }
        (child1, child2)
    }
}

} // verus!
