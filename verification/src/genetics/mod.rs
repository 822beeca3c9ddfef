//! Parameter records as chromosomes, and the search by evolution that breeds
//! them.

pub mod crossover;
pub mod evaluation;
pub mod laws;
pub mod mutation;
pub mod progress;
pub mod ranking;
pub mod rate;
pub mod reinsertion;
pub mod selection;
pub mod timings;

use crate::random::{entropy_seed, seeded};
use crossover::Crossover;
use evaluation::{evaluated, Evaluation};
use mutation::{altered_within_domain, Mutation};
use rand::rngs::StdRng;
use ranking::{fitter, lemma_count_head, lemma_rank, ranked, sort_by_fitness_desc};
use reinsertion::Reinsertion;
use selection::Selection;
use std::time::Duration;
use timings::{elapsed, now, Timings};
use vstd::prelude::*;

verus! {

/// A record of parameters seen as a vector of genes.
///
/// The genes are numbered in the order in which the record declares its
/// fields; a field that is itself a chromosome contributes all its genes at
/// that place. Each gene has a domain, the set of values that its generator
/// draws from.
///
/// The contracts speak of a chromosome through three models: the number of
/// genes, the value of each gene read as an integer, and the domain of each
/// gene. The chromosomes of this crate define them. A type from elsewhere
/// that has no means to do so leaves them open, and what its methods promise
/// is then taken on trust.
pub trait Chromosome: Sized + Copy {
    /// The number of genes.
    open spec fn spec_len() -> nat {
        arbitrary()
    }

    /// Gene `i`, read as an integer.
    open spec fn gene(&self, i: int) -> int {
        arbitrary()
    }

    /// Whether `value` lies in the domain of gene `i`.
    open spec fn gene_ok(i: int, value: int) -> bool {
        arbitrary()
    }

    fn len() -> (n: usize)
        requires
            Self::spec_len() <= usize::MAX,
        ensures
            n == Self::spec_len(),
    ;

    /// A chromosome with every gene drawn afresh from its domain.
    fn generate(rng: &mut StdRng) -> (c: Self)
        requires
            Self::spec_len() <= usize::MAX,
        ensures
            forall|i: int| 0 <= i < Self::spec_len() ==> #[trigger] Self::gene_ok(i, c.gene(i)),
    ;

    /// Copies gene `i` from `parent`.
    fn cross(&mut self, parent: &Self, i: usize)
        requires
            i < Self::spec_len() <= usize::MAX,
        ensures
            forall|j: int|
                0 <= j < Self::spec_len() ==> #[trigger] final(self).gene(j) == if j == i {
                    parent.gene(j)
                } else {
                    old(self).gene(j)
                },
    ;

    /// Draws gene `i` afresh from its domain. No other gene changes.
    fn mutate(&mut self, rng: &mut StdRng, i: usize)
        requires
            i < Self::spec_len() <= usize::MAX,
        ensures
            forall|j: int|
                0 <= j < Self::spec_len() && j != i ==> #[trigger] final(self).gene(j) == old(
                    self,
                ).gene(j),
            Self::gene_ok(i as int, final(self).gene(i as int)),
    ;
}

/// The genes of `c` in order.
pub open spec fn genes<C: Chromosome>(c: &C) -> Seq<int> {
    Seq::new(C::spec_len(), |i: int| c.gene(i))
}

/// Whether every gene of `c` lies in its domain.
pub open spec fn in_domain<C: Chromosome>(c: &C) -> bool {
    forall|i: int| 0 <= i < C::spec_len() ==> #[trigger] C::gene_ok(i, c.gene(i))
}

/// Whether the two chromosomes agree gene for gene.
pub open spec fn same_genes<C: Chromosome>(a: &C, b: &C) -> bool {
    forall|i: int| 0 <= i < C::spec_len() ==> #[trigger] a.gene(i) == b.gene(i)
}

/// Whether a chromosome of type `C` is nothing but its genes: two that agree
/// gene for gene are equal.
pub open spec fn determined_by_genes<C: Chromosome>() -> bool {
    forall|a: C, b: C| #[trigger] same_genes(&a, &b) ==> a == b
}

/// A chromosome together with the fitness it was given.
///
/// The fitness is held as an integer score: scores are ordered as the
/// fitness values that they stand for. There is none until the individual has
/// been evaluated, and to have none ranks below every score.
#[derive(Copy, Debug)]
pub struct Individual<C: Chromosome> {
    pub chromosome: C,
    pub fitness: Option<i64>,
}

impl<C: Chromosome> Clone for Individual<C> {
    fn clone(&self) -> (r: Self)
        ensures
            r == *self,
    {
        *self
    }
}

impl<C: Chromosome> Individual<C> {
    /// An individual that has not been evaluated yet.
    pub fn new(chromosome: C) -> (r: Self)
        ensures
            r.chromosome == chromosome,
            r.fitness is None,
    {
        Self { chromosome, fitness: None }
    }

    /// An individual with a fresh chromosome, not evaluated yet.
    pub fn generate(rng: &mut StdRng) -> (r: Self)
        requires
            C::spec_len() <= usize::MAX,
        ensures
            in_domain(&r.chromosome),
            r.fitness is None,
    {
        Self { chromosome: C::generate(rng), fitness: None }
    }
}

/// Whether every individual has a chromosome with all genes in their domains.
pub open spec fn all_in_domain<C: Chromosome>(population: Seq<Individual<C>>) -> bool {
    forall|i: int| 0 <= i < population.len() ==> in_domain(&#[trigger] population[i].chromosome)
}

/// Whether every individual has been evaluated.
pub open spec fn all_evaluated<C: Chromosome>(population: Seq<Individual<C>>) -> bool {
    forall|i: int| 0 <= i < population.len() ==> (#[trigger] population[i]).fitness is Some
}

/// Whether no individual has been evaluated.
pub open spec fn none_evaluated<C: Chromosome>(population: Seq<Individual<C>>) -> bool {
    forall|i: int| 0 <= i < population.len() ==> (#[trigger] population[i]).fitness is None
}

/// A generation as it stood after it was evaluated and ranked.
#[derive(Debug)]
pub struct Generation<C: Chromosome> {
    /// The individuals, the best first.
    pub population: Vec<Individual<C>>,
    /// The best individuals, the best first.
    pub hall_of_fame: Vec<Individual<C>>,
    /// How long it took to make the generation.
    pub timings: Timings,
}

/// The course of a search.
#[derive(Debug)]
pub struct Evolution<C: Chromosome> {
    /// The seed of the random draws: the search can be repeated with it.
    pub seed: u64,
    pub generations: Vec<Generation<C>>,
}

/// The number of individuals in the hall of fame of a population.
pub open spec fn hall_of_fame_len(population_size: nat, hall_of_fame_size: nat) -> nat {
    if hall_of_fame_size <= population_size {
        hall_of_fame_size
    } else {
        population_size
    }
}

impl<C: Chromosome> Generation<C> {
    /// Whether this is the record of a population of the given size: every
    /// individual evaluated, with its genes in their domains, the best first,
    /// and the hall of fame the head of the population.
    pub open spec fn records(&self, population_size: nat, hall_of_fame_size: nat) -> bool {
        &&& self.population@.len() == population_size
        &&& all_evaluated(self.population@)
        &&& all_in_domain(self.population@)
        &&& ranked(self.population@)
        &&& self.hall_of_fame@ == self.population@.take(
            hall_of_fame_len(population_size, hall_of_fame_size) as int,
        )
    }
}

/// A copy of the first `count` individuals.
pub fn head<C: Chromosome>(population: &Vec<Individual<C>>, count: usize) -> (r: Vec<Individual<C>>)
    requires
        count <= population.len(),
    ensures
        r@ == population@.take(count as int),
{
    let mut r: Vec<Individual<C>> = Vec::with_capacity(count);
    let mut i: usize = 0;
    while i < count
        invariant
            i <= count <= population.len(),
            r@ == population@.take(i as int),
        decreases count - i,
    {
        r.push(population[i]);
        i = i + 1;
        assert(r@ =~= population@.take(i as int));
    }
    r
}

/// A search by evolution: a population is evaluated, ranked and bred, one
/// generation after the other.
pub struct GeneticAlgorithm<TE, TS, TC, TM, TR> where
    TE: Evaluation,
    TS: Selection,
    TC: Crossover,
    TM: Mutation,
    TR: Reinsertion,
 {
    evaluation: TE,
    selection: TS,
    crossover: TC,
    mutation: TM,
    reinsertion: TR,
}

impl<TE, TS, TC, TM, TR> GeneticAlgorithm<TE, TS, TC, TM, TR> where
    TE: Evaluation,
    TS: Selection,
    TC: Crossover,
    TM: Mutation,
    TR: Reinsertion,
 {
    pub closed spec fn evaluation(&self) -> TE {
        self.evaluation
    }

    pub closed spec fn selection(&self) -> TS {
        self.selection
    }

    pub closed spec fn crossover(&self) -> TC {
        self.crossover
    }

    pub closed spec fn mutation(&self) -> TM {
        self.mutation
    }

    pub closed spec fn reinsertion(&self) -> TR {
        self.reinsertion
    }

    pub fn new(evaluation: TE, selection: TS, crossover: TC, mutation: TM, reinsertion: TR) -> (r:
        Self)
        ensures
            r.evaluation() == evaluation,
            r.selection() == selection,
            r.crossover() == crossover,
            r.mutation() == mutation,
            r.reinsertion() == reinsertion,
    {
        Self { evaluation, selection, crossover, mutation, reinsertion }
    }

    /// Breeds one child for each parent. The parents are taken two by two:
    /// each pair is crossed and both children are mutated. A parent that is
    /// left without a partner is copied and the copy is mutated.
    ///
    /// What the children look like is up to the crossover, the mutation and
    /// chance. Whatever these do, each gene of a child is the gene of one of
    /// its two parents or a value of its domain.
    pub fn breed(&self, rng: &mut StdRng, parents: &Vec<Individual<TE::Chromosome>>) -> (offspring:
        Vec<Individual<TE::Chromosome>>)
        requires
            TE::Chromosome::spec_len() <= usize::MAX,
        ensures
            offspring@.len() == parents@.len(),
            none_evaluated(offspring@),
            bred_from(parents@, offspring@),
            all_in_domain(parents@) ==> all_in_domain(offspring@),
    {
        let mut offspring: Vec<Individual<TE::Chromosome>> = Vec::with_capacity(parents.len());
        let mut i: usize = 0;
        while i < parents.len()
            invariant
                i <= parents@.len(),
                offspring@.len() == i,
                i % 2 == 0 || i == parents@.len(),
                TE::Chromosome::spec_len() <= usize::MAX,
                none_evaluated(offspring@),
                forall|k: int|
                    0 <= k < i ==> descends(
                        &parents@[k].chromosome,
                        &parents@[partner(k, parents@.len())].chromosome,
                        &#[trigger] offspring@[k].chromosome,
                    ),
                all_in_domain(parents@) ==> all_in_domain(offspring@),
            decreases parents@.len() - i,
        {
            let ghost before = offspring@;
            if parents.len() - i >= 2 {
                let (mut child1, mut child2) = self.crossover.cross(
                    rng,
                    &parents[i].chromosome,
                    &parents[i + 1].chromosome,
                );
                let ghost crossed1 = child1;
                let ghost crossed2 = child2;
                self.mutation.mutate(rng, &mut child1);
                self.mutation.mutate(rng, &mut child2);
                proof {
                    let first = parents@[i as int].chromosome;
                    let second = parents@[i + 1].chromosome;
                    assert(partner(i as int, parents@.len()) == i + 1);
                    assert(partner(i + 1, parents@.len()) == i);
                    assert forall|g: int|
                        0 <= g < TE::Chromosome::spec_len() implies #[trigger] child1.gene(g)
                        == first.gene(g) || child1.gene(g) == second.gene(g)
                        || TE::Chromosome::gene_ok(g, child1.gene(g)) by {
                        let _ = crossed1.gene(g);
                    }
                    assert forall|g: int|
                        0 <= g < TE::Chromosome::spec_len() implies #[trigger] child2.gene(g)
                        == second.gene(g) || child2.gene(g) == first.gene(g)
                        || TE::Chromosome::gene_ok(g, child2.gene(g)) by {
                        let _ = crossed1.gene(g);
                        let _ = crossed2.gene(g);
                    }
                    if all_in_domain(parents@) {
                        assert(in_domain(&parents@[i as int].chromosome));
                        assert(in_domain(&parents@[i + 1].chromosome));
                        assert forall|k: int|
                            0 <= k < TE::Chromosome::spec_len() implies #[trigger] crossed2.gene(k)
                            == parents@[i as int].chromosome.gene(k) || crossed2.gene(k)
                            == parents@[i + 1].chromosome.gene(k) by {
                            let _ = crossed1.gene(k);
                        }
                        lemma_child_in_domain(
                            parents@[i as int].chromosome,
                            parents@[i + 1].chromosome,
                            crossed1,
                            child1,
                        );
                        lemma_child_in_domain(
                            parents@[i as int].chromosome,
                            parents@[i + 1].chromosome,
                            crossed2,
                            child2,
                        );
                    }
                }
                offspring.push(Individual::new(child1));
                offspring.push(Individual::new(child2));
                i = i + 2;
            } else {
                let mut child = parents[i].chromosome;
                self.mutation.mutate(rng, &mut child);
                proof {
                    assert(partner(i as int, parents@.len()) == i);
                    if all_in_domain(parents@) {
                        assert(in_domain(&parents@[i as int].chromosome));
                        lemma_child_in_domain(
                            parents@[i as int].chromosome,
                            parents@[i as int].chromosome,
                            parents@[i as int].chromosome,
                            child,
                        );
                    }
                }
                offspring.push(Individual::new(child));
                i = i + 1;
            }
            proof {
                assert forall|k: int| 0 <= k < offspring@.len() implies (
                #[trigger] offspring@[k]).fitness is None by {
                    if k < before.len() {
                        assert(offspring@[k] == before[k]);
                    }
                }
                assert forall|k: int| 0 <= k < offspring@.len() implies descends(
                    &parents@[k].chromosome,
                    &parents@[partner(k, parents@.len())].chromosome,
                    &#[trigger] offspring@[k].chromosome,
                ) by {
                    if k < before.len() {
                        assert(offspring@[k] == before[k]);
                    }
                }
                if all_in_domain(parents@) {
                    assert forall|k: int| 0 <= k < offspring@.len() implies in_domain(
                        &#[trigger] offspring@[k].chromosome,
                    ) by {
                        if k < before.len() {
                            assert(offspring@[k] == before[k]);
                        }
                    }
                }
            }
        }
        offspring
    }

    /// The population that follows `population`: parents are selected and
    /// bred, and the offspring are reinserted. The offspring have no fitness
    /// yet.
    pub fn run_generation(
        &self,
        population: Vec<Individual<TE::Chromosome>>,
        rng: &mut StdRng,
    ) -> (next: Vec<Individual<TE::Chromosome>>)
        requires
            TE::Chromosome::spec_len() <= usize::MAX,
        ensures
            next@.len() == population@.len(),
            all_in_domain(population@) ==> all_in_domain(next@),
            forall|i: int|
                0 <= i < self.reinsertion().kept(population@.len()) ==> #[trigger] next@[i]
                    == population@[i],
            forall|i: int|
                self.reinsertion().kept(population@.len()) <= i < next@.len() ==> (
                #[trigger] next@[i]).fitness is None,
    {
        let size = population.len();
        let count = self.reinsertion.offspring_count(size);
        let parents = self.selection.select(rng, &population, count);
        let offspring = self.breed(rng, &parents);
        let ghost kept = self.reinsertion.kept(size as nat) as int;
        let next = self.reinsertion.reinsert(population, offspring);
        proof {
            assert(next@ == population@.take(kept) + offspring@.take(size - kept));
            if all_in_domain(population@) {
                assert forall|i: int| 0 <= i < next@.len() implies in_domain(
                    &#[trigger] next@[i].chromosome,
                ) by {
                    if i < kept {
                        assert(next@[i] == population@[i]);
                    } else {
                        assert(next@[i] == offspring@[i - kept]);
                    }
                }
            }
            assert forall|i: int| kept <= i < next@.len() implies (
            #[trigger] next@[i]).fitness is None by {
                assert(next@[i] == offspring@[i - kept]);
            }
        }
        next
    }

    /// Runs the search: a population of `population_size` fresh individuals,
    /// then for each generation an evaluation, a ranking, a record with the
    /// best `hall_of_fame_size` individuals, which `on_generation` is shown,
    /// and, unless it was the last, the breeding of the next population.
    ///
    /// Without a seed one is drawn from the operating system. The random
    /// draws of the search depend on the seed alone.
    ///
    /// The individuals that the reinsertion keeps are part of the next
    /// generation. Where it keeps at least as many as the hall of fame holds,
    /// the hall of fame is at no rank worse than in the generation before: it
    /// then names the best individuals of all generations so far.
    pub fn evolve<F: Fn(usize, &Generation<TE::Chromosome>)>(
        &self,
        population_size: usize,
        generations: usize,
        hall_of_fame_size: usize,
        seed: Option<u64>,
        on_generation: F,
    ) -> (evolution: Evolution<TE::Chromosome>)
        requires
            TE::Chromosome::spec_len() <= usize::MAX,
            forall|nr: usize, generation: &Generation<TE::Chromosome>|
                call_requires(on_generation, (nr, generation)),
        ensures
            seed is Some ==> evolution.seed == seed->0,
            evolution.generations@.len() == generations,
            forall|nr: int|
                0 <= nr < generations ==> (#[trigger] evolution.generations@[nr]).records(
                    population_size as nat,
                    hall_of_fame_size as nat,
                ),
            forall|nr: int|
                1 <= nr < generations ==> #[trigger] elite_survives(
                    evolution.generations@,
                    nr,
                    self.reinsertion().kept(population_size as nat),
                ),
            hall_of_fame_len(population_size as nat, hall_of_fame_size as nat)
                <= self.reinsertion().kept(population_size as nat) ==> forall|nr: int|
                1 <= nr < generations ==> #[trigger] fame_holds(evolution.generations@, nr),
    {
        let ghost kept = self.reinsertion().kept(population_size as nat);
        let seed = match seed {
            Some(seed) => seed,
            None => entropy_seed(),
        };
        let mut rng = seeded(seed);
        let mut population: Vec<Individual<TE::Chromosome>> = Vec::with_capacity(population_size);
        let mut i: usize = 0;
        while i < population_size
            invariant
                i <= population_size,
                population@.len() == i,
                TE::Chromosome::spec_len() <= usize::MAX,
                all_in_domain(population@),
            decreases population_size - i,
        {
            let ghost before = population@;
            population.push(Individual::generate(&mut rng));
            i = i + 1;
            proof {
                assert forall|k: int| 0 <= k < population@.len() implies in_domain(
                    &#[trigger] population@[k].chromosome,
                ) by {
                    if k < before.len() {
                        assert(population@[k] == before[k]);
                    }
                }
            }
        }
        let fame = if hall_of_fame_size <= population_size {
            hall_of_fame_size
        } else {
            population_size
        };
        let mut records: Vec<Generation<TE::Chromosome>> = Vec::with_capacity(generations);
        let mut breeding: Option<Duration> = None;
        let mut nr: usize = 0;
        while nr < generations
            invariant
                nr <= generations,
                records@.len() == nr,
                population@.len() == population_size,
                fame == hall_of_fame_len(population_size as nat, hall_of_fame_size as nat),
                TE::Chromosome::spec_len() <= usize::MAX,
                all_in_domain(population@),
                forall|k: int|
                    0 <= k < nr ==> (#[trigger] records@[k]).records(
                        population_size as nat,
                        hall_of_fame_size as nat,
                    ),
                forall|nr: usize, generation: &Generation<TE::Chromosome>|
                    call_requires(on_generation, (nr, generation)),
                kept == self.reinsertion().kept(population_size as nat),
                nr >= 1 ==> forall|i: int|
                    0 <= i < kept && i < population_size ==> #[trigger] population@[i]
                        == records@[nr - 1].population@[i],
                forall|k: int| 1 <= k < nr ==> #[trigger] elite_survives(records@, k, kept),
                fame <= kept ==> forall|k: int| 1 <= k < nr ==> #[trigger] fame_holds(records@, k),
            decreases generations - nr,
        {
            let ghost bred = population@;
            let start = now();
            self.evaluation.evaluate(&mut population);
            let evaluation = elapsed(&start);
            let ghost scored = population@;
            let start = now();
            population = sort_by_fitness_desc(population);
            let ranking = elapsed(&start);
            proof {
                lemma_rearranged_keeps(scored, population@);
                assert(all_in_domain(scored)) by {
                    assert forall|k: int| 0 <= k < scored.len() implies in_domain(
                        &#[trigger] scored[k].chromosome,
                    ) by {
                        assert(in_domain(&bred[k].chromosome));
                    }
                }
            }
            let record = Generation {
                population: head(&population, population_size),
                hall_of_fame: head(&population, fame),
                timings: Timings { breeding, evaluation, ranking },
            };
            proof {
                assert(record.population@ =~= population@);
                if nr >= 1 {
                    let previous = records@[nr - 1];
                    assert(previous.records(population_size as nat, hall_of_fame_size as nat));
                    lemma_next_generation(previous.population@, bred, scored, population@, kept);
                }
            }
            on_generation(nr, &record);
            let ghost earlier = records@;
            records.push(record);
            nr = nr + 1;
            proof {
                assert forall|k: int| 0 <= k < nr implies (#[trigger] records@[k]).records(
                    population_size as nat,
                    hall_of_fame_size as nat,
                ) by {
                    if k < earlier.len() {
                        assert(records@[k] == earlier[k]);
                    }
                }
                assert forall|k: int| 1 <= k < nr implies #[trigger] elite_survives(
                    records@,
                    k,
                    kept,
                ) by {
                    assert(records@[k - 1] == earlier[k - 1]);
                    if k < earlier.len() {
                        assert(records@[k] == earlier[k]);
                        assert(elite_survives(earlier, k, kept));
                    }
                }
                if fame <= kept {
                    assert forall|k: int| 1 <= k < nr implies #[trigger] fame_holds(records@, k) by {
                        assert(records@[k - 1] == earlier[k - 1]);
                        if k < earlier.len() {
                            assert(records@[k] == earlier[k]);
                            assert(fame_holds(earlier, k));
                        }
                    }
                }
            }
            if nr < generations {
                let start = now();
                population = self.run_generation(population, &mut rng);
                breeding = Some(elapsed(&start));
            }
        }
        Evolution { seed, generations: records }
    }
}

/// Whether the first `kept` individuals of generation `nr - 1` are part of
/// generation `nr`.
pub open spec fn elite_survives<C: Chromosome>(
    generations: Seq<Generation<C>>,
    nr: int,
    kept: nat,
) -> bool {
    forall|i: int|
        0 <= i < kept && i < generations[nr - 1].population@.len()
            ==> generations[nr].population@.contains(
            #[trigger] generations[nr - 1].population@[i],
        )
}

/// Whether at no rank the hall of fame of generation `nr` is worse than that
/// of generation `nr - 1`.
pub open spec fn fame_holds<C: Chromosome>(generations: Seq<Generation<C>>, nr: int) -> bool {
    no_worse(generations[nr - 1], generations[nr])
}

/// Whether at no rank the hall of fame of `later` is worse than that of
/// `earlier`.
pub open spec fn no_worse<C: Chromosome>(earlier: Generation<C>, later: Generation<C>) -> bool {
    forall|rank: int|
        0 <= rank < earlier.hall_of_fame@.len() && rank < later.hall_of_fame@.len() ==> !fitter(
            (#[trigger] earlier.hall_of_fame@[rank]).fitness,
            later.hall_of_fame@[rank].fitness,
        )
}

/// Where the hall of fame holds from each generation to the next, it holds
/// from each generation to every later one, given that the halls are of one
/// size: the hall of fame names the best individuals of all generations so
/// far.
pub proof fn lemma_fame_holds_throughout<C: Chromosome>(
    generations: Seq<Generation<C>>,
    earlier: int,
    later: int,
)
    requires
        0 <= earlier <= later < generations.len(),
        forall|nr: int| 1 <= nr < generations.len() ==> #[trigger] fame_holds(generations, nr),
        forall|nr: int|
            0 <= nr < generations.len() ==> (#[trigger] generations[nr]).hall_of_fame@.len()
                == generations[0].hall_of_fame@.len(),
    ensures
        no_worse(generations[earlier], generations[later]),
    decreases later - earlier,
{
    if earlier < later {
        lemma_fame_holds_throughout(generations, earlier, later - 1);
        assert(fame_holds(generations, later));
        let a = generations[earlier];
        let b = generations[later - 1];
        let c = generations[later];
        assert(a.hall_of_fame@.len() == generations[0].hall_of_fame@.len());
        assert(b.hall_of_fame@.len() == generations[0].hall_of_fame@.len());
        assert(c.hall_of_fame@.len() == generations[0].hall_of_fame@.len());
        assert forall|rank: int|
            0 <= rank < a.hall_of_fame@.len() && rank < c.hall_of_fame@.len() implies !fitter(
            (#[trigger] a.hall_of_fame@[rank]).fitness,
            c.hall_of_fame@[rank].fitness,
        ) by {
            assert(!fitter(a.hall_of_fame@[rank].fitness, b.hall_of_fame@[rank].fitness));
            assert(!fitter(b.hall_of_fame@[rank].fitness, c.hall_of_fame@[rank].fitness));
        }
    }
}

/// Where the hall of fame holds from each generation to the next, no
/// individual of any generation so far would take a place in the hall of
/// fame from the one that has it: the individual at place `i` of an earlier
/// generation is no fitter than the member of a later hall of fame at rank
/// `i`, or at the last rank if the hall has fewer.
pub proof fn lemma_fame_is_best_so_far<C: Chromosome>(
    generations: Seq<Generation<C>>,
    population_size: nat,
    hall_of_fame_size: nat,
    earlier: int,
    later: int,
    i: int,
)
    requires
        0 <= earlier <= later < generations.len(),
        0 <= i < population_size,
        0 < hall_of_fame_size,
        forall|nr: int|
            0 <= nr < generations.len() ==> (#[trigger] generations[nr]).records(
                population_size,
                hall_of_fame_size,
            ),
        forall|nr: int| 1 <= nr < generations.len() ==> #[trigger] fame_holds(generations, nr),
    ensures
        ({
            let last = hall_of_fame_len(population_size, hall_of_fame_size) - 1;
            let rank = if i < last {
                i
            } else {
                last
            };
            !fitter(
                generations[earlier].population@[i].fitness,
                generations[later].hall_of_fame@[rank].fitness,
            )
        }),
{
    let last = hall_of_fame_len(population_size, hall_of_fame_size) - 1;
    let rank = if i < last {
        i
    } else {
        last
    };
    let a = generations[earlier];
    let b = generations[later];
    assert(a.records(population_size, hall_of_fame_size));
    assert(b.records(population_size, hall_of_fame_size));
    assert(generations[0].records(population_size, hall_of_fame_size));
    assert forall|nr: int| 0 <= nr < generations.len() implies (
    #[trigger] generations[nr]).hall_of_fame@.len() == generations[0].hall_of_fame@.len() by {
        assert(generations[nr].records(population_size, hall_of_fame_size));
    }
    lemma_fame_holds_throughout(generations, earlier, later);
    assert(a.hall_of_fame@[rank] == a.population@[rank]);
    assert(!fitter(a.hall_of_fame@[rank].fitness, b.hall_of_fame@[rank].fitness));
    if rank < i {
        assert(!fitter(a.population@[i].fitness, a.population@[rank].fitness));
    }
}

/// What links a generation to the one before it: `previous` is the earlier
/// generation as it was ranked, `bred` what followed it, `scored` that with
/// fitness, and `next` the same in ranks.
proof fn lemma_next_generation<C: Chromosome>(
    previous: Seq<Individual<C>>,
    bred: Seq<Individual<C>>,
    scored: Seq<Individual<C>>,
    next: Seq<Individual<C>>,
    kept: nat,
)
    requires
        ranked(previous),
        all_evaluated(previous),
        bred.len() == previous.len(),
        forall|i: int| 0 <= i < kept && i < previous.len() ==> #[trigger] bred[i] == previous[i],
        evaluated(bred, scored),
        ranked(next),
        next.len() == scored.len(),
        next.to_multiset() == scored.to_multiset(),
        forall|fitness: Option<i64>|
            #[trigger] ranking::count_as_fit_as(next, fitness) == ranking::count_as_fit_as(
                scored,
                fitness,
            ),
    ensures
        forall|i: int| 0 <= i < kept && i < previous.len() ==> next.contains(#[trigger] previous[i]),
        forall|rank: int|
            0 <= rank < kept && rank < previous.len() ==> !fitter(
                (#[trigger] previous[rank]).fitness,
                next[rank].fitness,
            ),
{
    assert forall|i: int| 0 <= i < kept && i < previous.len() implies #[trigger] scored[i]
        == previous[i] by {
        assert(bred[i] == previous[i]);
        assert(previous[i].fitness is Some);
        assert(scored[i].chromosome == bred[i].chromosome);
        assert(scored[i].fitness == bred[i].fitness);
    }
    selection::lemma_rearranged_all_from(scored, next);
    assert forall|i: int| 0 <= i < kept && i < previous.len() implies next.contains(
        #[trigger] previous[i],
    ) by {
        assert(scored[i] == previous[i]);
        assert(next.contains(scored[i]));
    }
    assert forall|rank: int| 0 <= rank < kept && rank < previous.len() implies !fitter(
        (#[trigger] previous[rank]).fitness,
        next[rank].fitness,
    ) by {
        let fitness = previous[rank].fitness;
        assert forall|i: int| 0 <= i < rank + 1 implies !fitter(
            fitness,
            (#[trigger] scored[i]).fitness,
        ) by {
            assert(scored[i] == previous[i]);
        }
        lemma_count_head(scored, rank + 1, fitness);
        lemma_rank(next, rank, fitness);
    }
}

/// The place of the parent that the parent at place `k` of `count` is paired
/// with: even and odd neighbours go together, and a last parent without a
/// neighbour stays by itself.
pub open spec fn partner(k: int, count: nat) -> int {
    if k % 2 == 1 {
        k - 1
    } else if k + 1 < count {
        k + 1
    } else {
        k
    }
}

/// Whether each gene of `child` is the gene of one of the two parents or a
/// value of its domain.
pub open spec fn descends<C: Chromosome>(parent: &C, other: &C, child: &C) -> bool {
    forall|g: int|
        0 <= g < C::spec_len() ==> {
            ||| #[trigger] child.gene(g) == parent.gene(g)
            ||| child.gene(g) == other.gene(g)
            ||| C::gene_ok(g, child.gene(g))
        }
}

/// Whether the child at each place descends from the parent at that place
/// and the one it is paired with.
pub open spec fn bred_from<C: Chromosome>(
    parents: Seq<Individual<C>>,
    offspring: Seq<Individual<C>>,
) -> bool {
    &&& offspring.len() == parents.len()
    &&& forall|k: int|
        0 <= k < offspring.len() ==> descends(
            &parents[k].chromosome,
            &parents[partner(k, parents.len())].chromosome,
            &#[trigger] offspring[k].chromosome,
        )
}

/// A child that has the genes of parents in their domains, some of them
/// altered within their domains, has its genes in their domains.
proof fn lemma_child_in_domain<C: Chromosome>(parent1: C, parent2: C, crossed: C, child: C)
    requires
        in_domain(&parent1),
        in_domain(&parent2),
        forall|i: int|
            0 <= i < C::spec_len() ==> #[trigger] crossed.gene(i) == parent1.gene(i)
                || crossed.gene(i) == parent2.gene(i),
        altered_within_domain(&crossed, &child),
    ensures
        in_domain(&child),
{
    assert forall|i: int| 0 <= i < C::spec_len() implies #[trigger] C::gene_ok(
        i,
        child.gene(i),
    ) by {
        assert(C::gene_ok(i, parent1.gene(i)));
        assert(C::gene_ok(i, parent2.gene(i)));
        assert(crossed.gene(i) == parent1.gene(i) || crossed.gene(i) == parent2.gene(i));
        assert(child.gene(i) == crossed.gene(i) || C::gene_ok(i, child.gene(i)));
    }
}

/// Individuals that are evaluated and have their genes in their domains stay
/// so when they are put in another order.
proof fn lemma_rearranged_keeps<C: Chromosome>(
    before: Seq<Individual<C>>,
    after: Seq<Individual<C>>,
)
    requires
        after.to_multiset() == before.to_multiset(),
    ensures
        all_evaluated(before) ==> all_evaluated(after),
        all_in_domain(before) ==> all_in_domain(after),
{
    selection::lemma_rearranged_all_from(after, before);
    if all_in_domain(before) {
        selection::lemma_all_from_in_domain(after, before);
    }
    if all_evaluated(before) {
        assert forall|i: int| 0 <= i < after.len() implies (#[trigger] after[i]).fitness is Some by {
            assert(before.contains(after[i]));
            let j = choose|j: int| 0 <= j < before.len() && before[j] == after[i];
            assert(before[j].fitness is Some);
        }
    }
}

} // verus!
