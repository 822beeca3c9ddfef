//! Which generations of a search brought progress.

use super::ranking::{fitter, is_fitter};
use super::{Chromosome, Generation};
use vstd::prelude::*;

verus! {

/// Whether the fitness `candidate` improves on `best`, the best that was seen
/// at its rank so far: nothing was seen yet, or the candidate is strictly
/// better.
pub open spec fn improves(candidate: Option<i64>, best: Option<i64>) -> bool {
    best is None || fitter(candidate, best)
}

/// The number of ranks of a hall of fame that are looked at.
pub open spec fn ranks<C: Chromosome>(generation: Generation<C>, hall_of_fame_size: nat) -> nat {
    if hall_of_fame_size <= generation.hall_of_fame@.len() {
        hall_of_fame_size
    } else {
        generation.hall_of_fame@.len()
    }
}

/// The best fitness at the given rank of the hall of fame over all of
/// `generations`, or none if no generation has that rank.
pub open spec fn best_at<C: Chromosome>(
    generations: Seq<Generation<C>>,
    hall_of_fame_size: nat,
    rank: int,
) -> Option<i64>
    decreases generations.len(),
{
    if generations.len() == 0 {
        None
    } else {
        let earlier = best_at(generations.drop_last(), hall_of_fame_size, rank);
        let last = generations.last();
        if 0 <= rank < ranks(last, hall_of_fame_size) && improves(
            last.hall_of_fame@[rank].fitness,
            earlier,
        ) {
            last.hall_of_fame@[rank].fitness
        } else {
            earlier
        }
    }
}

/// Whether generation `nr` improves on those before it at some rank of the
/// hall of fame.
pub open spec fn brings_progress<C: Chromosome>(
    generations: Seq<Generation<C>>,
    hall_of_fame_size: nat,
    nr: int,
) -> bool {
    exists|rank: int|
        0 <= rank < ranks(generations[nr], hall_of_fame_size) && improves(
            (#[trigger] generations[nr].hall_of_fame@[rank]).fitness,
            best_at(generations.take(nr), hall_of_fame_size, rank),
        )
}

/// The numbers of the generations among the first `count` that bring
/// progress, in rising order.
pub open spec fn progress<C: Chromosome>(
    generations: Seq<Generation<C>>,
    hall_of_fame_size: nat,
    count: nat,
) -> Seq<usize>
    decreases count,
{
    if count == 0 {
        Seq::empty()
    } else {
        let earlier = progress(generations, hall_of_fame_size, (count - 1) as nat);
        if brings_progress(generations, hall_of_fame_size, count - 1) {
            earlier.push((count - 1) as usize)
        } else {
            earlier
        }
    }
}

/// The numbers of the generations that improve on all generations before
/// them at some rank of the hall of fame. Of each hall of fame the first
/// `hall_of_fame_size` ranks are looked at.
pub fn improving_generations<C: Chromosome>(
    generations: &Vec<Generation<C>>,
    hall_of_fame_size: usize,
) -> (kept: Vec<usize>)
    ensures
        kept@ == progress(generations@, hall_of_fame_size as nat, generations@.len()),
{
    let mut best: Vec<Option<i64>> = Vec::new();
    let mut kept: Vec<usize> = Vec::new();
    let mut nr: usize = 0;
    while nr < generations.len()
        invariant
            nr <= generations@.len(),
            best@.len() <= hall_of_fame_size,
            kept@ == progress(generations@, hall_of_fame_size as nat, nr as nat),
            forall|rank: int|
                0 <= rank < best@.len() ==> #[trigger] best@[rank] == best_at(
                    generations@.take(nr as int),
                    hall_of_fame_size as nat,
                    rank,
                ),
            forall|rank: int|
                best@.len() <= rank ==> #[trigger] best_at(
                    generations@.take(nr as int),
                    hall_of_fame_size as nat,
                    rank,
                ) is None,
        decreases generations@.len() - nr,
    {
        let generation = &generations[nr];
        let ghost before = generations@.take(nr as int);
        let ghost size = hall_of_fame_size as nat;
        let limit = if hall_of_fame_size <= generation.hall_of_fame.len() {
            hall_of_fame_size
        } else {
            generation.hall_of_fame.len()
        };
        let ghost after = generations@.take(nr + 1);
        proof {
            assert(after.drop_last() =~= before);
            assert(after.last() == generations@[nr as int]);
            assert(limit == ranks(generations@[nr as int], size));
        }
        let mut pass = false;
        let mut rank: usize = 0;
        while rank < limit
            invariant
                rank <= limit,
                rank <= best@.len(),
                limit == ranks(generations@[nr as int], size),
                limit <= hall_of_fame_size,
                size == hall_of_fame_size,
                nr < generations@.len(),
                generation == generations@[nr as int],
                before == generations@.take(nr as int),
                after == generations@.take(nr + 1),
                after.drop_last() == before,
                after.last() == generations@[nr as int],
                best@.len() <= hall_of_fame_size,
                pass <==> exists|r: int|
                    0 <= r < rank && improves(
                        (#[trigger] generations@[nr as int].hall_of_fame@[r]).fitness,
                        best_at(before, size, r),
                    ),
                forall|r: int|
                    0 <= r < best@.len() ==> #[trigger] best@[r] == if r < rank {
                        best_at(after, size, r)
                    } else {
                        best_at(before, size, r)
                    },
                forall|r: int| best@.len() <= r ==> #[trigger] best_at(before, size, r) is None,
            decreases limit - rank,
        {
            let candidate = generation.hall_of_fame[rank].fitness;
            if rank >= best.len() {
                proof {
                    assert(best_at(before, size, rank as int) is None);
                }
                best.push(candidate);
                pass = true;
            } else if is_improvement(candidate, best[rank]) {
                best.set(rank, candidate);
                pass = true;
            }
            proof {
                assert(improves(candidate, best_at(before, size, rank as int)) ==> pass);
            }
            rank = rank + 1;
        }
        proof {
            assert(pass == brings_progress(generations@, size, nr as int));
            assert forall|r: int| 0 <= r < best@.len() implies #[trigger] best@[r] == best_at(
                after,
                size,
                r,
            ) by {
                if r >= rank {
                    assert(best@[r] == best_at(before, size, r));
                }
            }
            assert forall|r: int| best@.len() <= r implies #[trigger] best_at(
                after,
                size,
                r,
            ) is None by {
                assert(best_at(before, size, r) is None);
            }
        }
        if pass {
            kept.push(nr);
        }
        nr = nr + 1;
    }
    proof {
        assert(generations@.take(generations@.len() as int) =~= generations@);
    }
    kept
}

/// Whether the fitness `candidate` improves on `best`.
pub fn is_improvement(candidate: Option<i64>, best: Option<i64>) -> (r: bool)
    ensures
        r == improves(candidate, best),
{
    match best {
        None => true,
        Some(_) => is_fitter(candidate, best),
    }
}

} // verus!
