//! The parameters of the raw signals that are made of moving averages.
//!
//! The signals themselves compute on prices and stand outside this crate.
//! Their parameters are whole numbers, and what a search does to them is
//! stated and proved here.

use super::StdRngExt;
use crate::genetics::{determined_by_genes, same_genes, Chromosome};
use crate::indicators::is_ma;
use crate::random::gen_range_u32;
use rand::rngs::StdRng;
use vstd::prelude::*;

verus! {

/// The least period of a moving average.
pub const MIN_PERIOD: u32 = 1;

/// The bound that the period of a moving average stays below.
pub const MAX_PERIOD: u32 = 100;

/// Whether `value` is a gene that stands for a moving average: one of the
/// tags.
pub open spec fn ma_gene_ok(value: int) -> bool {
    0 <= value <= u32::MAX && is_ma(value as u32)
}

/// Whether `value` is a gene that stands for a period.
pub open spec fn period_gene_ok(value: int) -> bool {
    MIN_PERIOD <= value < MAX_PERIOD
}

/// A period: at least `MIN_PERIOD` and less than `MAX_PERIOD`.
pub fn gen_period(rng: &mut StdRng) -> (r: u32)
    ensures
        MIN_PERIOD <= r < MAX_PERIOD,
{
    gen_range_u32(rng, MIN_PERIOD, MAX_PERIOD)
}

/// The parameters of a signal that holds the price against one moving
/// average: the average and its period.
#[derive(Clone, Copy, Debug, PartialEq, Eq, Structural)]
pub struct SingleMAParams {
    pub ma: u32,
    pub period: u32,
}

impl Chromosome for SingleMAParams {
    open spec fn spec_len() -> nat {
        2
    }

    open spec fn gene(&self, i: int) -> int {
        if i == 0 {
            self.ma as int
        } else {
            self.period as int
        }
    }

    open spec fn gene_ok(i: int, value: int) -> bool {
        if i == 0 {
            ma_gene_ok(value)
        } else {
            period_gene_ok(value)
        }
    }

    fn len() -> (n: usize) {
        2
    }

    fn generate(rng: &mut StdRng) -> (c: Self) {
        let ma = rng.gen_ma();
        let period = gen_period(rng);
        Self { ma, period }
    }

    fn cross(&mut self, parent: &Self, i: usize) {
        if i == 0 {
            self.ma = parent.ma;
        } else {
            self.period = parent.period;
        }
    }

    fn mutate(&mut self, rng: &mut StdRng, i: usize) {
        if i == 0 {
            self.ma = rng.gen_ma();
        } else {
            self.period = gen_period(rng);
        }
    }
}

/// The record is nothing but its genes.
pub proof fn lemma_single_ma_params_determined()
    ensures
        determined_by_genes::<SingleMAParams>(),
{
    assert forall|a: SingleMAParams, b: SingleMAParams| #[trigger] same_genes(&a, &b) implies a == b by {
        assert(a.gene(0) == b.gene(0));
        assert(a.gene(1) == b.gene(1));
    }
}

/// The parameters of a signal that holds a short moving average against a
/// long one: the two averages and their periods.
#[derive(Clone, Copy, Debug, PartialEq, Eq, Structural)]
pub struct DoubleMAParams {
    pub short_ma: u32,
    pub long_ma: u32,
    pub short_period: u32,
    pub long_period: u32,
}

impl Chromosome for DoubleMAParams {
    open spec fn spec_len() -> nat {
        4
    }

    open spec fn gene(&self, i: int) -> int {
        if i == 0 {
            self.short_ma as int
        } else if i == 1 {
            self.long_ma as int
        } else if i == 2 {
            self.short_period as int
        } else {
            self.long_period as int
        }
    }

    open spec fn gene_ok(i: int, value: int) -> bool {
        if i == 0 {
            ma_gene_ok(value)
        } else if i == 1 {
            ma_gene_ok(value)
        } else if i == 2 {
            period_gene_ok(value)
        } else {
            period_gene_ok(value)
        }
    }

    fn len() -> (n: usize) {
        4
    }

    fn generate(rng: &mut StdRng) -> (c: Self) {
        let short_ma = rng.gen_ma();
        let long_ma = rng.gen_ma();
        let short_period = gen_period(rng);
        let long_period = gen_period(rng);
        Self { short_ma, long_ma, short_period, long_period }
    }

    fn cross(&mut self, parent: &Self, i: usize) {
        if i == 0 {
            self.short_ma = parent.short_ma;
        } else if i == 1 {
            self.long_ma = parent.long_ma;
        } else if i == 2 {
            self.short_period = parent.short_period;
        } else {
            self.long_period = parent.long_period;
        }
    }

    fn mutate(&mut self, rng: &mut StdRng, i: usize) {
        if i == 0 {
            self.short_ma = rng.gen_ma();
        } else if i == 1 {
            self.long_ma = rng.gen_ma();
        } else if i == 2 {
            self.short_period = gen_period(rng);
        } else {
            self.long_period = gen_period(rng);
        }
    }
}

/// The record is nothing but its genes.
pub proof fn lemma_double_ma_params_determined()
    ensures
        determined_by_genes::<DoubleMAParams>(),
{
    assert forall|a: DoubleMAParams, b: DoubleMAParams| #[trigger] same_genes(&a, &b) implies a == b by {
        assert(a.gene(0) == b.gene(0));
        assert(a.gene(1) == b.gene(1));
        assert(a.gene(2) == b.gene(2));
        assert(a.gene(3) == b.gene(3));
    }
}

/// The parameters of a signal that holds three moving averages against each
/// other: the three averages and their periods.
#[derive(Clone, Copy, Debug, PartialEq, Eq, Structural)]
pub struct TripleMAParams {
    pub short_ma: u32,
    pub medium_ma: u32,
    pub long_ma: u32,
    pub short_period: u32,
    pub medium_period: u32,
    pub long_period: u32,
}

impl Chromosome for TripleMAParams {
    open spec fn spec_len() -> nat {
        6
    }

    open spec fn gene(&self, i: int) -> int {
        if i == 0 {
            self.short_ma as int
        } else if i == 1 {
            self.medium_ma as int
        } else if i == 2 {
            self.long_ma as int
        } else if i == 3 {
            self.short_period as int
        } else if i == 4 {
            self.medium_period as int
        } else {
            self.long_period as int
        }
    }

    open spec fn gene_ok(i: int, value: int) -> bool {
        if i == 0 {
            ma_gene_ok(value)
        } else if i == 1 {
            ma_gene_ok(value)
        } else if i == 2 {
            ma_gene_ok(value)
        } else if i == 3 {
            period_gene_ok(value)
        } else if i == 4 {
            period_gene_ok(value)
        } else {
            period_gene_ok(value)
        }
    }

    fn len() -> (n: usize) {
        6
    }

    fn generate(rng: &mut StdRng) -> (c: Self) {
        let short_ma = rng.gen_ma();
        let medium_ma = rng.gen_ma();
        let long_ma = rng.gen_ma();
        let short_period = gen_period(rng);
        let medium_period = gen_period(rng);
        let long_period = gen_period(rng);
        Self { short_ma, medium_ma, long_ma, short_period, medium_period, long_period }
    }

    fn cross(&mut self, parent: &Self, i: usize) {
        if i == 0 {
            self.short_ma = parent.short_ma;
        } else if i == 1 {
            self.medium_ma = parent.medium_ma;
        } else if i == 2 {
            self.long_ma = parent.long_ma;
        } else if i == 3 {
            self.short_period = parent.short_period;
        } else if i == 4 {
            self.medium_period = parent.medium_period;
        } else {
            self.long_period = parent.long_period;
        }
    }

    fn mutate(&mut self, rng: &mut StdRng, i: usize) {
        if i == 0 {
            self.short_ma = rng.gen_ma();
        } else if i == 1 {
            self.medium_ma = rng.gen_ma();
        } else if i == 2 {
            self.long_ma = rng.gen_ma();
        } else if i == 3 {
            self.short_period = gen_period(rng);
        } else if i == 4 {
            self.medium_period = gen_period(rng);
        } else {
            self.long_period = gen_period(rng);
        }
    }
}

/// The record is nothing but its genes.
pub proof fn lemma_triple_ma_params_determined()
    ensures
        determined_by_genes::<TripleMAParams>(),
{
    assert forall|a: TripleMAParams, b: TripleMAParams| #[trigger] same_genes(&a, &b) implies a == b by {
        assert(a.gene(0) == b.gene(0));
        assert(a.gene(1) == b.gene(1));
        assert(a.gene(2) == b.gene(2));
        assert(a.gene(3) == b.gene(3));
        assert(a.gene(4) == b.gene(4));
        assert(a.gene(5) == b.gene(5));
    }
}

/// The parameters of a signal off the difference of two moving averages and
/// its own average: the three periods.
#[derive(Clone, Copy, Debug, PartialEq, Eq, Structural)]
pub struct MacdParams {
    pub short_period: u32,
    pub long_period: u32,
    pub signal_period: u32,
}

impl Chromosome for MacdParams {
    open spec fn spec_len() -> nat {
        3
    }

    open spec fn gene(&self, i: int) -> int {
        if i == 0 {
            self.short_period as int
        } else if i == 1 {
            self.long_period as int
        } else {
            self.signal_period as int
        }
    }

    open spec fn gene_ok(i: int, value: int) -> bool {
        if i == 0 {
            period_gene_ok(value)
        } else if i == 1 {
            period_gene_ok(value)
        } else {
            period_gene_ok(value)
        }
    }

    fn len() -> (n: usize) {
        3
    }

    fn generate(rng: &mut StdRng) -> (c: Self) {
        let short_period = gen_period(rng);
        let long_period = gen_period(rng);
        let signal_period = gen_period(rng);
        Self { short_period, long_period, signal_period }
    }

    fn cross(&mut self, parent: &Self, i: usize) {
        if i == 0 {
            self.short_period = parent.short_period;
        } else if i == 1 {
            self.long_period = parent.long_period;
        } else {
            self.signal_period = parent.signal_period;
        }
    }

    fn mutate(&mut self, rng: &mut StdRng, i: usize) {
        if i == 0 {
            self.short_period = gen_period(rng);
        } else if i == 1 {
            self.long_period = gen_period(rng);
        } else {
            self.signal_period = gen_period(rng);
        }
    }
}

/// The record is nothing but its genes.
pub proof fn lemma_macd_params_determined()
    ensures
        determined_by_genes::<MacdParams>(),
{
    assert forall|a: MacdParams, b: MacdParams| #[trigger] same_genes(&a, &b) implies a == b by {
        assert(a.gene(0) == b.gene(0));
        assert(a.gene(1) == b.gene(1));
        assert(a.gene(2) == b.gene(2));
    }
}

/// The parameters of a signal off the extremes of the last weeks, with a
/// moving average to leave by: the number of candles, the average and its
/// period.
#[derive(Clone, Copy, Debug, PartialEq, Eq, Structural)]
pub struct FourWeekRuleParams {
    pub period: u32,
    pub ma: u32,
    pub ma_period: u32,
}

impl Chromosome for FourWeekRuleParams {
    open spec fn spec_len() -> nat {
        3
    }

    open spec fn gene(&self, i: int) -> int {
        if i == 0 {
            self.period as int
        } else if i == 1 {
            self.ma as int
        } else {
            self.ma_period as int
        }
    }

    open spec fn gene_ok(i: int, value: int) -> bool {
        if i == 0 {
            period_gene_ok(value)
        } else if i == 1 {
            ma_gene_ok(value)
        } else {
            period_gene_ok(value)
        }
    }

    fn len() -> (n: usize) {
        3
    }

    fn generate(rng: &mut StdRng) -> (c: Self) {
        let period = gen_period(rng);
        let ma = rng.gen_ma();
        let ma_period = gen_period(rng);
        Self { period, ma, ma_period }
    }

    fn cross(&mut self, parent: &Self, i: usize) {
        if i == 0 {
            self.period = parent.period;
        } else if i == 1 {
            self.ma = parent.ma;
        } else {
            self.ma_period = parent.ma_period;
        }
    }

    fn mutate(&mut self, rng: &mut StdRng, i: usize) {
        if i == 0 {
            self.period = gen_period(rng);
        } else if i == 1 {
            self.ma = rng.gen_ma();
        } else {
            self.ma_period = gen_period(rng);
        }
    }
}

/// The record is nothing but its genes.
pub proof fn lemma_four_week_rule_params_determined()
    ensures
        determined_by_genes::<FourWeekRuleParams>(),
{
    assert forall|a: FourWeekRuleParams, b: FourWeekRuleParams| #[trigger] same_genes(&a, &b) implies a == b by {
        assert(a.gene(0) == b.gene(0));
        assert(a.gene(1) == b.gene(1));
        assert(a.gene(2) == b.gene(2));
    }
}

} // verus!
