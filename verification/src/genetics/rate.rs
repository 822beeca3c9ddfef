//! Shares of a whole, and events that come with a given chance.

use crate::random::gen_ratio;
use rand::rngs::StdRng;
use vstd::prelude::*;

verus! {

/// A share between nothing and all, held as a fraction.
#[derive(Clone, Copy, Debug)]
pub struct Rate {
    numerator: u32,
    denominator: u32,
}

impl Rate {
    #[verifier::type_invariant]
    spec fn proper(self) -> bool {
        0 < self.denominator && self.numerator <= self.denominator
    }

    pub closed spec fn numerator(self) -> nat {
        if self.proper() {
            self.numerator as nat
        } else {
            0
        }
    }

    pub closed spec fn denominator(self) -> nat {
        if self.proper() {
            self.denominator as nat
        } else {
            1
        }
    }

    /// The share of `count` that the rate stands for, rounded down.
    pub open spec fn share(self, count: nat) -> nat {
        count * self.numerator() / self.denominator()
    }

    /// A rate is a proper fraction.
    pub proof fn lemma_proper(self)
        ensures
            0 < self.denominator(),
            self.numerator() <= self.denominator(),
    {
    }

    /// The rate `numerator / denominator`.
    pub fn new(numerator: u32, denominator: u32) -> (r: Self)
        requires
            0 < denominator,
            numerator <= denominator,
        ensures
            r.numerator() == numerator,
            r.denominator() == denominator,
    {
        Self { numerator, denominator }
    }

    /// The share of `count` that the rate stands for, rounded down.
    pub fn of(&self, count: usize) -> (n: usize)
        ensures
            n == self.share(count as nat),
            n <= count,
            self.numerator() == 0 ==> n == 0,
            self.numerator() == self.denominator() ==> n == count,
    {
        proof {
            use_type_invariant(self);
            lemma_share(count as nat, self.numerator as nat, self.denominator as nat);
            assert(count * self.numerator <= 0xffff_ffff_ffff_ffff * 0xffff_ffff) by (nonlinear_arith)
                requires
                    count <= 0xffff_ffff_ffff_ffff,
                    self.numerator <= 0xffff_ffff,
            ;
        }
        let product: u128 = (count as u128) * (self.numerator as u128);
        let share: u128 = product / (self.denominator as u128);
        share as usize
    }

    /// Whether an event with this chance happens. It never does at a rate of
    /// nothing and always does at a rate of all.
    pub fn draw(&self, rng: &mut StdRng) -> (r: bool)
        ensures
            self.numerator() == 0 ==> !r,
            self.numerator() == self.denominator() ==> r,
    {
        proof {
            use_type_invariant(self);
        }
        gen_ratio(rng, self.numerator, self.denominator)
    }
}

/// A share is no more than the whole, nothing at a rate of nothing, and the
/// whole at a rate of all.
pub proof fn lemma_share(count: nat, numerator: nat, denominator: nat)
    requires
        0 < denominator,
        numerator <= denominator,
    ensures
        count * numerator / denominator <= count,
        count * numerator <= count * denominator,
        numerator == 0 ==> count * numerator / denominator == 0,
        numerator == denominator ==> count * numerator / denominator == count,
{
    assert(count * numerator <= count * denominator) by (nonlinear_arith)
        requires
            numerator <= denominator,
    ;
    vstd::arithmetic::div_mod::lemma_div_is_ordered(
        (count * numerator) as int,
        (count * denominator) as int,
        denominator as int,
    );
    vstd::arithmetic::div_mod::lemma_div_multiples_vanish(count as int, denominator as int);
    assert(count * denominator == denominator * count) by (nonlinear_arith);
    if numerator == 0 {
        assert(count * numerator == 0) by (nonlinear_arith)
            requires
                numerator == 0,
        ;
    }
}

} // verus!
