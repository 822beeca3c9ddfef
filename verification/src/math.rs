//! Rounding of unsigned integers to the multiples of a step.

use vstd::prelude::*;
use vstd::arithmetic::div_mod::{
    lemma_fundamental_div_mod, lemma_fundamental_div_mod_converse, lemma_mod_multiples_basic,
};

verus! {

/// The largest multiple of `multiple` that is no greater than `value`.
pub open spec fn floor_multiple_spec(value: nat, multiple: nat) -> nat {
    (value - value % multiple) as nat
}

/// The smallest multiple of `multiple` that is no less than `value`; zero is
/// the only multiple of zero.
pub open spec fn ceil_multiple_spec(value: nat, multiple: nat) -> nat {
    if multiple == 0 {
        0
    } else {
        ((value + multiple - 1) / (multiple as int) * multiple) as nat
    }
}

/// `floor_multiple_spec` yields a multiple of the step, and `value` lies in
/// the half-open interval of one step's length that starts there.
pub proof fn lemma_floor_multiple_bounds(value: nat, multiple: nat)
    requires
        multiple > 0,
    ensures
        floor_multiple_spec(value, multiple) % multiple == 0,
        floor_multiple_spec(value, multiple) <= value < floor_multiple_spec(value, multiple)
            + multiple,
        floor_multiple_spec(value, multiple) == (value / multiple) * multiple,
        value % multiple <= value,
{
    let v = value as int;
    let m = multiple as int;
    lemma_fundamental_div_mod(v, m);
    assert(m * (v / m) == (v / m) * m) by (nonlinear_arith);
    assert(0 <= (v / m) * m) by (nonlinear_arith)
        requires
            0 <= v,
            0 < m,
    ;
    lemma_mod_multiples_basic(v / m, m);
}

/// `ceil_multiple_spec` yields a multiple of the step, and it exceeds `value`
/// by less than one step.
pub proof fn lemma_ceil_multiple_bounds(value: nat, multiple: nat)
    requires
        multiple > 0,
    ensures
        ceil_multiple_spec(value, multiple) % multiple == 0,
        value <= ceil_multiple_spec(value, multiple) < value + multiple,
        value % multiple == 0 ==> ceil_multiple_spec(value, multiple) == value,
        value % multiple != 0 ==> ceil_multiple_spec(value, multiple) == floor_multiple_spec(
            value,
            multiple,
        ) + multiple,
{
    let v = value as int;
    let m = multiple as int;
    let w = v + m - 1;
    lemma_fundamental_div_mod(w, m);
    lemma_fundamental_div_mod(v, m);
    assert(m * (w / m) == (w / m) * m) by (nonlinear_arith);
    lemma_mod_multiples_basic(w / m, m);
    // The quotient of `value + multiple - 1` is that of `value` when `value`
    // leaves no remainder, and one more otherwise.
    let q = v / m;
    let r = v % m;
    if r == 0 {
        assert(w == q * m + (m - 1)) by (nonlinear_arith)
            requires
                w == v + m - 1,
                v == m * q,
        ;
        lemma_fundamental_div_mod_converse(w, m, q, m - 1);
    } else {
        assert(w == (q + 1) * m + (r - 1)) by (nonlinear_arith)
            requires
                w == v + m - 1,
                v == m * q + r,
        ;
        lemma_fundamental_div_mod_converse(w, m, q + 1, r - 1);
        assert((q + 1) * m == m * q + m) by (nonlinear_arith);
    }
    assert(m * q == q * m) by (nonlinear_arith);
}

/// Rounds `value` down to a multiple of `multiple`.
pub fn floor_multiple(value: u64, multiple: u64) -> (r: u64)
    requires
        multiple > 0,
    ensures
        r == floor_multiple_spec(value as nat, multiple as nat),
        r % multiple == 0,
        r <= value < r + multiple,
{
    proof {
        lemma_floor_multiple_bounds(value as nat, multiple as nat);
    }
    value - (value % multiple)
}

/// Rounds `value` up to a multiple of `multiple`. With a zero step the result
/// is zero.
pub fn ceil_multiple(value: u64, multiple: u64) -> (r: u64)
    requires
        ceil_multiple_spec(value as nat, multiple as nat) <= u64::MAX,
    ensures
        r == ceil_multiple_spec(value as nat, multiple as nat),
        multiple > 0 ==> r % multiple == 0 && value <= r < value + multiple,
{
    if multiple == 0 {
        return 0;
    }
    proof {
        lemma_ceil_multiple_bounds(value as nat, multiple as nat);
        lemma_floor_multiple_bounds(value as nat, multiple as nat);
    }
    let rem: u64 = value % multiple;
    if rem == 0 {
        value
    } else {
        value - rem + multiple
    }
}

} // verus!
