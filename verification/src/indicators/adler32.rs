//! The tags by which moving averages are told apart: the Adler-32 checksum
//! of each one's lower-case name.

use vstd::prelude::*;

verus! {

pub const ALMA: u32 = 67_568_028;

pub const DEMA: u32 = 66_978_200;

pub const EMA: u32 = 40_698_164;

pub const EMA2: u32 = 64_160_102;

pub const KAMA: u32 = 68_026_779;

pub const SMA: u32 = 43_450_690;

pub const SMMA: u32 = 72_483_247;

/// The two running sums of Adler-32 over `bytes`: the sum of the bytes plus
/// one, and the sum of those sums, both modulo 65521.
#[verifier::opaque]
pub open spec fn sums(bytes: Seq<u8>) -> (nat, nat)
    decreases bytes.len(),
{
    if bytes.len() == 0 {
        (1, 0)
    } else {
        let (a, b) = sums(bytes.drop_last());
        let a = (a + bytes.last()) % 65521;
        (a as nat, ((b + a) % 65521) as nat)
    }
}

/// The Adler-32 checksum of `bytes`.
pub open spec fn checksum(bytes: Seq<u8>) -> nat {
    let (a, b) = sums(bytes);
    b * 65536 + a
}

/// The characters of `name` as bytes. It is meant for ASCII names.
pub open spec fn ascii(name: Seq<char>) -> Seq<u8> {
    Seq::new(name.len(), |i: int| name[i] as u8)
}

/// The running sums grow by one byte as the definition of Adler-32 says.
pub proof fn lemma_sums_push(bytes: Seq<u8>, byte: u8)
    ensures
        sums(bytes.push(byte)).0 == (sums(bytes).0 + byte) % 65521,
        sums(bytes.push(byte)).1 == (sums(bytes).1 + (sums(bytes).0 + byte) % 65521) % 65521,
{
    reveal(sums);
    assert(bytes.push(byte).drop_last() =~= bytes);
}

/// The running sums start at one and zero.
pub proof fn lemma_sums_empty()
    ensures
        sums(Seq::empty()) == (1nat, 0nat),
{
    reveal(sums);
}

/// The checksum of three bytes, written out.
pub proof fn lemma_checksum_of_three(b0: u8, b1: u8, b2: u8)
    ensures
        checksum(seq![b0, b1, b2]) == (3 + 3 * b0 + 2 * b1 + b2) * 65536 + (1 + b0 + b1 + b2),
{
    let none = Seq::<u8>::empty();
    lemma_sums_empty();
    lemma_sums_push(none, b0);
    assert(sums(none.push(b0)) == ((1 + b0) as nat, (1 + b0) as nat));
    lemma_sums_push(none.push(b0), b1);
    assert(sums(none.push(b0).push(b1)) == ((1 + b0 + b1) as nat, (2 + 2 * b0 + b1) as nat));
    lemma_sums_push(none.push(b0).push(b1), b2);
    assert(seq![b0, b1, b2] =~= none.push(b0).push(b1).push(b2));
}

/// The checksum of four bytes, written out.
pub proof fn lemma_checksum_of_four(b0: u8, b1: u8, b2: u8, b3: u8)
    ensures
        checksum(seq![b0, b1, b2, b3]) == (4 + 4 * b0 + 3 * b1 + 2 * b2 + b3) * 65536 + (1 + b0
            + b1 + b2 + b3),
{
    let none = Seq::<u8>::empty();
    lemma_sums_empty();
    lemma_sums_push(none, b0);
    assert(sums(none.push(b0)) == ((1 + b0) as nat, (1 + b0) as nat));
    lemma_sums_push(none.push(b0), b1);
    assert(sums(none.push(b0).push(b1)) == ((1 + b0 + b1) as nat, (2 + 2 * b0 + b1) as nat));
    lemma_sums_push(none.push(b0).push(b1), b2);
    assert(sums(none.push(b0).push(b1).push(b2)) == (
        (1 + b0 + b1 + b2) as nat,
        (3 + 3 * b0 + 2 * b1 + b2) as nat,
    ));
    lemma_sums_push(none.push(b0).push(b1).push(b2), b3);
    assert(seq![b0, b1, b2, b3] =~= none.push(b0).push(b1).push(b2).push(b3));
}

} // verus!
