//! The base prime field modulus and modular-reduction reasoning helpers.
//!
//! Every field value in this crate is modelled in specifications as a
//! mathematical integer in canonical reduced form, i.e. in `[0, prime())`.
//! The lemmas here let proofs move reductions freely through sums, products
//! and negations.

use vstd::prelude::*;
use vstd::arithmetic::div_mod::{
    lemma_add_mod_noop, lemma_mod_bound, lemma_mod_twice, lemma_mul_mod_noop_general,
    lemma_small_mod, lemma_sub_mod_noop,
};

verus! {

/// The BLS12-381 base field characteristic, assembled from 64-bit limbs
/// (most significant first).
pub open spec fn prime() -> int {
    (((((0x1a0111ea397fe69a as int * 0x10000000000000000 + 0x4b1ba7b6434bacd7)
        * 0x10000000000000000 + 0x64774b84f38512bf)
        * 0x10000000000000000 + 0x6730d2a0f6b0f624)
        * 0x10000000000000000 + 0x1eabfffeb153ffff)
        * 0x10000000000000000 + 0xb9feffffffffaaab)
}

/// Reduction of an integer to its canonical residue modulo `prime()`.
pub open spec fn mm(x: int) -> int {
    x % prime()
}

/// A canonical base-field residue.
pub open spec fn fp_ok(x: int) -> bool {
    0 <= x < prime()
}

pub proof fn lemma_mm_range(x: int)
    ensures
        fp_ok(mm(x)),
{
    lemma_mod_bound(x, prime());
}

pub proof fn lemma_mm_small(x: int)
    requires
        fp_ok(x),
    ensures
        mm(x) == x,
{
    lemma_small_mod(x as nat, prime() as nat);
}

pub proof fn lemma_mm_twice(x: int)
    ensures
        mm(mm(x)) == mm(x),
{
    lemma_mod_twice(x, prime());
}

/// Congruent summands give congruent sums.
pub proof fn lemma_mm_add(x: int, y: int, x2: int, y2: int)
    requires
        mm(x) == mm(x2),
        mm(y) == mm(y2),
    ensures
        mm(x + y) == mm(x2 + y2),
{
    lemma_add_mod_noop(x, y, prime());
    lemma_add_mod_noop(x2, y2, prime());
}

/// Congruent operands give congruent differences.
pub proof fn lemma_mm_sub(x: int, y: int, x2: int, y2: int)
    requires
        mm(x) == mm(x2),
        mm(y) == mm(y2),
    ensures
        mm(x - y) == mm(x2 - y2),
{
    lemma_sub_mod_noop(x, y, prime());
    lemma_sub_mod_noop(x2, y2, prime());
}

/// Congruent factors give congruent products.
pub proof fn lemma_mm_mul(x: int, y: int, x2: int, y2: int)
    requires
        mm(x) == mm(x2),
        mm(y) == mm(y2),
    ensures
        mm(x * y) == mm(x2 * y2),
{
    lemma_mul_mod_noop_general(x, y, prime());
    lemma_mul_mod_noop_general(x2, y2, prime());
}

} // verus!
