//! Elements of the quadratic extension field `Fp2 = Fp[u] / (u^2 + 1)`.
//!
//! The quadratic field is an external collaborator of this crate: its
//! modular arithmetic is consumed from ark-ff through the trusted wrappers
//! below. Each wrapper's contract states the exact componentwise result
//! over the integer model, so everything built on top is verified against
//! ordinary modular arithmetic.
//!
//! Specifications use two layers: *unreduced* operations (`uadd2`, `umul2`,
//! ...) are the exact ring operations of `Z[u] / (u^2 + 1)` on integer
//! pairs, and `red2` reduces a pair componentwise modulo the prime. Every
//! field operation is the reduction of its unreduced counterpart, and the
//! absorb lemmas let proofs drop interior reductions, so algebraic
//! identities only ever have to be proved once, in the exact ring.

use vstd::prelude::*;
use crate::modp::{fp_ok, lemma_mm_add, lemma_mm_mul, lemma_mm_range, lemma_mm_small,
    lemma_mm_sub, mm};
use crate::fp::Fp;
use crate::ct::Choice;

verus! {

/// The integer-pair model of a quadratic-field element `c0 + c1 * u`.
#[verifier::ext_equal]
pub ghost struct Fp2Val {
    pub c0: int,
    pub c1: int,
}

// ---------------------------------------------------------------------------
// Unreduced (exact) ring operations on integer pairs.
// ---------------------------------------------------------------------------

pub open spec fn uadd2(a: Fp2Val, b: Fp2Val) -> Fp2Val {
    Fp2Val { c0: a.c0 + b.c0, c1: a.c1 + b.c1 }
}

pub open spec fn usub2(a: Fp2Val, b: Fp2Val) -> Fp2Val {
    Fp2Val { c0: a.c0 - b.c0, c1: a.c1 - b.c1 }
}

pub open spec fn uneg2(a: Fp2Val) -> Fp2Val {
    Fp2Val { c0: -a.c0, c1: -a.c1 }
}

/// Multiplication in `Z[u] / (u^2 + 1)`.
pub open spec fn umul2(a: Fp2Val, b: Fp2Val) -> Fp2Val {
    Fp2Val { c0: a.c0 * b.c0 - a.c1 * b.c1, c1: a.c0 * b.c1 + a.c1 * b.c0 }
}

/// Multiplication by the cubic nonresidue `1 + u`.
pub open spec fn unr2(a: Fp2Val) -> Fp2Val {
    Fp2Val { c0: a.c0 - a.c1, c1: a.c0 + a.c1 }
}

/// Conjugation `c0 - c1 * u`, the Frobenius map of the quadratic field.
pub open spec fn uconj2(a: Fp2Val) -> Fp2Val {
    Fp2Val { c0: a.c0, c1: -a.c1 }
}

// ---------------------------------------------------------------------------
// Reduction and the reduced field operations.
// ---------------------------------------------------------------------------

/// Componentwise canonical reduction.
pub open spec fn red2(a: Fp2Val) -> Fp2Val {
    Fp2Val { c0: mm(a.c0), c1: mm(a.c1) }
}

/// Canonical form: both components are reduced residues.
pub open spec fn fp2_ok(a: Fp2Val) -> bool {
    fp_ok(a.c0) && fp_ok(a.c1)
}

pub open spec fn fp2_zero() -> Fp2Val {
    Fp2Val { c0: 0, c1: 0 }
}

pub open spec fn fp2_one() -> Fp2Val {
    Fp2Val { c0: 1, c1: 0 }
}

/// The cubic nonresidue `1 + u` of the tower.
pub open spec fn fp2_nrval() -> Fp2Val {
    Fp2Val { c0: 1, c1: 1 }
}

pub open spec fn fp2_add(a: Fp2Val, b: Fp2Val) -> Fp2Val {
    red2(uadd2(a, b))
}

pub open spec fn fp2_sub(a: Fp2Val, b: Fp2Val) -> Fp2Val {
    red2(usub2(a, b))
}

pub open spec fn fp2_neg(a: Fp2Val) -> Fp2Val {
    red2(uneg2(a))
}

pub open spec fn fp2_mul(a: Fp2Val, b: Fp2Val) -> Fp2Val {
    red2(umul2(a, b))
}

pub open spec fn fp2_nr(a: Fp2Val) -> Fp2Val {
    red2(unr2(a))
}

pub open spec fn fp2_conj(a: Fp2Val) -> Fp2Val {
    red2(uconj2(a))
}

/// Lexicographic-largest predicate of the quadratic field: the element is
/// strictly larger than its negation, comparing `c1` first.
pub open spec fn fp2_lex_largest(a: Fp2Val) -> bool {
    a.c1 > (crate::modp::prime() - 1) / 2
        || (a.c1 == 0 && a.c0 > (crate::modp::prime() - 1) / 2)
}

// ---------------------------------------------------------------------------
// Reduction lemmas.
// ---------------------------------------------------------------------------

/// Reduction yields canonical values and fixes canonical values.
pub proof fn lemma_red2(a: Fp2Val)
    ensures
        fp2_ok(red2(a)),
        fp2_ok(a) ==> red2(a) == a,
{
    lemma_mm_range(a.c0);
    lemma_mm_range(a.c1);
    if fp2_ok(a) {
        lemma_mm_small(a.c0);
        lemma_mm_small(a.c1);
        assert(red2(a) =~= a);
    }
}

/// Interior reductions of a sum can be dropped.
pub proof fn lemma_uadd2_absorb(a: Fp2Val, b: Fp2Val)
    ensures
        red2(uadd2(red2(a), red2(b))) == red2(uadd2(a, b)),
{
    crate::modp::lemma_mm_twice(a.c0);
    crate::modp::lemma_mm_twice(a.c1);
    crate::modp::lemma_mm_twice(b.c0);
    crate::modp::lemma_mm_twice(b.c1);
    lemma_mm_add(mm(a.c0), mm(b.c0), a.c0, b.c0);
    lemma_mm_add(mm(a.c1), mm(b.c1), a.c1, b.c1);
    assert(red2(uadd2(red2(a), red2(b))) =~= red2(uadd2(a, b)));
}

/// Interior reductions of a difference can be dropped.
pub proof fn lemma_usub2_absorb(a: Fp2Val, b: Fp2Val)
    ensures
        red2(usub2(red2(a), red2(b))) == red2(usub2(a, b)),
{
    crate::modp::lemma_mm_twice(a.c0);
    crate::modp::lemma_mm_twice(a.c1);
    crate::modp::lemma_mm_twice(b.c0);
    crate::modp::lemma_mm_twice(b.c1);
    lemma_mm_sub(mm(a.c0), mm(b.c0), a.c0, b.c0);
    lemma_mm_sub(mm(a.c1), mm(b.c1), a.c1, b.c1);
    assert(red2(usub2(red2(a), red2(b))) =~= red2(usub2(a, b)));
}

/// Interior reductions of a product can be dropped.
pub proof fn lemma_umul2_absorb(a: Fp2Val, b: Fp2Val)
    ensures
        red2(umul2(red2(a), red2(b))) == red2(umul2(a, b)),
{
    crate::modp::lemma_mm_twice(a.c0);
    crate::modp::lemma_mm_twice(a.c1);
    crate::modp::lemma_mm_twice(b.c0);
    crate::modp::lemma_mm_twice(b.c1);
    lemma_mm_mul(mm(a.c0), mm(b.c0), a.c0, b.c0);
    lemma_mm_mul(mm(a.c1), mm(b.c1), a.c1, b.c1);
    lemma_mm_mul(mm(a.c0), mm(b.c1), a.c0, b.c1);
    lemma_mm_mul(mm(a.c1), mm(b.c0), a.c1, b.c0);
    lemma_mm_sub(mm(a.c0) * mm(b.c0), mm(a.c1) * mm(b.c1), a.c0 * b.c0, a.c1 * b.c1);
    lemma_mm_add(mm(a.c0) * mm(b.c1), mm(a.c1) * mm(b.c0), a.c0 * b.c1, a.c1 * b.c0);
    assert(red2(umul2(red2(a), red2(b))) =~= red2(umul2(a, b)));
}

/// Interior reductions under nonresidue multiplication can be dropped.
pub proof fn lemma_unr2_absorb(a: Fp2Val)
    ensures
        red2(unr2(red2(a))) == red2(unr2(a)),
{
    crate::modp::lemma_mm_twice(a.c0);
    crate::modp::lemma_mm_twice(a.c1);
    lemma_mm_sub(mm(a.c0), mm(a.c1), a.c0, a.c1);
    lemma_mm_add(mm(a.c0), mm(a.c1), a.c0, a.c1);
    assert(red2(unr2(red2(a))) =~= red2(unr2(a)));
}

/// Interior reductions under conjugation can be dropped.
pub proof fn lemma_uconj2_absorb(a: Fp2Val)
    ensures
        red2(uconj2(red2(a))) == red2(uconj2(a)),
{
    crate::modp::lemma_mm_twice(a.c0);
    crate::modp::lemma_mm_twice(a.c1);
    lemma_mm_sub(0, mm(a.c1), 0, a.c1);
    assert(red2(uconj2(red2(a))) =~= red2(uconj2(a)));
}


pub broadcast proof fn lemma_umul2_comm(a: Fp2Val, b: Fp2Val)
    ensures
        #[trigger] umul2(a, b) == umul2(b, a),
{
    broadcast use
        vstd::arithmetic::mul::lemma_mul_is_distributive_add,
        vstd::arithmetic::mul::lemma_mul_is_distributive_add_other_way,
        vstd::arithmetic::mul::lemma_mul_is_distributive_sub,
        vstd::arithmetic::mul::lemma_mul_is_distributive_sub_other_way,
        vstd::arithmetic::mul::lemma_mul_is_associative,
        vstd::arithmetic::mul::lemma_mul_is_commutative,
        vstd::arithmetic::mul::lemma_mul_unary_negation;

    assert(umul2(a, b) =~= umul2(b, a));
}

pub broadcast proof fn lemma_umul2_assoc(a: Fp2Val, b: Fp2Val, c: Fp2Val)
    ensures
        #[trigger] umul2(umul2(a, b), c) == umul2(a, umul2(b, c)),
{
    broadcast use
        vstd::arithmetic::mul::lemma_mul_is_distributive_add,
        vstd::arithmetic::mul::lemma_mul_is_distributive_add_other_way,
        vstd::arithmetic::mul::lemma_mul_is_distributive_sub,
        vstd::arithmetic::mul::lemma_mul_is_distributive_sub_other_way,
        vstd::arithmetic::mul::lemma_mul_is_associative,
        vstd::arithmetic::mul::lemma_mul_is_commutative,
        vstd::arithmetic::mul::lemma_mul_unary_negation;

    let (a0, a1) = (a.c0, a.c1);
    let (b0, b1) = (b.c0, b.c1);
    let (c0, c1) = (c.c0, c.c1);
    assert((a0 * b0 - a1 * b1) * c0 - (a0 * b1 + a1 * b0) * c1
        == a0 * (b0 * c0 - b1 * c1) - a1 * (b0 * c1 + b1 * c0));
    assert((a0 * b0 - a1 * b1) * c1 + (a0 * b1 + a1 * b0) * c0
        == a0 * (b0 * c1 + b1 * c0) + a1 * (b0 * c0 - b1 * c1));
    assert(umul2(umul2(a, b), c) =~= umul2(a, umul2(b, c)));
}

pub broadcast proof fn lemma_umul2_dist(a: Fp2Val, b: Fp2Val, c: Fp2Val)
    ensures
        #[trigger] umul2(a, uadd2(b, c)) == uadd2(umul2(a, b), umul2(a, c)),
{
    broadcast use
        vstd::arithmetic::mul::lemma_mul_is_distributive_add,
        vstd::arithmetic::mul::lemma_mul_is_distributive_add_other_way,
        vstd::arithmetic::mul::lemma_mul_is_distributive_sub,
        vstd::arithmetic::mul::lemma_mul_is_distributive_sub_other_way,
        vstd::arithmetic::mul::lemma_mul_is_associative,
        vstd::arithmetic::mul::lemma_mul_is_commutative,
        vstd::arithmetic::mul::lemma_mul_unary_negation;

    assert(umul2(a, uadd2(b, c)) =~= uadd2(umul2(a, b), umul2(a, c)));
}

pub broadcast proof fn lemma_umul2_dist_other_way(a: Fp2Val, b: Fp2Val, c: Fp2Val)
    ensures
        #[trigger] umul2(uadd2(a, b), c) == uadd2(umul2(a, c), umul2(b, c)),
{
    broadcast use
        vstd::arithmetic::mul::lemma_mul_is_distributive_add,
        vstd::arithmetic::mul::lemma_mul_is_distributive_add_other_way,
        vstd::arithmetic::mul::lemma_mul_is_distributive_sub,
        vstd::arithmetic::mul::lemma_mul_is_distributive_sub_other_way,
        vstd::arithmetic::mul::lemma_mul_is_associative,
        vstd::arithmetic::mul::lemma_mul_is_commutative,
        vstd::arithmetic::mul::lemma_mul_unary_negation;

    assert(umul2(uadd2(a, b), c) =~= uadd2(umul2(a, c), umul2(b, c)));
}

pub broadcast proof fn lemma_umul2_dist_sub(a: Fp2Val, b: Fp2Val, c: Fp2Val)
    ensures
        #[trigger] umul2(a, usub2(b, c)) == usub2(umul2(a, b), umul2(a, c)),
{
    broadcast use
        vstd::arithmetic::mul::lemma_mul_is_distributive_add,
        vstd::arithmetic::mul::lemma_mul_is_distributive_add_other_way,
        vstd::arithmetic::mul::lemma_mul_is_distributive_sub,
        vstd::arithmetic::mul::lemma_mul_is_distributive_sub_other_way,
        vstd::arithmetic::mul::lemma_mul_is_associative,
        vstd::arithmetic::mul::lemma_mul_is_commutative,
        vstd::arithmetic::mul::lemma_mul_unary_negation;

    assert(umul2(a, usub2(b, c)) =~= usub2(umul2(a, b), umul2(a, c)));
}

pub broadcast proof fn lemma_umul2_dist_sub_other_way(a: Fp2Val, b: Fp2Val, c: Fp2Val)
    ensures
        #[trigger] umul2(usub2(a, b), c) == usub2(umul2(a, c), umul2(b, c)),
{
    broadcast use
        vstd::arithmetic::mul::lemma_mul_is_distributive_add,
        vstd::arithmetic::mul::lemma_mul_is_distributive_add_other_way,
        vstd::arithmetic::mul::lemma_mul_is_distributive_sub,
        vstd::arithmetic::mul::lemma_mul_is_distributive_sub_other_way,
        vstd::arithmetic::mul::lemma_mul_is_associative,
        vstd::arithmetic::mul::lemma_mul_is_commutative,
        vstd::arithmetic::mul::lemma_mul_unary_negation;

    assert(umul2(usub2(a, b), c) =~= usub2(umul2(a, c), umul2(b, c)));
}


/// Nonresidue multiplication commutes through products.
pub broadcast proof fn lemma_unr2_mul(a: Fp2Val, b: Fp2Val)
    ensures
        #[trigger] umul2(unr2(a), b) == unr2(umul2(a, b)),
{
    vstd::arithmetic::mul::lemma_mul_is_distributive_sub_other_way(b.c0, a.c0, a.c1);
    vstd::arithmetic::mul::lemma_mul_is_distributive_sub_other_way(b.c1, a.c0, a.c1);
    vstd::arithmetic::mul::lemma_mul_is_distributive_add_other_way(b.c0, a.c0, a.c1);
    vstd::arithmetic::mul::lemma_mul_is_distributive_add_other_way(b.c1, a.c0, a.c1);
    assert(umul2(unr2(a), b) =~= unr2(umul2(a, b)));
}

/// Nonresidue multiplication is multiplication by `1 + u`.
pub proof fn lemma_unr2_is_mul(a: Fp2Val)
    ensures
        unr2(a) == umul2(a, fp2_nrval()),
{
    assert(unr2(a) =~= umul2(a, fp2_nrval()));
}

/// Multiplying by the nonresidue on the right commutes the same way.
pub broadcast proof fn lemma_unr2_mul_right(a: Fp2Val, b: Fp2Val)
    ensures
        #[trigger] umul2(a, unr2(b)) == unr2(umul2(a, b)),
{
    lemma_umul2_comm(a, unr2(b));
    lemma_unr2_mul(b, a);
    lemma_umul2_comm(b, a);
}

/// Conjugation is multiplicative.
pub broadcast proof fn lemma_uconj2_mul(a: Fp2Val, b: Fp2Val)
    ensures
        #[trigger] umul2(uconj2(a), uconj2(b)) == uconj2(umul2(a, b)),
{
    vstd::arithmetic::mul::lemma_mul_cancels_negatives(a.c1, b.c1);
    vstd::arithmetic::mul::lemma_mul_unary_negation(a.c1, b.c0);
    vstd::arithmetic::mul::lemma_mul_unary_negation(a.c0, b.c1);
    assert(umul2(uconj2(a), uconj2(b)) =~= uconj2(umul2(a, b)));
}

/// Multiplicative identity of the unreduced ring.
pub proof fn lemma_umul2_one(a: Fp2Val)
    ensures
        umul2(a, fp2_one()) == a,
        umul2(fp2_one(), a) == a,
{
    assert(umul2(a, fp2_one()) =~= a);
    assert(umul2(fp2_one(), a) =~= a);
}

/// Zero annihilates the unreduced ring.
pub proof fn lemma_umul2_zero(a: Fp2Val)
    ensures
        umul2(a, fp2_zero()) == fp2_zero(),
        umul2(fp2_zero(), a) == fp2_zero(),
{
    assert(umul2(a, fp2_zero()) =~= fp2_zero());
    assert(umul2(fp2_zero(), a) =~= fp2_zero());
}


// ---------------------------------------------------------------------------
// Ring laws of the reduced operations used by the Frobenius-order proof.
// ---------------------------------------------------------------------------

/// Conjugation is an involution on canonical values.
pub proof fn lemma_fp2_conj_conj(a: Fp2Val)
    requires
        fp2_ok(a),
    ensures
        fp2_conj(fp2_conj(a)) == a,
{
    lemma_uconj2_absorb(uconj2(a));
    lemma_red2(a);
    assert(uconj2(uconj2(a)) =~= a);
}

/// Conjugation distributes over products of canonical values.
pub proof fn lemma_fp2_conj_mul(a: Fp2Val, b: Fp2Val)
    requires
        fp2_ok(a),
        fp2_ok(b),
    ensures
        fp2_conj(fp2_mul(a, b)) == fp2_mul(fp2_conj(a), fp2_conj(b)),
{
    lemma_red2(a);
    lemma_red2(b);
    lemma_uconj2_absorb(umul2(a, b));
    lemma_umul2_absorb(uconj2(a), uconj2(b));
    lemma_uconj2_mul(a, b);
}

/// Associativity of the reduced product on canonical values.
pub proof fn lemma_fp2_mul_assoc(a: Fp2Val, b: Fp2Val, c: Fp2Val)
    requires
        fp2_ok(a),
        fp2_ok(c),
    ensures
        fp2_mul(fp2_mul(a, b), c) == fp2_mul(a, fp2_mul(b, c)),
{
    lemma_red2(a);
    lemma_red2(c);
    lemma_umul2_absorb(umul2(a, b), c);
    lemma_umul2_assoc(a, b, c);
    lemma_umul2_absorb(a, umul2(b, c));
}

/// One is the multiplicative identity of the reduced product.
pub proof fn lemma_fp2_mul_one(a: Fp2Val)
    requires
        fp2_ok(a),
    ensures
        fp2_mul(a, fp2_one()) == a,
{
    lemma_umul2_one(a);
    lemma_red2(a);
}

// ---------------------------------------------------------------------------
// The executable quadratic-field element.
// ---------------------------------------------------------------------------

/// A quadratic-field element `c0 + c1 * u` with canonical components.
#[derive(Clone, Copy, Debug, PartialEq, Eq)]
pub struct Fp2 {
    pub c0: Fp,
    pub c1: Fp,
}

impl View for Fp2 {
    type V = Fp2Val;

    open spec fn view(&self) -> Fp2Val {
        Fp2Val { c0: self.c0@, c1: self.c1@ }
    }
}

impl Fp2 {
    /// Canonical-form invariant.
    pub open spec fn ok(&self) -> bool {
        fp2_ok(self@)
    }

    /// The additive identity.
    pub fn zero() -> (r: Fp2)
        ensures
            r.ok(),
            r@ == fp2_zero(),
    {
        Fp2 { c0: Fp { limbs: [0, 0, 0, 0, 0, 0] }, c1: Fp { limbs: [0, 0, 0, 0, 0, 0] } }
    }

    /// The multiplicative identity.
    pub fn one() -> (r: Fp2)
        ensures
            r.ok(),
            r@ == fp2_one(),
    {
        Fp2 { c0: Fp { limbs: [1, 0, 0, 0, 0, 0] }, c1: Fp { limbs: [0, 0, 0, 0, 0, 0] } }
    }

    /// Componentwise modular sum.
    ///
    /// Relies on ark-ff's `Add` for the BLS12-381 `Fq2`: the sum of two
    /// canonical elements, reduced componentwise modulo the prime.
    #[verifier::external_body]
    pub fn add(&self, rhs: &Fp2) -> (r: Fp2)
        requires
            self.ok(),
            rhs.ok(),
        ensures
            r.ok(),
            r@ == fp2_add(self@, rhs@),
    {
        let x = ark_bls12_381::Fq2::new(
            <ark_bls12_381::Fq as ark_ff::PrimeField>::from_bigint(ark_ff::BigInt::new(self.c0.limbs)).unwrap(),
            <ark_bls12_381::Fq as ark_ff::PrimeField>::from_bigint(ark_ff::BigInt::new(self.c1.limbs)).unwrap(),
        );
        let y = ark_bls12_381::Fq2::new(
            <ark_bls12_381::Fq as ark_ff::PrimeField>::from_bigint(ark_ff::BigInt::new(rhs.c0.limbs)).unwrap(),
            <ark_bls12_381::Fq as ark_ff::PrimeField>::from_bigint(ark_ff::BigInt::new(rhs.c1.limbs)).unwrap(),
        );
        let z = x + y;
        Fp2 {
            c0: Fp { limbs: ark_ff::PrimeField::into_bigint(z.c0).0 },
            c1: Fp { limbs: ark_ff::PrimeField::into_bigint(z.c1).0 },
        }
    }

    /// Componentwise modular difference.
    ///
    /// Relies on ark-ff's `Sub` for the BLS12-381 `Fq2`: the difference of
    /// two canonical elements, reduced componentwise modulo the prime.
    #[verifier::external_body]
    pub fn sub(&self, rhs: &Fp2) -> (r: Fp2)
        requires
            self.ok(),
            rhs.ok(),
        ensures
            r.ok(),
            r@ == fp2_sub(self@, rhs@),
    {
        let x = ark_bls12_381::Fq2::new(
            <ark_bls12_381::Fq as ark_ff::PrimeField>::from_bigint(ark_ff::BigInt::new(self.c0.limbs)).unwrap(),
            <ark_bls12_381::Fq as ark_ff::PrimeField>::from_bigint(ark_ff::BigInt::new(self.c1.limbs)).unwrap(),
        );
        let y = ark_bls12_381::Fq2::new(
            <ark_bls12_381::Fq as ark_ff::PrimeField>::from_bigint(ark_ff::BigInt::new(rhs.c0.limbs)).unwrap(),
            <ark_bls12_381::Fq as ark_ff::PrimeField>::from_bigint(ark_ff::BigInt::new(rhs.c1.limbs)).unwrap(),
        );
        let z = x - y;
        Fp2 {
            c0: Fp { limbs: ark_ff::PrimeField::into_bigint(z.c0).0 },
            c1: Fp { limbs: ark_ff::PrimeField::into_bigint(z.c1).0 },
        }
    }

    /// Componentwise modular negation.
    ///
    /// Relies on ark-ff's `Neg` for the BLS12-381 `Fq2`: the additive
    /// inverse of a canonical element, reduced componentwise.
    #[verifier::external_body]
    pub fn neg(&self) -> (r: Fp2)
        requires
            self.ok(),
        ensures
            r.ok(),
            r@ == fp2_neg(self@),
    {
        let x = ark_bls12_381::Fq2::new(
            <ark_bls12_381::Fq as ark_ff::PrimeField>::from_bigint(ark_ff::BigInt::new(self.c0.limbs)).unwrap(),
            <ark_bls12_381::Fq as ark_ff::PrimeField>::from_bigint(ark_ff::BigInt::new(self.c1.limbs)).unwrap(),
        );
        let z = -x;
        Fp2 {
            c0: Fp { limbs: ark_ff::PrimeField::into_bigint(z.c0).0 },
            c1: Fp { limbs: ark_ff::PrimeField::into_bigint(z.c1).0 },
        }
    }

    /// Quadratic-extension product.
    ///
    /// Relies on ark-ff's `Mul` for the BLS12-381 `Fq2`, whose quadratic
    /// nonresidue is `-1`: the product has components
    /// `(a0*b0 - a1*b1, a0*b1 + a1*b0)` reduced modulo the prime.
    #[verifier::external_body]
    pub fn mul(&self, rhs: &Fp2) -> (r: Fp2)
        requires
            self.ok(),
            rhs.ok(),
        ensures
            r.ok(),
            r@ == fp2_mul(self@, rhs@),
    {
        let x = ark_bls12_381::Fq2::new(
            <ark_bls12_381::Fq as ark_ff::PrimeField>::from_bigint(ark_ff::BigInt::new(self.c0.limbs)).unwrap(),
            <ark_bls12_381::Fq as ark_ff::PrimeField>::from_bigint(ark_ff::BigInt::new(self.c1.limbs)).unwrap(),
        );
        let y = ark_bls12_381::Fq2::new(
            <ark_bls12_381::Fq as ark_ff::PrimeField>::from_bigint(ark_ff::BigInt::new(rhs.c0.limbs)).unwrap(),
            <ark_bls12_381::Fq as ark_ff::PrimeField>::from_bigint(ark_ff::BigInt::new(rhs.c1.limbs)).unwrap(),
        );
        let z = x * y;
        Fp2 {
            c0: Fp { limbs: ark_ff::PrimeField::into_bigint(z.c0).0 },
            c1: Fp { limbs: ark_ff::PrimeField::into_bigint(z.c1).0 },
        }
    }

    /// Frobenius map of the quadratic field, i.e. conjugation.
    ///
    /// Relies on ark-ff's `Field::frobenius_map(1)` for the BLS12-381 `Fq2`,
    /// whose first Frobenius coefficient is `-1`: the result is the
    /// conjugate `(c0, -c1)` in canonical form.
    #[verifier::external_body]
    pub fn frobenius_map(&self) -> (r: Fp2)
        requires
            self.ok(),
        ensures
            r.ok(),
            r@ == fp2_conj(self@),
    {
        let x = ark_bls12_381::Fq2::new(
            <ark_bls12_381::Fq as ark_ff::PrimeField>::from_bigint(ark_ff::BigInt::new(self.c0.limbs)).unwrap(),
            <ark_bls12_381::Fq as ark_ff::PrimeField>::from_bigint(ark_ff::BigInt::new(self.c1.limbs)).unwrap(),
        );
        let z = ark_ff::Field::frobenius_map(&x, 1);
        Fp2 {
            c0: Fp { limbs: ark_ff::PrimeField::into_bigint(z.c0).0 },
            c1: Fp { limbs: ark_ff::PrimeField::into_bigint(z.c1).0 },
        }
    }

    /// Multiplicative inverse of a nonzero element.
    ///
    /// Relies on ark-ff's `Field::inverse` for the BLS12-381 `Fq2`: it
    /// returns `None` exactly for the zero element and otherwise the unique
    /// canonical element whose product with the input is one. (For a nonzero
    /// input the inner norm `c0^2 + c1^2` is nonzero because `-1` is not a
    /// square modulo this prime, which is congruent to 3 modulo 4, so the
    /// inner base-field inversion cannot fail.)
    #[verifier::external_body]
    pub fn invert(&self) -> (r: Option<Fp2>)
        requires
            self.ok(),
        ensures
            r is Some <==> self@ != fp2_zero(),
            r matches Some(t) ==> t.ok() && fp2_mul(t@, self@) == fp2_one(),
    {
        let x = ark_bls12_381::Fq2::new(
            <ark_bls12_381::Fq as ark_ff::PrimeField>::from_bigint(ark_ff::BigInt::new(self.c0.limbs)).unwrap(),
            <ark_bls12_381::Fq as ark_ff::PrimeField>::from_bigint(ark_ff::BigInt::new(self.c1.limbs)).unwrap(),
        );
        match ark_ff::Field::inverse(&x) {
            Some(z) => Some(Fp2 {
                c0: Fp { limbs: ark_ff::PrimeField::into_bigint(z.c0).0 },
                c1: Fp { limbs: ark_ff::PrimeField::into_bigint(z.c1).0 },
            }),
            None => None,
        }
    }

    /// Multiplication by the cubic nonresidue `1 + u`, computed as a
    /// product with the constant.
    pub fn mul_by_nonresidue(&self) -> (r: Fp2)
        requires
            self.ok(),
        ensures
            r.ok(),
            r@ == fp2_nr(self@),
    {
        let nr = Fp2 { c0: Fp { limbs: [1, 0, 0, 0, 0, 0] }, c1: Fp { limbs: [1, 0, 0, 0, 0, 0] } };
        let r = self.mul(&nr);
        proof {
            lemma_unr2_is_mul(self@);
        }
        r
    }

    /// Constant-time equality of the denoted values.
    pub fn ct_eq(&self, other: &Fp2) -> (r: Choice)
        ensures
            r.ok(),
            r@ == (self@ == other@),
    {
        let r = self.c0.ct_eq(&other.c0).and(&self.c1.ct_eq(&other.c1));
        proof {
            if self@ == other@ {
                assert(self.c0@ == other.c0@ && self.c1@ == other.c1@);
            }
            if r@ {
                assert(self@ =~= other@);
            }
        }
        r
    }

    /// Constant-time selection: `b` when `bit` is 1, else `a`.
    pub fn select(a: &Fp2, b: &Fp2, bit: u8) -> (r: Fp2)
        requires
            bit <= 1,
        ensures
            r@ == (if bit == 1 { b@ } else { a@ }),
    {
        let r = Fp2 {
            c0: Fp::select(&a.c0, &b.c0, bit),
            c1: Fp::select(&a.c1, &b.c1, bit),
        };
        proof {
            if bit == 1 {
                assert(r@ =~= b@);
            } else {
                assert(r@ =~= a@);
            }
        }
        r
    }

    /// Constant-time zero test.
    pub fn is_zero(&self) -> (r: Choice)
        ensures
            r.ok(),
            r@ == (self@ == fp2_zero()),
    {
        let z = Fp2::zero();
        self.ct_eq(&z)
    }

    /// Whether the element is strictly larger, lexicographically, than its
    /// negation; `c1` decides unless it is zero, then `c0` decides.
    pub fn lexicographically_largest(&self) -> (r: Choice)
        requires
            self.ok(),
        ensures
            r.ok(),
            r@ == fp2_lex_largest(self@),
    {
        let z = Fp { limbs: [0, 0, 0, 0, 0, 0] };
        self.c1.gt_half().or(&self.c1.ct_eq(&z).and(&self.c0.gt_half()))
    }
}

} // verus!

