//! The cubic extension field `Fp6 = Fp2[v] / (v^3 - (u + 1))`.
//!
//! This is the core of the crate: elements `c0 + c1*v + c2*v^2` over the
//! quadratic field, with full field arithmetic, the Frobenius endomorphism,
//! variable-time exponentiation, a constant-time square root, and canonical
//! byte serialization. Specifications mirror the two-layer model of `fp2`:
//! unreduced operations are the exact ring operations of the polynomial
//! quotient ring over integer pairs, and every field operation is the
//! componentwise reduction of its unreduced counterpart.

use vstd::prelude::*;
use crate::modp::mm;
use crate::fp::Fp;
use crate::fp2::{Fp2, Fp2Val, fp2_add, fp2_conj, fp2_lex_largest, fp2_mul, fp2_neg, fp2_nr,
    fp2_ok, fp2_one, fp2_sub, fp2_zero, lemma_red2, lemma_uadd2_absorb, lemma_uconj2_absorb,
    lemma_umul2_absorb, lemma_umul2_one, lemma_umul2_zero, lemma_unr2_absorb,
    lemma_usub2_absorb, red2, uadd2,
    uconj2, umul2, uneg2, unr2, usub2};
use crate::ct::{Choice, CtOption};

verus! {

/// The integer model of a cubic-extension element `c0 + c1*v + c2*v^2`.
#[verifier::ext_equal]
pub ghost struct Fp6Val {
    pub c0: Fp2Val,
    pub c1: Fp2Val,
    pub c2: Fp2Val,
}

// ---------------------------------------------------------------------------
// Unreduced (exact) ring operations.
// ---------------------------------------------------------------------------

pub open spec fn u6add(a: Fp6Val, b: Fp6Val) -> Fp6Val {
    Fp6Val { c0: uadd2(a.c0, b.c0), c1: uadd2(a.c1, b.c1), c2: uadd2(a.c2, b.c2) }
}

pub open spec fn u6sub(a: Fp6Val, b: Fp6Val) -> Fp6Val {
    Fp6Val { c0: usub2(a.c0, b.c0), c1: usub2(a.c1, b.c1), c2: usub2(a.c2, b.c2) }
}

pub open spec fn u6neg(a: Fp6Val) -> Fp6Val {
    Fp6Val { c0: uneg2(a.c0), c1: uneg2(a.c1), c2: uneg2(a.c2) }
}

/// Multiplication modulo `v^3 = (1 + u)`: the top cross terms wrap around
/// through one nonresidue multiplication.
pub open spec fn u6mul(a: Fp6Val, b: Fp6Val) -> Fp6Val {
    Fp6Val {
        c0: uadd2(umul2(a.c0, b.c0), unr2(uadd2(umul2(a.c1, b.c2), umul2(a.c2, b.c1)))),
        c1: uadd2(uadd2(umul2(a.c0, b.c1), umul2(a.c1, b.c0)), unr2(umul2(a.c2, b.c2))),
        c2: uadd2(uadd2(umul2(a.c0, b.c2), umul2(a.c1, b.c1)), umul2(a.c2, b.c0)),
    }
}

/// Multiplication by `v`: rotate the components, wrapping the top one
/// through the nonresidue.
pub open spec fn u6nr(a: Fp6Val) -> Fp6Val {
    Fp6Val { c0: unr2(a.c2), c1: a.c0, c2: a.c1 }
}

// ---------------------------------------------------------------------------
// Reduction and the reduced field operations.
// ---------------------------------------------------------------------------

/// Componentwise canonical reduction.
pub open spec fn red6(a: Fp6Val) -> Fp6Val {
    Fp6Val { c0: red2(a.c0), c1: red2(a.c1), c2: red2(a.c2) }
}

/// Canonical form: all components are reduced residues.
pub open spec fn fp6_okv(a: Fp6Val) -> bool {
    fp2_ok(a.c0) && fp2_ok(a.c1) && fp2_ok(a.c2)
}

pub open spec fn fp6_zero() -> Fp6Val {
    Fp6Val { c0: fp2_zero(), c1: fp2_zero(), c2: fp2_zero() }
}

pub open spec fn fp6_one() -> Fp6Val {
    Fp6Val { c0: fp2_one(), c1: fp2_zero(), c2: fp2_zero() }
}

/// The element `v` itself.
pub open spec fn fp6_v() -> Fp6Val {
    Fp6Val { c0: fp2_zero(), c1: fp2_one(), c2: fp2_zero() }
}

pub open spec fn fp6_add(a: Fp6Val, b: Fp6Val) -> Fp6Val {
    red6(u6add(a, b))
}

pub open spec fn fp6_sub(a: Fp6Val, b: Fp6Val) -> Fp6Val {
    red6(u6sub(a, b))
}

pub open spec fn fp6_neg(a: Fp6Val) -> Fp6Val {
    red6(u6neg(a))
}

pub open spec fn fp6_mul(a: Fp6Val, b: Fp6Val) -> Fp6Val {
    red6(u6mul(a, b))
}

pub open spec fn fp6_mul_nr(a: Fp6Val) -> Fp6Val {
    red6(u6nr(a))
}

/// `a^n` by iterated multiplication.
pub open spec fn fp6_pow(a: Fp6Val, n: nat) -> Fp6Val
    decreases n,
{
    if n == 0 {
        fp6_one()
    } else {
        fp6_mul(fp6_pow(a, (n - 1) as nat), a)
    }
}

/// The quadratic-field constant `(1 + u)^((p - 1) / 3)` multiplying `c1`
/// under the Frobenius endomorphism. It is purely imaginary.
pub open spec fn frob_c1() -> Fp2Val {
    Fp2Val {
        c0: 0,
        c1: (((((0x1a0111ea397fe699 as int) * 0x10000000000000000 + 0xec02408663d4de85)
            * 0x10000000000000000 + 0xaa0d857d89759ad4)
            * 0x10000000000000000 + 0x897d29650fb85f9b)
            * 0x10000000000000000 + 0x409427eb4f49fffd)
            * 0x10000000000000000 + 0x8bfd00000000aaac,
    }
}

/// The quadratic-field constant `(1 + u)^((2p - 2) / 3)` multiplying `c2`
/// under the Frobenius endomorphism. It is rational.
pub open spec fn frob_c2() -> Fp2Val {
    Fp2Val {
        c0: (((((0x1a0111ea397fe699 as int) * 0x10000000000000000 + 0xec02408663d4de85)
            * 0x10000000000000000 + 0xaa0d857d89759ad4)
            * 0x10000000000000000 + 0x897d29650fb85f9b)
            * 0x10000000000000000 + 0x409427eb4f49fffd)
            * 0x10000000000000000 + 0x8bfd00000000aaad,
        c1: 0,
    }
}

/// The Frobenius endomorphism `a -> a^p`: conjugate each component, then
/// correct `c1` and `c2` by the fixed curve constants.
pub open spec fn fp6_frob(a: Fp6Val) -> Fp6Val {
    Fp6Val {
        c0: fp2_conj(a.c0),
        c1: fp2_mul(fp2_conj(a.c1), frob_c1()),
        c2: fp2_mul(fp2_conj(a.c2), frob_c2()),
    }
}

/// Lexicographic-largest predicate on `(c2, c1, c0)`.
pub open spec fn fp6_lex_largest(a: Fp6Val) -> bool {
    fp2_lex_largest(a.c2)
        || (a.c2 == fp2_zero() && fp2_lex_largest(a.c1))
        || (a.c2 == fp2_zero() && a.c1 == fp2_zero() && fp2_lex_largest(a.c0))
}

// ---------------------------------------------------------------------------
// Reduction lemmas.
// ---------------------------------------------------------------------------

/// Reduction yields canonical values and fixes canonical values.
pub proof fn lemma_red6(a: Fp6Val)
    ensures
        fp6_okv(red6(a)),
        fp6_okv(a) ==> red6(a) == a,
{
    lemma_red2(a.c0);
    lemma_red2(a.c1);
    lemma_red2(a.c2);
    if fp6_okv(a) {
        assert(red6(a) =~= a);
    }
}

// ---------------------------------------------------------------------------
// The executable cubic-extension element.
// ---------------------------------------------------------------------------

/// An element `c0 + c1*v + c2*v^2` of the cubic extension field, with
/// canonical components.
#[derive(Clone, Copy, Debug, PartialEq, Eq)]
pub struct Fp6 {
    pub c0: Fp2,
    pub c1: Fp2,
    pub c2: Fp2,
}

impl View for Fp6 {
    type V = Fp6Val;

    open spec fn view(&self) -> Fp6Val {
        Fp6Val { c0: self.c0@, c1: self.c1@, c2: self.c2@ }
    }
}

impl Fp6 {
    /// Canonical-form invariant.
    pub open spec fn ok(&self) -> bool {
        fp6_okv(self@)
    }

    /// The additive identity.
    pub fn zero() -> (r: Fp6)
        ensures
            r.ok(),
            r@ == fp6_zero(),
    {
        let r = Fp6 { c0: Fp2::zero(), c1: Fp2::zero(), c2: Fp2::zero() };
        proof {
            assert(r@ =~= fp6_zero());
        }
        r
    }

    /// The multiplicative identity.
    pub fn one() -> (r: Fp6)
        ensures
            r.ok(),
            r@ == fp6_one(),
    {
        let r = Fp6 { c0: Fp2::one(), c1: Fp2::zero(), c2: Fp2::zero() };
        proof {
            assert(r@ =~= fp6_one());
        }
        r
    }

    /// Componentwise sum.
    pub fn add(&self, rhs: &Fp6) -> (r: Fp6)
        requires
            self.ok(),
            rhs.ok(),
        ensures
            r.ok(),
            r@ == fp6_add(self@, rhs@),
    {
        let r = Fp6 {
            c0: self.c0.add(&rhs.c0),
            c1: self.c1.add(&rhs.c1),
            c2: self.c2.add(&rhs.c2),
        };
        proof {
            assert(r@ =~= fp6_add(self@, rhs@));
        }
        r
    }

    /// Componentwise difference.
    pub fn sub(&self, rhs: &Fp6) -> (r: Fp6)
        requires
            self.ok(),
            rhs.ok(),
        ensures
            r.ok(),
            r@ == fp6_sub(self@, rhs@),
    {
        let r = Fp6 {
            c0: self.c0.sub(&rhs.c0),
            c1: self.c1.sub(&rhs.c1),
            c2: self.c2.sub(&rhs.c2),
        };
        proof {
            assert(r@ =~= fp6_sub(self@, rhs@));
        }
        r
    }

    /// Componentwise negation.
    pub fn neg(&self) -> (r: Fp6)
        requires
            self.ok(),
        ensures
            r.ok(),
            r@ == fp6_neg(self@),
    {
        let r = Fp6 { c0: self.c0.neg(), c1: self.c1.neg(), c2: self.c2.neg() };
        proof {
            assert(r@ =~= fp6_neg(self@));
        }
        r
    }

    /// The field product, computed componentwise modulo `v^3 = 1 + u`.
    pub fn mul(&self, rhs: &Fp6) -> (r: Fp6)
        requires
            self.ok(),
            rhs.ok(),
        ensures
            r.ok(),
            r@ == fp6_mul(self@, rhs@),
    {
        let cross0 = self.c1.mul(&rhs.c2).add(&self.c2.mul(&rhs.c1));
        let r0 = self.c0.mul(&rhs.c0).add(&cross0.mul_by_nonresidue());
        let r1 = self.c0.mul(&rhs.c1).add(&self.c1.mul(&rhs.c0)).add(
            &self.c2.mul(&rhs.c2).mul_by_nonresidue(),
        );
        let r2 = self.c0.mul(&rhs.c2).add(&self.c1.mul(&rhs.c1)).add(&self.c2.mul(&rhs.c0));
        let r = Fp6 { c0: r0, c1: r1, c2: r2 };
        proof {
            let a = self@;
            let b = rhs@;
            let s = uadd2(umul2(a.c1, b.c2), umul2(a.c2, b.c1));
            lemma_uadd2_absorb(umul2(a.c1, b.c2), umul2(a.c2, b.c1));
            lemma_unr2_absorb(s);
            lemma_uadd2_absorb(umul2(a.c0, b.c0), unr2(s));
            assert(r0@ == red2(u6mul(a, b).c0));
            let s1 = uadd2(umul2(a.c0, b.c1), umul2(a.c1, b.c0));
            lemma_uadd2_absorb(umul2(a.c0, b.c1), umul2(a.c1, b.c0));
            lemma_unr2_absorb(umul2(a.c2, b.c2));
            lemma_uadd2_absorb(s1, unr2(umul2(a.c2, b.c2)));
            assert(r1@ == red2(u6mul(a, b).c1));
            let s2 = uadd2(umul2(a.c0, b.c2), umul2(a.c1, b.c1));
            lemma_uadd2_absorb(umul2(a.c0, b.c2), umul2(a.c1, b.c1));
            lemma_uadd2_absorb(s2, umul2(a.c2, b.c0));
            assert(r2@ == red2(u6mul(a, b).c2));
            assert(r@ =~= fp6_mul(a, b));
        }
        r
    }

    /// Multiplication by `v`: `(c0, c1, c2) -> (c2 * (1 + u), c0, c1)`.
    pub fn mul_by_nonresidue(&self) -> (r: Fp6)
        requires
            self.ok(),
        ensures
            r.ok(),
            r@ == fp6_mul_nr(self@),
    {
        let r = Fp6 { c0: self.c2.mul_by_nonresidue(), c1: self.c0, c2: self.c1 };
        proof {
            lemma_red2(self.c0@);
            lemma_red2(self.c1@);
            assert(r@ =~= fp6_mul_nr(self@));
        }
        r
    }
}

// ---------------------------------------------------------------------------
// Ring laws of the unreduced cubic-extension operations.
// ---------------------------------------------------------------------------

/// Multiplication is commutative in the exact ring.
pub proof fn lemma_u6mul_comm(a: Fp6Val, b: Fp6Val)
    ensures
        u6mul(a, b) == u6mul(b, a),
{
    broadcast use crate::fp2::lemma_umul2_comm;

    assert(u6mul(a, b) =~= u6mul(b, a));
}

/// Multiplication distributes over addition in the exact ring.
pub proof fn lemma_u6mul_dist(a: Fp6Val, b: Fp6Val, c: Fp6Val)
    ensures
        u6mul(u6add(a, b), c) == u6add(u6mul(a, c), u6mul(b, c)),
{
    broadcast use crate::fp2::lemma_umul2_dist_other_way;

    assert(u6mul(u6add(a, b), c) =~= u6add(u6mul(a, c), u6mul(b, c)));
}

/// Multiplication is associative in the exact ring.
pub proof fn lemma_u6mul_assoc(a: Fp6Val, b: Fp6Val, c: Fp6Val)
    ensures
        u6mul(u6mul(a, b), c) == u6mul(a, u6mul(b, c)),
{
    broadcast use
        crate::fp2::lemma_umul2_comm,
        crate::fp2::lemma_umul2_assoc,
        crate::fp2::lemma_umul2_dist,
        crate::fp2::lemma_umul2_dist_other_way,
        crate::fp2::lemma_unr2_mul,
        crate::fp2::lemma_unr2_mul_right;

    assert(u6mul(u6mul(a, b), c) =~= u6mul(a, u6mul(b, c)));
}

/// Interior reductions of a sum can be dropped.
pub proof fn lemma_u6add_absorb(p: Fp6Val, q: Fp6Val)
    ensures
        red6(u6add(red6(p), red6(q))) == red6(u6add(p, q)),
{
    lemma_uadd2_absorb(p.c0, q.c0);
    lemma_uadd2_absorb(p.c1, q.c1);
    lemma_uadd2_absorb(p.c2, q.c2);
    assert(red6(u6add(red6(p), red6(q))) =~= red6(u6add(p, q)));
}

/// Interior reductions of a product can be dropped.
pub proof fn lemma_u6mul_absorb(p: Fp6Val, q: Fp6Val)
    ensures
        red6(u6mul(red6(p), red6(q))) == red6(u6mul(p, q)),
{
    let (p0, p1, p2) = (p.c0, p.c1, p.c2);
    let (q0, q1, q2) = (q.c0, q.c1, q.c2);
    lemma_umul2_absorb(p0, q0);
    lemma_umul2_absorb(p0, q1);
    lemma_umul2_absorb(p0, q2);
    lemma_umul2_absorb(p1, q0);
    lemma_umul2_absorb(p1, q1);
    lemma_umul2_absorb(p1, q2);
    lemma_umul2_absorb(p2, q0);
    lemma_umul2_absorb(p2, q1);
    lemma_umul2_absorb(p2, q2);
    // component 0
    lemma_uadd2_absorb(umul2(red2(p1), red2(q2)), umul2(red2(p2), red2(q1)));
    lemma_uadd2_absorb(umul2(p1, q2), umul2(p2, q1));
    lemma_unr2_absorb(uadd2(umul2(red2(p1), red2(q2)), umul2(red2(p2), red2(q1))));
    lemma_unr2_absorb(uadd2(umul2(p1, q2), umul2(p2, q1)));
    lemma_uadd2_absorb(umul2(red2(p0), red2(q0)),
        unr2(uadd2(umul2(red2(p1), red2(q2)), umul2(red2(p2), red2(q1)))));
    lemma_uadd2_absorb(umul2(p0, q0), unr2(uadd2(umul2(p1, q2), umul2(p2, q1))));
    assert(red2(u6mul(red6(p), red6(q)).c0) == red2(u6mul(p, q).c0));
    // component 1
    lemma_uadd2_absorb(umul2(red2(p0), red2(q1)), umul2(red2(p1), red2(q0)));
    lemma_uadd2_absorb(umul2(p0, q1), umul2(p1, q0));
    lemma_unr2_absorb(umul2(red2(p2), red2(q2)));
    lemma_unr2_absorb(umul2(p2, q2));
    lemma_uadd2_absorb(uadd2(umul2(red2(p0), red2(q1)), umul2(red2(p1), red2(q0))),
        unr2(umul2(red2(p2), red2(q2))));
    lemma_uadd2_absorb(uadd2(umul2(p0, q1), umul2(p1, q0)), unr2(umul2(p2, q2)));
    assert(red2(u6mul(red6(p), red6(q)).c1) == red2(u6mul(p, q).c1));
    // component 2
    lemma_uadd2_absorb(umul2(red2(p0), red2(q2)), umul2(red2(p1), red2(q1)));
    lemma_uadd2_absorb(umul2(p0, q2), umul2(p1, q1));
    lemma_uadd2_absorb(uadd2(umul2(red2(p0), red2(q2)), umul2(red2(p1), red2(q1))),
        umul2(red2(p2), red2(q0)));
    lemma_uadd2_absorb(uadd2(umul2(p0, q2), umul2(p1, q1)), umul2(p2, q0));
    assert(red2(u6mul(red6(p), red6(q)).c2) == red2(u6mul(p, q).c2));
    assert(red6(u6mul(red6(p), red6(q))) =~= red6(u6mul(p, q)));
}

// ---------------------------------------------------------------------------
// Ring laws of the reduced field operations.
// ---------------------------------------------------------------------------

/// The field product of canonical elements is canonical.
pub proof fn lemma_fp6_mul_ok(a: Fp6Val, b: Fp6Val)
    ensures
        fp6_okv(fp6_mul(a, b)),
        fp6_okv(fp6_add(a, b)),
        fp6_okv(fp6_sub(a, b)),
{
    lemma_red6(u6mul(a, b));
    lemma_red6(u6add(a, b));
    lemma_red6(u6sub(a, b));
}

/// Commutativity of the field product.
pub proof fn lemma_fp6_mul_comm(a: Fp6Val, b: Fp6Val)
    ensures
        fp6_mul(a, b) == fp6_mul(b, a),
{
    lemma_u6mul_comm(a, b);
}

/// Associativity of the field product on canonical elements.
pub proof fn lemma_fp6_mul_assoc(a: Fp6Val, b: Fp6Val, c: Fp6Val)
    requires
        fp6_okv(a),
        fp6_okv(b),
        fp6_okv(c),
    ensures
        fp6_mul(fp6_mul(a, b), c) == fp6_mul(a, fp6_mul(b, c)),
{
    lemma_red6(a);
    lemma_red6(c);
    lemma_u6mul_absorb(u6mul(a, b), c);
    lemma_u6mul_assoc(a, b, c);
    lemma_u6mul_absorb(a, u6mul(b, c));
}

/// Distributivity of the field product over addition on canonical elements.
pub proof fn lemma_fp6_mul_dist(a: Fp6Val, b: Fp6Val, c: Fp6Val)
    requires
        fp6_okv(a),
        fp6_okv(b),
        fp6_okv(c),
    ensures
        fp6_mul(fp6_add(a, b), c) == fp6_add(fp6_mul(a, c), fp6_mul(b, c)),
{
    lemma_red6(c);
    lemma_u6mul_absorb(u6add(a, b), c);
    lemma_u6mul_dist(a, b, c);
    lemma_u6add_absorb(u6mul(a, c), u6mul(b, c));
    assert(red6(u6mul(u6add(a, b), c)) =~= red6(u6add(u6mul(a, c), u6mul(b, c))));
}

/// One is the multiplicative identity on canonical elements.
pub proof fn lemma_fp6_mul_one(a: Fp6Val)
    requires
        fp6_okv(a),
    ensures
        fp6_mul(a, fp6_one()) == a,
        fp6_mul(fp6_one(), a) == a,
{
    lemma_umul2_one(a.c0);
    lemma_umul2_one(a.c1);
    lemma_umul2_one(a.c2);
    lemma_umul2_zero(a.c0);
    lemma_umul2_zero(a.c1);
    lemma_umul2_zero(a.c2);
    assert(u6mul(a, fp6_one()) =~= a);
    assert(u6mul(fp6_one(), a) =~= a);
    lemma_red6(a);
}

impl Fp6 {
    /// The square of the element, computed with the shorter
    /// Chung–Hasan-style sequence of quadratic-field operations. The result
    /// is exactly the general product of the element with itself.
    pub fn square(&self) -> (r: Fp6)
        requires
            self.ok(),
        ensures
            r.ok(),
            r@ == fp6_mul(self@, self@),
    {
        let s0 = self.c0.mul(&self.c0);
        let ab = self.c0.mul(&self.c1);
        let s1 = ab.add(&ab);
        let t = self.c0.sub(&self.c1).add(&self.c2);
        let s2 = t.mul(&t);
        let bc = self.c1.mul(&self.c2);
        let s3 = bc.add(&bc);
        let s4 = self.c2.mul(&self.c2);
        let r0 = s3.mul_by_nonresidue().add(&s0);
        let r1 = s4.mul_by_nonresidue().add(&s1);
        let r2 = s1.add(&s2).add(&s3).sub(&s0).sub(&s4);
        let r = Fp6 { c0: r0, c1: r1, c2: r2 };
        proof {
            broadcast use
                crate::fp2::lemma_umul2_comm,
                crate::fp2::lemma_umul2_assoc,
                crate::fp2::lemma_umul2_dist,
                crate::fp2::lemma_umul2_dist_other_way,
                crate::fp2::lemma_umul2_dist_sub,
                crate::fp2::lemma_umul2_dist_sub_other_way;

            let a = self@;
            let u_s0 = umul2(a.c0, a.c0);
            let u_ab = umul2(a.c0, a.c1);
            let u_s1 = uadd2(u_ab, u_ab);
            let u_t = uadd2(usub2(a.c0, a.c1), a.c2);
            let u_s2 = umul2(u_t, u_t);
            let u_bc = umul2(a.c1, a.c2);
            let u_s3 = uadd2(u_bc, u_bc);
            let u_s4 = umul2(a.c2, a.c2);
            lemma_red2(a.c2);
            lemma_uadd2_absorb(u_ab, u_ab);
            assert(s1@ == red2(u_s1));
            lemma_uadd2_absorb(usub2(a.c0, a.c1), a.c2);
            assert(t@ == red2(u_t));
            lemma_umul2_absorb(u_t, u_t);
            assert(s2@ == red2(u_s2));
            lemma_uadd2_absorb(u_bc, u_bc);
            assert(s3@ == red2(u_s3));
            // component 0
            lemma_unr2_absorb(u_s3);
            lemma_uadd2_absorb(unr2(u_s3), u_s0);
            assert(r0@ == red2(uadd2(unr2(u_s3), u_s0)));
            // component 1
            lemma_unr2_absorb(u_s4);
            lemma_uadd2_absorb(unr2(u_s4), u_s1);
            assert(r1@ == red2(uadd2(unr2(u_s4), u_s1)));
            // component 2
            lemma_uadd2_absorb(u_s1, u_s2);
            lemma_uadd2_absorb(uadd2(u_s1, u_s2), u_s3);
            lemma_usub2_absorb(uadd2(uadd2(u_s1, u_s2), u_s3), u_s0);
            lemma_usub2_absorb(usub2(uadd2(uadd2(u_s1, u_s2), u_s3), u_s0), u_s4);
            assert(r2@ == red2(usub2(usub2(uadd2(uadd2(u_s1, u_s2), u_s3), u_s0), u_s4)));
            // the unreduced expressions are the squaring formula
            assert(uadd2(unr2(u_s3), u_s0) =~= u6mul(a, a).c0);
            assert(uadd2(unr2(u_s4), u_s1) =~= u6mul(a, a).c1);
            assert(usub2(usub2(uadd2(uadd2(u_s1, u_s2), u_s3), u_s0), u_s4) =~= u6mul(a, a).c2);
            assert(r@ =~= fp6_mul(a, a));
        }
        r
    }

    /// Product with a sparse element `c1 * v`, by the shortened Karatsuba
    /// sequence; the result is exactly the general product with that
    /// element.
    pub fn mul_by_1(&self, c1: &Fp2) -> (r: Fp6)
        requires
            self.ok(),
            c1.ok(),
        ensures
            r.ok(),
            r@ == fp6_mul(self@, (Fp6Val { c0: fp2_zero(), c1: c1@, c2: fp2_zero() })),
    {
        let b_b = self.c1.mul(c1);
        let t1 = self.c1.add(&self.c2).mul(c1).sub(&b_b).mul_by_nonresidue();
        let t2 = self.c0.add(&self.c1).mul(c1).sub(&b_b);
        let r = Fp6 { c0: t1, c1: t2, c2: b_b };
        proof {
            broadcast use
                crate::fp2::lemma_umul2_comm,
                crate::fp2::lemma_umul2_dist,
                crate::fp2::lemma_umul2_dist_other_way;

            let a = self@;
            let c = c1@;
            let bv = Fp6Val { c0: fp2_zero(), c1: c, c2: fp2_zero() };
            let u_bb = umul2(a.c1, c);
            let u_sc = umul2(uadd2(a.c1, a.c2), c);
            let u_t1 = unr2(usub2(u_sc, u_bb));
            let u_sc2 = umul2(uadd2(a.c0, a.c1), c);
            let u_t2 = usub2(u_sc2, u_bb);
            lemma_red2(c);
            lemma_uadd2_absorb(a.c1, a.c2);
            lemma_umul2_absorb(uadd2(a.c1, a.c2), c);
            lemma_usub2_absorb(u_sc, u_bb);
            lemma_unr2_absorb(usub2(u_sc, u_bb));
            assert(t1@ == red2(u_t1));
            lemma_uadd2_absorb(a.c0, a.c1);
            lemma_umul2_absorb(uadd2(a.c0, a.c1), c);
            lemma_usub2_absorb(u_sc2, u_bb);
            assert(t2@ == red2(u_t2));
            lemma_umul2_zero(a.c0);
            lemma_umul2_zero(a.c1);
            lemma_umul2_zero(a.c2);
            assert(u_t1 =~= u6mul(a, bv).c0);
            assert(u_t2 =~= u6mul(a, bv).c1);
            assert(u_bb =~= u6mul(a, bv).c2);
            assert(r@ =~= fp6_mul(a, bv));
        }
        r
    }

    /// Product with a sparse element `c0 + c1 * v`, by the shortened
    /// Karatsuba sequence; the result is exactly the general product with
    /// that element.
    pub fn mul_by_01(&self, c0: &Fp2, c1: &Fp2) -> (r: Fp6)
        requires
            self.ok(),
            c0.ok(),
            c1.ok(),
        ensures
            r.ok(),
            r@ == fp6_mul(self@, (Fp6Val { c0: c0@, c1: c1@, c2: fp2_zero() })),
    {
        let a_a = self.c0.mul(c0);
        let b_b = self.c1.mul(c1);
        let t1 = self.c1.add(&self.c2).mul(c1).sub(&b_b).mul_by_nonresidue().add(&a_a);
        let t2 = c0.add(c1).mul(&self.c0.add(&self.c1)).sub(&a_a).sub(&b_b);
        let t3 = self.c0.add(&self.c2).mul(c0).sub(&a_a).add(&b_b);
        let r = Fp6 { c0: t1, c1: t2, c2: t3 };
        proof {
            broadcast use
                crate::fp2::lemma_umul2_comm,
                crate::fp2::lemma_umul2_dist,
                crate::fp2::lemma_umul2_dist_other_way;

            let a = self@;
            let x = c0@;
            let y = c1@;
            let bv = Fp6Val { c0: x, c1: y, c2: fp2_zero() };
            let u_aa = umul2(a.c0, x);
            let u_bb = umul2(a.c1, y);
            let u_t1 = uadd2(unr2(usub2(umul2(uadd2(a.c1, a.c2), y), u_bb)), u_aa);
            let u_t2 = usub2(usub2(umul2(uadd2(x, y), uadd2(a.c0, a.c1)), u_aa), u_bb);
            let u_t3 = uadd2(usub2(umul2(uadd2(a.c0, a.c2), x), u_aa), u_bb);
            lemma_red2(x);
            lemma_red2(y);
            lemma_uadd2_absorb(a.c1, a.c2);
            lemma_umul2_absorb(uadd2(a.c1, a.c2), y);
            lemma_usub2_absorb(umul2(uadd2(a.c1, a.c2), y), u_bb);
            lemma_unr2_absorb(usub2(umul2(uadd2(a.c1, a.c2), y), u_bb));
            lemma_uadd2_absorb(unr2(usub2(umul2(uadd2(a.c1, a.c2), y), u_bb)), u_aa);
            assert(t1@ == red2(u_t1));
            lemma_uadd2_absorb(x, y);
            lemma_uadd2_absorb(a.c0, a.c1);
            lemma_umul2_absorb(uadd2(x, y), uadd2(a.c0, a.c1));
            lemma_usub2_absorb(umul2(uadd2(x, y), uadd2(a.c0, a.c1)), u_aa);
            lemma_usub2_absorb(usub2(umul2(uadd2(x, y), uadd2(a.c0, a.c1)), u_aa), u_bb);
            assert(t2@ == red2(u_t2));
            lemma_uadd2_absorb(a.c0, a.c2);
            lemma_umul2_absorb(uadd2(a.c0, a.c2), x);
            lemma_usub2_absorb(umul2(uadd2(a.c0, a.c2), x), u_aa);
            lemma_uadd2_absorb(usub2(umul2(uadd2(a.c0, a.c2), x), u_aa), u_bb);
            assert(t3@ == red2(u_t3));
            lemma_umul2_zero(a.c0);
            lemma_umul2_zero(a.c1);
            lemma_umul2_zero(a.c2);
            assert(u_t1 =~= u6mul(a, bv).c0);
            assert(u_t2 =~= u6mul(a, bv).c1);
            assert(u_t3 =~= u6mul(a, bv).c2);
            assert(r@ =~= fp6_mul(a, bv));
        }
        r
    }

    /// The Frobenius endomorphism `a -> a^p`: conjugate each component and
    /// multiply `c1`, `c2` by the fixed curve constants
    /// `(1 + u)^((p - 1) / 3)` and `(1 + u)^((2p - 2) / 3)`.
    pub fn frobenius_map(&self) -> (r: Fp6)
        requires
            self.ok(),
        ensures
            r.ok(),
            r@ == fp6_frob(self@),
    {
        let k1 = Fp2 {
            c0: Fp { limbs: [0, 0, 0, 0, 0, 0] },
            c1: Fp {
                limbs: [
                    0x8bfd00000000aaac,
                    0x409427eb4f49fffd,
                    0x897d29650fb85f9b,
                    0xaa0d857d89759ad4,
                    0xec02408663d4de85,
                    0x1a0111ea397fe699,
                ],
            },
        };
        let k2 = Fp2 {
            c0: Fp {
                limbs: [
                    0x8bfd00000000aaad,
                    0x409427eb4f49fffd,
                    0x897d29650fb85f9b,
                    0xaa0d857d89759ad4,
                    0xec02408663d4de85,
                    0x1a0111ea397fe699,
                ],
            },
            c1: Fp { limbs: [0, 0, 0, 0, 0, 0] },
        };
        proof {
            assert(k1@ =~= frob_c1());
            assert(k2@ =~= frob_c2());
        }
        let r = Fp6 {
            c0: self.c0.frobenius_map(),
            c1: self.c1.frobenius_map().mul(&k1),
            c2: self.c2.frobenius_map().mul(&k2),
        };
        proof {
            assert(r@ =~= fp6_frob(self@));
        }
        r
    }
}

/// Canonical elements raised to any power are canonical.
pub proof fn lemma_fp6_pow_ok(a: Fp6Val, n: nat)
    ensures
        fp6_okv(fp6_pow(a, n)),
    decreases n,
{
    if n == 0 {
        assert(fp6_okv(fp6_one()));
    } else {
        lemma_fp6_pow_ok(a, (n - 1) as nat);
        lemma_red6(u6mul(fp6_pow(a, (n - 1) as nat), a));
    }
}

/// Powers add: `a^(m + n) == a^m * a^n`.
pub proof fn lemma_fp6_pow_add(a: Fp6Val, m: nat, n: nat)
    requires
        fp6_okv(a),
    ensures
        fp6_pow(a, m + n) == fp6_mul(fp6_pow(a, m), fp6_pow(a, n)),
    decreases n,
{
    lemma_fp6_pow_ok(a, m);
    if n == 0 {
        lemma_fp6_pow_one_helper(a, m);
    } else {
        lemma_fp6_pow_add(a, m, (n - 1) as nat);
        lemma_fp6_pow_ok(a, (n - 1) as nat);
        lemma_fp6_mul_assoc(fp6_pow(a, m), fp6_pow(a, (n - 1) as nat), a);
        assert(m + n - 1 == m + (n - 1) as nat);
    }
}

/// `a^m * one == a^m`, a helper for the base case above.
proof fn lemma_fp6_pow_one_helper(a: Fp6Val, m: nat)
    requires
        fp6_okv(a),
    ensures
        fp6_mul(fp6_pow(a, m), fp6_one()) == fp6_pow(a, m),
{
    lemma_fp6_pow_ok(a, m);
    lemma_fp6_mul_one(fp6_pow(a, m));
}

/// Powers multiply: `(a^m)^n == a^(m * n)`.
pub proof fn lemma_fp6_pow_mul(a: Fp6Val, m: nat, n: nat)
    requires
        fp6_okv(a),
    ensures
        fp6_pow(fp6_pow(a, m), n) == fp6_pow(a, m * n),
    decreases n,
{
    lemma_fp6_pow_ok(a, m);
    if n == 0 {
        assert(m * 0 == 0) by (nonlinear_arith);
    } else {
        let k = (n - 1) as nat;
        lemma_fp6_pow_mul(a, m, k);
        lemma_fp6_pow_add(a, m * k, m);
        assert(m * k + m == m * (k + 1)) by (nonlinear_arith);
        assert(m * (k + 1) == m * n);
    }
}

/// The big-endian integer denoted by a sequence of 64-bit limbs, most
/// significant first.
pub open spec fn be_val(s: Seq<u64>) -> nat
    decreases s.len(),
{
    if s.len() == 0 {
        0
    } else {
        (be_val(s.drop_last()) * 0x10000000000000000 + s.last()) as nat
    }
}

impl Fp6 {
    /// Eight successive squarings: `x^256`.
    fn sq8(x: &Fp6) -> (r: Fp6)
        requires
            x.ok(),
        ensures
            r.ok(),
            r@ == fp6_pow(x@, 256),
    {
        proof {
            lemma_red6(x@);
            lemma_fp6_mul_one(x@);
            assert(fp6_pow(x@, 0) == fp6_one());
            assert(fp6_pow(x@, 1) == fp6_mul(fp6_one(), x@));
        }
        let r1 = x.square();
        proof {
            lemma_fp6_pow_add(x@, 1, 1);
        }
        let r2 = r1.square();
        proof {
            lemma_fp6_pow_add(x@, 2, 2);
        }
        let r3 = r2.square();
        proof {
            lemma_fp6_pow_add(x@, 4, 4);
        }
        let r4 = r3.square();
        proof {
            lemma_fp6_pow_add(x@, 8, 8);
        }
        let r5 = r4.square();
        proof {
            lemma_fp6_pow_add(x@, 16, 16);
        }
        let r6 = r5.square();
        proof {
            lemma_fp6_pow_add(x@, 32, 32);
        }
        let r7 = r6.square();
        proof {
            lemma_fp6_pow_add(x@, 64, 64);
        }
        let r8 = r7.square();
        proof {
            lemma_fp6_pow_add(x@, 128, 128);
        }
        r8
    }

    /// Raises the element to the power denoted by `by`, a big-endian
    /// sequence of 64-bit limbs, with an 8-bit-window lookup table.
    ///
    /// The running time depends on the bit length of the exponent but not on
    /// the value of the base; the exponent itself is processed in variable
    /// time and must be public, as it is for the fixed field constants this
    /// helper serves.
    #[verifier::rlimit(100)]
    pub fn pow_vartime(&self, by: &[u64]) -> (r: Fp6)
        requires
            self.ok(),
        ensures
            r.ok(),
            r@ == fp6_pow(self@, be_val(by@)),
    {
        let a = self;
        // Precompute the table of a^0 .. a^255.
        let mut lut: Vec<Fp6> = Vec::new();
        lut.push(Fp6::one());
        lut.push(*a);
        proof {
            lemma_red6(a@);
            lemma_fp6_mul_one(a@);
            assert(fp6_pow(a@, 0) == fp6_one());
            assert(fp6_pow(a@, 1) == fp6_mul(fp6_one(), a@));
            assert(lut[1]@ == fp6_pow(a@, 1));
        }
        let mut i: usize = 1;
        while i < 128
            invariant
                a.ok(),
                1 <= i <= 128,
                lut.len() == 2 * i,
                forall|k: int| 0 <= k < lut.len() ==> (#[trigger] lut[k]).ok() && lut[k]@
                    == fp6_pow(a@, k as nat),
            decreases 128 - i,
        {
            let sq = lut[i].square();
            proof {
                lemma_fp6_pow_add(a@, i as nat, i as nat);
            }
            lut.push(sq);
            let m = lut[2 * i].mul(a);
            lut.push(m);
            i += 1;
        }
        let mut res = Fp6::one();
        let mut j: usize = 0;
        while j < by.len()
            invariant
                a.ok(),
                res.ok(),
                0 <= j <= by@.len(),
                lut.len() == 256,
                forall|k: int| 0 <= k < lut.len() ==> (#[trigger] lut[k]).ok() && lut[k]@
                    == fp6_pow(a@, k as nat),
                res@ == fp6_pow(a@, be_val(by@.take(j as int))),
            decreases by@.len() - j,
        {
            let e = by[j];
            let ghost e0 = be_val(by@.take(j as int));
            let d0 = ((e >> 56) & 0xff) as usize;
            let d1 = ((e >> 48) & 0xff) as usize;
            let d2 = ((e >> 40) & 0xff) as usize;
            let d3 = ((e >> 32) & 0xff) as usize;
            let d4 = ((e >> 24) & 0xff) as usize;
            let d5 = ((e >> 16) & 0xff) as usize;
            let d6 = ((e >> 8) & 0xff) as usize;
            let d7 = (e & 0xff) as usize;
            proof {
                assert((e >> 56) & 0xff < 256 && (e >> 48) & 0xff < 256 && (e >> 40) & 0xff < 256
                    && (e >> 32) & 0xff < 256 && (e >> 24) & 0xff < 256 && (e >> 16) & 0xff < 256
                    && (e >> 8) & 0xff < 256 && e & 0xff < 256) by (bit_vector);
                assert(e == ((e >> 56) & 0xff) * 0x100000000000000 + ((e >> 48) & 0xff)
                    * 0x1000000000000 + ((e >> 40) & 0xff) * 0x10000000000 + ((e >> 32) & 0xff)
                    * 0x100000000 + ((e >> 24) & 0xff) * 0x1000000 + ((e >> 16) & 0xff) * 0x10000
                    + ((e >> 8) & 0xff) * 0x100 + (e & 0xff)) by (bit_vector);
            }
            let ghost mut ec = e0;
            res = Fp6::sq8(&res).mul(&lut[d0]);
            proof {
                lemma_fp6_pow_mul(a@, ec, 256);
                lemma_fp6_pow_add(a@, ec * 256, d0 as nat);
                ec = ec * 256 + d0 as nat;
            }
            res = Fp6::sq8(&res).mul(&lut[d1]);
            proof {
                lemma_fp6_pow_mul(a@, ec, 256);
                lemma_fp6_pow_add(a@, ec * 256, d1 as nat);
                ec = ec * 256 + d1 as nat;
            }
            res = Fp6::sq8(&res).mul(&lut[d2]);
            proof {
                lemma_fp6_pow_mul(a@, ec, 256);
                lemma_fp6_pow_add(a@, ec * 256, d2 as nat);
                ec = ec * 256 + d2 as nat;
            }
            res = Fp6::sq8(&res).mul(&lut[d3]);
            proof {
                lemma_fp6_pow_mul(a@, ec, 256);
                lemma_fp6_pow_add(a@, ec * 256, d3 as nat);
                ec = ec * 256 + d3 as nat;
            }
            res = Fp6::sq8(&res).mul(&lut[d4]);
            proof {
                lemma_fp6_pow_mul(a@, ec, 256);
                lemma_fp6_pow_add(a@, ec * 256, d4 as nat);
                ec = ec * 256 + d4 as nat;
            }
            res = Fp6::sq8(&res).mul(&lut[d5]);
            proof {
                lemma_fp6_pow_mul(a@, ec, 256);
                lemma_fp6_pow_add(a@, ec * 256, d5 as nat);
                ec = ec * 256 + d5 as nat;
            }
            res = Fp6::sq8(&res).mul(&lut[d6]);
            proof {
                lemma_fp6_pow_mul(a@, ec, 256);
                lemma_fp6_pow_add(a@, ec * 256, d6 as nat);
                ec = ec * 256 + d6 as nat;
            }
            res = Fp6::sq8(&res).mul(&lut[d7]);
            proof {
                lemma_fp6_pow_mul(a@, ec, 256);
                lemma_fp6_pow_add(a@, ec * 256, d7 as nat);
                ec = ec * 256 + d7 as nat;
                assert(ec == e0 * 0x10000000000000000 + e);
                assert(by@.take(j as int + 1).drop_last() =~= by@.take(j as int));
                assert(by@.take(j as int + 1).last() == by@[j as int]);
                assert(be_val(by@.take(j as int + 1)) == e0 * 0x10000000000000000 + e);
            }
            j += 1;
        }
        proof {
            assert(by@.take(by@.len() as int) =~= by@);
        }
        res
    }
}

// ---------------------------------------------------------------------------
// Inversion.
// ---------------------------------------------------------------------------

/// First adjugate component `c0^2 - (c1 * c2) * (1 + u)`.
pub open spec fn fp6_inv_c0(a: Fp6Val) -> Fp2Val {
    fp2_sub(fp2_mul(a.c0, a.c0), fp2_nr(fp2_mul(a.c1, a.c2)))
}

/// Second adjugate component `c2^2 * (1 + u) - c0 * c1`.
pub open spec fn fp6_inv_c1(a: Fp6Val) -> Fp2Val {
    fp2_sub(fp2_nr(fp2_mul(a.c2, a.c2)), fp2_mul(a.c0, a.c1))
}

/// Third adjugate component `c1^2 - c0 * c2`.
pub open spec fn fp6_inv_c2(a: Fp6Val) -> Fp2Val {
    fp2_sub(fp2_mul(a.c1, a.c1), fp2_mul(a.c0, a.c2))
}

/// The norm-like scalar whose quadratic-field inverse scales the adjugate:
/// `(c1 * t2 + c2 * t1) * (1 + u) + c0 * t0`.
pub open spec fn fp6_norm(a: Fp6Val) -> Fp2Val {
    fp2_add(
        fp2_nr(fp2_add(fp2_mul(a.c1, fp6_inv_c2(a)), fp2_mul(a.c2, fp6_inv_c1(a)))),
        fp2_mul(a.c0, fp6_inv_c0(a)),
    )
}

/// Unreduced adjugate components.
pub open spec fn u6adj(a: Fp6Val) -> Fp6Val {
    Fp6Val {
        c0: usub2(umul2(a.c0, a.c0), unr2(umul2(a.c1, a.c2))),
        c1: usub2(unr2(umul2(a.c2, a.c2)), umul2(a.c0, a.c1)),
        c2: usub2(umul2(a.c1, a.c1), umul2(a.c0, a.c2)),
    }
}

/// Unreduced norm.
pub open spec fn u6norm(a: Fp6Val) -> Fp2Val {
    uadd2(
        unr2(uadd2(umul2(a.c1, u6adj(a).c2), umul2(a.c2, u6adj(a).c1))),
        umul2(a.c0, u6adj(a).c0),
    )
}

/// The product of an element with its adjugate is the norm, embedded as the
/// constant coefficient; the other two coefficients vanish identically.
pub proof fn lemma_u6_adjugate(a: Fp6Val)
    ensures
        u6mul(a, u6adj(a)) == (Fp6Val { c0: u6norm(a), c1: fp2_zero(), c2: fp2_zero() }),
{
    broadcast use
        crate::fp2::lemma_umul2_comm,
        crate::fp2::lemma_umul2_assoc,
        crate::fp2::lemma_umul2_dist,
        crate::fp2::lemma_umul2_dist_other_way,
        crate::fp2::lemma_umul2_dist_sub,
        crate::fp2::lemma_umul2_dist_sub_other_way,
        crate::fp2::lemma_unr2_mul,
        crate::fp2::lemma_unr2_mul_right;

    assert(u6mul(a, u6adj(a)).c0 =~= u6norm(a));
    assert(u6mul(a, u6adj(a)).c1 =~= fp2_zero());
    assert(u6mul(a, u6adj(a)).c2 =~= fp2_zero());
    assert(u6mul(a, u6adj(a)) =~= (Fp6Val { c0: u6norm(a), c1: fp2_zero(), c2: fp2_zero() }));
}

/// The norm of the zero element is zero.
pub proof fn lemma_fp6_norm_zero()
    ensures
        fp6_norm(fp6_zero()) == fp2_zero(),
{
    crate::modp::lemma_mm_small(0);
    assert(fp2_mul(fp2_zero(), fp2_zero()) =~= red2(fp2_zero()));
    assert(red2(fp2_zero()) =~= fp2_zero());
    assert(fp6_inv_c0(fp6_zero()) =~= red2(fp2_zero()));
    assert(fp6_inv_c1(fp6_zero()) =~= red2(fp2_zero()));
    assert(fp6_inv_c2(fp6_zero()) =~= red2(fp2_zero()));
    assert(fp6_norm(fp6_zero()) =~= fp2_zero());
}

impl Fp6 {
    /// Constant-time equality of the denoted values.
    pub fn ct_eq(&self, other: &Fp6) -> (r: Choice)
        ensures
            r.ok(),
            r@ == (self@ == other@),
    {
        let r = self.c0.ct_eq(&other.c0).and(&self.c1.ct_eq(&other.c1)).and(
            &self.c2.ct_eq(&other.c2),
        );
        proof {
            if self@ == other@ {
                assert(self.c0@ == other.c0@ && self.c1@ == other.c1@ && self.c2@ == other.c2@);
            }
            if r@ {
                assert(self@ =~= other@);
            }
        }
        r
    }

    /// Constant-time selection: `b` when the choice is set, else `a`.
    pub fn conditional_select(a: &Fp6, b: &Fp6, choice: &Choice) -> (r: Fp6)
        requires
            choice.ok(),
        ensures
            r@ == (if choice@ { b@ } else { a@ }),
    {
        let bit = choice.bit();
        let r = Fp6 {
            c0: Fp2::select(&a.c0, &b.c0, bit),
            c1: Fp2::select(&a.c1, &b.c1, bit),
            c2: Fp2::select(&a.c2, &b.c2, bit),
        };
        proof {
            if choice@ {
                assert(r@ =~= b@);
            } else {
                assert(r@ =~= a@);
            }
        }
        r
    }

    /// Constant-time zero test.
    pub fn is_zero(&self) -> (r: Choice)
        ensures
            r.ok(),
            r@ == (self@ == fp6_zero()),
    {
        let r = self.c0.is_zero().and(&self.c1.is_zero()).and(&self.c2.is_zero());
        proof {
            if r@ {
                assert(self@ =~= fp6_zero());
            }
        }
        r
    }

    /// Whether the element is strictly larger, lexicographically on
    /// `(c2, c1, c0)`, than its negation.
    pub fn lexicographically_largest(&self) -> (r: Choice)
        requires
            self.ok(),
        ensures
            r.ok(),
            r@ == fp6_lex_largest(self@),
    {
        self.c2.lexicographically_largest().or(
            &self.c2.is_zero().and(&self.c1.lexicographically_largest()),
        ).or(
            &self.c2.is_zero().and(&self.c1.is_zero()).and(&self.c0.lexicographically_largest()),
        )
    }

    /// Overwrites the element in place with the additive identity, for
    /// wiping secret intermediate values. Copies already taken are not
    /// affected.
    pub fn zeroize(&mut self)
        ensures
            final(self).ok(),
            final(self)@ == fp6_zero(),
    {
        *self = Fp6::zero();
    }

    /// The multiplicative inverse, valid exactly when the norm-like scalar
    /// is invertible in the quadratic field; for the zero element the
    /// result is always invalid. A valid payload times the input is one.
    pub fn invert(&self) -> (r: CtOption<Fp6>)
        requires
            self.ok(),
        ensures
            r.ok(),
            r.spec_is_some() <==> fp6_norm(self@) != fp2_zero(),
            self@ == fp6_zero() ==> !r.spec_is_some(),
            r.spec_is_some() ==> r.spec_value().ok() && fp6_mul(r.spec_value()@, self@)
                == fp6_one(),
    {
        let c0v = self.c0.mul(&self.c0).sub(&self.c1.mul(&self.c2).mul_by_nonresidue());
        let c1v = self.c2.mul(&self.c2).mul_by_nonresidue().sub(&self.c0.mul(&self.c1));
        let c2v = self.c1.mul(&self.c1).sub(&self.c0.mul(&self.c2));
        let tmp = self.c1.mul(&c2v).add(&self.c2.mul(&c1v)).mul_by_nonresidue().add(
            &self.c0.mul(&c0v),
        );
        proof {
            lemma_fp6_norm_zero();
        }
        match tmp.invert() {
            Some(t) => {
                let r = Fp6 { c0: t.mul(&c0v), c1: t.mul(&c1v), c2: t.mul(&c2v) };
                proof {
                    lemma_fp6_invert_correct(self@, t@, r@);
                }
                CtOption::new(r, Choice::new(1))
            },
            None => CtOption::new(Fp6::zero(), Choice::new(0)),
        }
    }
}

/// If `t` inverts the norm of `a`, then `t` times the adjugate of `a`
/// inverts `a`.
proof fn lemma_fp6_invert_correct(a: Fp6Val, t: Fp2Val, r: Fp6Val)
    requires
        fp6_okv(a),
        fp2_ok(t),
        fp2_mul(t, fp6_norm(a)) == fp2_one(),
        r == (Fp6Val {
            c0: fp2_mul(t, fp6_inv_c0(a)),
            c1: fp2_mul(t, fp6_inv_c1(a)),
            c2: fp2_mul(t, fp6_inv_c2(a)),
        }),
    ensures
        fp6_okv(r),
        fp6_mul(r, a) == fp6_one(),
{
    broadcast use
        crate::fp2::lemma_umul2_comm,
        crate::fp2::lemma_umul2_assoc,
        crate::fp2::lemma_umul2_dist,
        crate::fp2::lemma_umul2_dist_other_way,
        crate::fp2::lemma_unr2_mul,
        crate::fp2::lemma_unr2_mul_right;

    let adj = u6adj(a);
    // The reduced adjugate components drop their interior reductions.
    lemma_umul2_absorb(a.c0, a.c0);
    lemma_umul2_absorb(a.c1, a.c2);
    lemma_unr2_absorb(umul2(a.c1, a.c2));
    lemma_usub2_absorb(umul2(a.c0, a.c0), unr2(umul2(a.c1, a.c2)));
    assert(fp6_inv_c0(a) == red2(adj.c0));
    lemma_umul2_absorb(a.c2, a.c2);
    lemma_unr2_absorb(umul2(a.c2, a.c2));
    lemma_umul2_absorb(a.c0, a.c1);
    lemma_usub2_absorb(unr2(umul2(a.c2, a.c2)), umul2(a.c0, a.c1));
    assert(fp6_inv_c1(a) == red2(adj.c1));
    lemma_umul2_absorb(a.c1, a.c1);
    lemma_umul2_absorb(a.c0, a.c2);
    lemma_usub2_absorb(umul2(a.c1, a.c1), umul2(a.c0, a.c2));
    assert(fp6_inv_c2(a) == red2(adj.c2));
    // The scaled components are red2 of the unreduced scaled adjugate.
    lemma_red2(t);
    lemma_umul2_absorb(t, adj.c0);
    lemma_umul2_absorb(t, adj.c1);
    lemma_umul2_absorb(t, adj.c2);
    let sv = Fp6Val { c0: umul2(t, adj.c0), c1: umul2(t, adj.c1), c2: umul2(t, adj.c2) };
    assert(r == red6(sv));
    lemma_red6(sv);
    lemma_red6(a);
    // fp6_mul(r, a) reduces the unreduced product of sv and a.
    lemma_u6mul_absorb(sv, a);
    assert(fp6_mul(r, a) == red6(u6mul(sv, a)));
    // The unreduced product is t times the adjugate product.
    lemma_u6mul_comm(a, adj);
    lemma_u6_adjugate(a);
    lemma_umul2_zero(t);
    assert(u6mul(sv, a).c0 =~= umul2(t, u6mul(adj, a).c0));
    assert(u6mul(sv, a).c1 =~= umul2(t, u6mul(adj, a).c1));
    assert(u6mul(sv, a).c2 =~= umul2(t, u6mul(adj, a).c2));
    assert(u6mul(sv, a).c1 == fp2_zero());
    assert(u6mul(sv, a).c2 == fp2_zero());
    assert(u6mul(sv, a).c0 == umul2(t, u6norm(a)));
    // The norm itself drops its interior reductions.
    lemma_umul2_absorb(a.c1, adj.c2);
    lemma_umul2_absorb(a.c2, adj.c1);
    lemma_umul2_absorb(a.c0, adj.c0);
    lemma_uadd2_absorb(umul2(a.c1, adj.c2), umul2(a.c2, adj.c1));
    lemma_unr2_absorb(uadd2(umul2(a.c1, adj.c2), umul2(a.c2, adj.c1)));
    lemma_uadd2_absorb(unr2(uadd2(umul2(a.c1, adj.c2), umul2(a.c2, adj.c1))), umul2(a.c0, adj.c0));
    assert(fp6_norm(a) == red2(u6norm(a)));
    // So the constant coefficient of the product reduces to one.
    lemma_umul2_absorb(t, u6norm(a));
    assert(red2(umul2(t, u6norm(a))) == fp2_mul(t, fp6_norm(a)));
    crate::modp::lemma_mm_small(0);
    assert(red2(fp2_zero()) =~= fp2_zero());
    assert(red6(u6mul(sv, a)) =~= fp6_one());
}

// ---------------------------------------------------------------------------
// Square root.
// ---------------------------------------------------------------------------

/// The public square-root exponent `(p^6 - 9) / 16`, as the value of its
/// fixed big-endian limb encoding.
pub open spec fn sqrt_exp() -> nat {
    be_val(seq![
        0x126e3a9ce60u64, 0x9a1f49cc5d7911d1u64, 0x0f22d47e8f4c8a61u64, 0xd4bf5d877014b55fu64,
        0x605ec38b8f441e07u64, 0x5c538a5d6456a69cu64, 0x7b7a84c946d480f7u64, 0xd91568530d98be18u64,
        0x7dcd0112c1716c29u64, 0xc69f8d8d26942fd6u64, 0xe5df34f80b646e30u64, 0x3f8495f8c07454bbu64,
        0x88cefbbcb4b30a9eu64, 0xdccf5dcd2baf7616u64, 0xd1d8e1e24340abd7u64, 0xa0b065ad579101c2u64,
        0x383ae97d6e42a21du64, 0xe3a393c71fbaa2a9u64, 0x6fe7ecc060dc0416u64, 0x45a04d8b589e2ee0u64,
        0xae8ef66f64fc39e3u64, 0x8ce491e59479f2f0u64, 0x64a169ed7be12645u64, 0x3c60ea9e7da88f87u64,
        0xa48cffe36be19d62u64, 0xceb29abcf6393273u64, 0x68d0e2ff6757720du64, 0x8753cc53bc216c89u64,
        0xd1104ac1a5e1d016u64, 0xea912bfab48acaa3u64, 0x112c3fafee728bc6u64, 0x5bc6e626bf75d31bu64,
        0x1e2224a8eb96aa99u64, 0xbd7b3ab5b8c6b958u64, 0x43e289a0f3f4bf2du64, 0xec6c98463c0705d6u64,
    ])
}

/// The fixed auxiliary constant `(2 * d1^2)^((p^6 - 9) / 16)` for the
/// quadratic-residue candidate `d1 = -1`.
pub open spec fn sqrt_d1p() -> Fp6Val {
    Fp6Val {
        c0: Fp2Val {
            c0: (((((0x135203e60180a68e as int) * 0x10000000000000000 + 0xe2e9c448d77a2cd9)
                * 0x10000000000000000 + 0x1c3dedd930b1cf60)
                * 0x10000000000000000 + 0xef396489f61eb45e)
                * 0x10000000000000000 + 0x304466cf3e67fa0a)
                * 0x10000000000000000 + 0xf1ee7b04121bdea2,
            c1: 0,
        },
        c1: fp2_zero(),
        c2: fp2_zero(),
    }
}

/// The fixed auxiliary constant `(2 * d2^2)^((p^6 - 9) / 16)` for the
/// non-residue candidate `d2 = v`.
pub open spec fn sqrt_d2p() -> Fp6Val {
    Fp6Val {
        c0: fp2_zero(),
        c1: fp2_zero(),
        c2: Fp2Val {
            c0: 0,
            c1: (((((0x0d0088f51cbff34d as int) * 0x10000000000000000 + 0x258dd3db21a5d66b)
                * 0x10000000000000000 + 0xb23ba5c279c2895f)
                * 0x10000000000000000 + 0xb39869507b587b12)
                * 0x10000000000000000 + 0x0f55ffff58a9ffff)
                * 0x10000000000000000 + 0xdcff7fffffffd555,
        },
    }
}

/// The candidate square root derived from the auxiliary pair `(dp, d)`:
/// with `x^((p^6 - 9) / 16)` as the starting point, form `z*d`, test-square
/// it against `x`, and assemble `z*d*x*(2*(z*d)^2*x - 1)`.
pub open spec fn sqrt_candidate(x: Fp6Val, dp: Fp6Val, d: Fp6Val) -> Fp6Val {
    let z = fp6_mul(fp6_pow(x, sqrt_exp()), dp);
    let zd = fp6_mul(z, d);
    let hi = fp6_mul(fp6_mul(zd, zd), x);
    let i = fp6_add(hi, hi);
    fp6_mul(fp6_mul(zd, x), fp6_sub(i, fp6_one()))
}

impl Fp6 {
    /// A square root of the element, when one exists.
    ///
    /// The generalized Atkin method for `p^6 = 9 mod 16`: one fixed large
    /// exponentiation feeds two candidates, one derived through a quadratic
    /// residue and one through a non-residue; each candidate is tested by
    /// squaring, in constant time, and the matching one is selected. The
    /// result is valid exactly when one of the two candidates squares back
    /// to the element.
    pub fn sqrt(&self) -> (r: CtOption<Fp6>)
        requires
            self.ok(),
        ensures
            r.ok(),
            r.spec_is_some() <==> (fp6_mul(
                sqrt_candidate(self@, sqrt_d1p(), fp6_neg(fp6_one())),
                sqrt_candidate(self@, sqrt_d1p(), fp6_neg(fp6_one())),
            ) == self@ || fp6_mul(
                sqrt_candidate(self@, sqrt_d2p(), fp6_v()),
                sqrt_candidate(self@, sqrt_d2p(), fp6_v()),
            ) == self@),
            r.spec_value()@ == (if fp6_mul(
                sqrt_candidate(self@, sqrt_d2p(), fp6_v()),
                sqrt_candidate(self@, sqrt_d2p(), fp6_v()),
            ) == self@ {
                sqrt_candidate(self@, sqrt_d2p(), fp6_v())
            } else {
                sqrt_candidate(self@, sqrt_d1p(), fp6_neg(fp6_one()))
            }),
            r.spec_is_some() ==> r.spec_value().ok() && fp6_mul(r.spec_value()@, r.spec_value()@)
                == self@,
    {
        let d1 = Fp6::one().neg();
        let d2 = Fp6 { c0: Fp2::zero(), c1: Fp2::one(), c2: Fp2::zero() };
        let d1p = Fp6 {
            c0: Fp2 {
                c0: Fp {
                    limbs: [
                        0xf1ee7b04121bdea2,
                        0x304466cf3e67fa0a,
                        0xef396489f61eb45e,
                        0x1c3dedd930b1cf60,
                        0xe2e9c448d77a2cd9,
                        0x135203e60180a68e,
                    ],
                },
                c1: Fp { limbs: [0, 0, 0, 0, 0, 0] },
            },
            c1: Fp2::zero(),
            c2: Fp2::zero(),
        };
        let d2p = Fp6 {
            c0: Fp2::zero(),
            c1: Fp2::zero(),
            c2: Fp2 {
                c0: Fp { limbs: [0, 0, 0, 0, 0, 0] },
                c1: Fp {
                    limbs: [
                        0xdcff7fffffffd555,
                        0x0f55ffff58a9ffff,
                        0xb39869507b587b12,
                        0xb23ba5c279c2895f,
                        0x258dd3db21a5d66b,
                        0x0d0088f51cbff34d,
                    ],
                },
            },
        };
        let q: [u64; 36] = [
            0x126e3a9ce60,
            0x9a1f49cc5d7911d1,
            0x0f22d47e8f4c8a61,
            0xd4bf5d877014b55f,
            0x605ec38b8f441e07,
            0x5c538a5d6456a69c,
            0x7b7a84c946d480f7,
            0xd91568530d98be18,
            0x7dcd0112c1716c29,
            0xc69f8d8d26942fd6,
            0xe5df34f80b646e30,
            0x3f8495f8c07454bb,
            0x88cefbbcb4b30a9e,
            0xdccf5dcd2baf7616,
            0xd1d8e1e24340abd7,
            0xa0b065ad579101c2,
            0x383ae97d6e42a21d,
            0xe3a393c71fbaa2a9,
            0x6fe7ecc060dc0416,
            0x45a04d8b589e2ee0,
            0xae8ef66f64fc39e3,
            0x8ce491e59479f2f0,
            0x64a169ed7be12645,
            0x3c60ea9e7da88f87,
            0xa48cffe36be19d62,
            0xceb29abcf6393273,
            0x68d0e2ff6757720d,
            0x8753cc53bc216c89,
            0xd1104ac1a5e1d016,
            0xea912bfab48acaa3,
            0x112c3fafee728bc6,
            0x5bc6e626bf75d31b,
            0x1e2224a8eb96aa99,
            0xbd7b3ab5b8c6b958,
            0x43e289a0f3f4bf2d,
            0xec6c98463c0705d6,
        ];
        proof {
            assert(d1p@ =~= sqrt_d1p());
            assert(d2p@ =~= sqrt_d2p());
            assert(d2@ =~= fp6_v());
            assert(q@ =~= seq![
                0x126e3a9ce60u64, 0x9a1f49cc5d7911d1u64, 0x0f22d47e8f4c8a61u64,
                0xd4bf5d877014b55fu64, 0x605ec38b8f441e07u64, 0x5c538a5d6456a69cu64,
                0x7b7a84c946d480f7u64, 0xd91568530d98be18u64, 0x7dcd0112c1716c29u64,
                0xc69f8d8d26942fd6u64, 0xe5df34f80b646e30u64, 0x3f8495f8c07454bbu64,
                0x88cefbbcb4b30a9eu64, 0xdccf5dcd2baf7616u64, 0xd1d8e1e24340abd7u64,
                0xa0b065ad579101c2u64, 0x383ae97d6e42a21du64, 0xe3a393c71fbaa2a9u64,
                0x6fe7ecc060dc0416u64, 0x45a04d8b589e2ee0u64, 0xae8ef66f64fc39e3u64,
                0x8ce491e59479f2f0u64, 0x64a169ed7be12645u64, 0x3c60ea9e7da88f87u64,
                0xa48cffe36be19d62u64, 0xceb29abcf6393273u64, 0x68d0e2ff6757720du64,
                0x8753cc53bc216c89u64, 0xd1104ac1a5e1d016u64, 0xea912bfab48acaa3u64,
                0x112c3fafee728bc6u64, 0x5bc6e626bf75d31bu64, 0x1e2224a8eb96aa99u64,
                0xbd7b3ab5b8c6b958u64, 0x43e289a0f3f4bf2du64, 0xec6c98463c0705d6u64,
            ]);
        }
        let xp = self.pow_vartime(q.as_slice());
        let z1 = xp.mul(&d1p);
        let z2 = xp.mul(&d2p);
        let z1d1 = z1.mul(&d1);
        let z2d2 = z2.mul(&d2);
        let hi1 = z1d1.mul(&z1d1).mul(self);
        let hi2 = z2d2.mul(&z2d2).mul(self);
        let i1 = hi1.add(&hi1);
        let i2 = hi2.add(&hi2);
        let one = Fp6::one();
        let a1 = z1d1.mul(self).mul(&i1.sub(&one));
        let a2 = z2d2.mul(self).mul(&i2.sub(&one));
        let c1 = self.ct_eq(&a1.mul(&a1));
        let c2 = self.ct_eq(&a2.mul(&a2));
        let a = Fp6::conditional_select(&a1, &a2, &c2);
        proof {
            assert(a1@ == sqrt_candidate(self@, sqrt_d1p(), fp6_neg(fp6_one())));
            assert(a2@ == sqrt_candidate(self@, sqrt_d2p(), fp6_v()));
        }
        CtOption::new(a, c1.or(&c2))
    }
}

impl Default for Fp6 {
    /// The additive identity.
    fn default() -> (r: Self)
        ensures
            r.ok(),
            r@ == fp6_zero(),
    {
        Fp6::zero()
    }
}

impl From<Fp2> for Fp6 {
    /// Embeds a quadratic-field element as the constant coefficient.
    fn from(f: Fp2) -> (r: Fp6)
        ensures
            r == Fp6::spec_embed2(f),
    {
        let z = Fp2 { c0: Fp { limbs: [0, 0, 0, 0, 0, 0] }, c1: Fp { limbs: [0, 0, 0, 0, 0, 0] } };
        Fp6 { c0: f, c1: z, c2: z }
    }
}

impl vstd::std_specs::convert::FromSpecImpl<Fp2> for Fp6 {
    open spec fn obeys_from_spec() -> bool {
        true
    }

    open spec fn from_spec(f: Fp2) -> Fp6 {
        Fp6::spec_embed2(f)
    }
}

impl From<Fp> for Fp6 {
    /// Embeds a base-field element as the constant coefficient.
    fn from(f: Fp) -> (r: Fp6)
        ensures
            r == Fp6::spec_embed(f),
    {
        let z = Fp2 { c0: Fp { limbs: [0, 0, 0, 0, 0, 0] }, c1: Fp { limbs: [0, 0, 0, 0, 0, 0] } };
        Fp6 { c0: Fp2 { c0: f, c1: Fp { limbs: [0, 0, 0, 0, 0, 0] } }, c1: z, c2: z }
    }
}

impl vstd::std_specs::convert::FromSpecImpl<Fp> for Fp6 {
    open spec fn obeys_from_spec() -> bool {
        true
    }

    open spec fn from_spec(f: Fp) -> Fp6 {
        Fp6::spec_embed(f)
    }
}

impl Fp6 {
    /// The embedding of a quadratic-field element, in specifications.
    pub open spec fn spec_embed2(f: Fp2) -> Fp6 {
        Fp6 {
            c0: f,
            c1: Fp2 { c0: Fp { limbs: [0, 0, 0, 0, 0, 0] }, c1: Fp { limbs: [0, 0, 0, 0, 0, 0] } },
            c2: Fp2 { c0: Fp { limbs: [0, 0, 0, 0, 0, 0] }, c1: Fp { limbs: [0, 0, 0, 0, 0, 0] } },
        }
    }

    /// The embedding of a base-field element, in specifications.
    pub open spec fn spec_embed(f: Fp) -> Fp6 {
        Fp6::spec_embed2(Fp2 { c0: f, c1: Fp { limbs: [0, 0, 0, 0, 0, 0] } })
    }
}

} // verus!
