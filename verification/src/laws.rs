//! Field laws of the cubic extension, stated over the integer model and
//! proved once and for all.

use vstd::prelude::*;
use crate::fp2::{Fp2Val, fp2_conj, fp2_mul, fp2_one, lemma_fp2_conj_conj, lemma_fp2_conj_mul,
    lemma_fp2_mul_assoc, lemma_fp2_mul_one, lemma_red2};
use crate::fp6::{Fp6Val, fp6_add, fp6_frob, fp6_mul, fp6_okv, fp6_one, frob_c1, frob_c2,
    lemma_fp6_mul_comm, lemma_fp6_mul_dist, lemma_fp6_mul_assoc, lemma_fp6_mul_ok,
    lemma_fp6_mul_one};

verus! {

/// Distributivity through a square: for canonical `a`, `b`, `c`,
/// `(a + b) * c^2 == c^2 * a + c^2 * b`.
pub proof fn lemma_distributive(a: Fp6Val, b: Fp6Val, c: Fp6Val)
    requires
        fp6_okv(a),
        fp6_okv(b),
        fp6_okv(c),
    ensures
        fp6_mul(fp6_add(a, b), fp6_mul(c, c)) == fp6_add(
            fp6_mul(fp6_mul(c, c), a),
            fp6_mul(fp6_mul(c, c), b),
        ),
{
    let s = fp6_mul(c, c);
    lemma_fp6_mul_ok(c, c);
    lemma_fp6_mul_dist(a, b, s);
    lemma_fp6_mul_comm(a, s);
    lemma_fp6_mul_comm(b, s);
}

/// Inverses compose: whenever `ia`, `ib` and `iab` invert `a`, `b` and
/// `a * b`, the product of the two single inverses is the inverse of the
/// product.
pub proof fn lemma_inverse_product(a: Fp6Val, b: Fp6Val, ia: Fp6Val, ib: Fp6Val, iab: Fp6Val)
    requires
        fp6_okv(a),
        fp6_okv(b),
        fp6_okv(ia),
        fp6_okv(ib),
        fp6_okv(iab),
        fp6_mul(ia, a) == fp6_one(),
        fp6_mul(ib, b) == fp6_one(),
        fp6_mul(iab, fp6_mul(a, b)) == fp6_one(),
    ensures
        fp6_mul(ia, ib) == iab,
{
    let ab = fp6_mul(a, b);
    let x = fp6_mul(ia, ib);
    lemma_fp6_mul_ok(a, b);
    lemma_fp6_mul_ok(ia, ib);
    // x * ab == one
    lemma_fp6_mul_assoc(x, a, b);
    lemma_fp6_mul_assoc(ia, ib, a);
    lemma_fp6_mul_comm(ib, a);
    lemma_fp6_mul_assoc(ia, a, ib);
    lemma_fp6_mul_comm(fp6_one(), ib);
    lemma_fp6_mul_one(ib);
    assert(fp6_mul(x, a) == ib);
    assert(fp6_mul(x, ab) == fp6_mul(ib, b));
    // x == iab by uniqueness of the inverse of ab
    lemma_fp6_mul_ok(x, ab);
    lemma_fp6_mul_assoc(x, ab, iab);
    lemma_fp6_mul_comm(ab, iab);
    lemma_fp6_mul_assoc(x, iab, ab);
    lemma_fp6_mul_comm(fp6_one(), iab);
    lemma_fp6_mul_one(iab);
    lemma_fp6_mul_one(x);
    lemma_fp6_mul_comm(x, fp6_one());
    assert(fp6_mul(fp6_mul(x, ab), iab) == fp6_mul(x, fp6_mul(iab, ab)));
    assert(fp6_mul(fp6_one(), iab) == iab);
    assert(fp6_mul(x, fp6_one()) == x);
}

/// The constant `omega = ((1+u)^((p-1)/3))^(p+1)`, a primitive cube root of
/// unity in the base field; it is the two-step Frobenius multiplier of the
/// `c1` slot.
pub open spec fn frob_l1() -> Fp2Val {
    Fp2Val {
        c0: (((((0x0 as int) * 0x10000000000000000 + 0x5f19672fdf76ce51)
            * 0x10000000000000000 + 0xba69c6076a0f77ea)
            * 0x10000000000000000 + 0xddb3a93be6f89688)
            * 0x10000000000000000 + 0xde17d813620a0002)
            * 0x10000000000000000 + 0x2e01fffffffefffe,
        c1: 0,
    }
}

/// The two-step Frobenius multiplier of the `c2` slot, `omega^2`.
pub open spec fn frob_l2() -> Fp2Val {
    Fp2Val {
        c0: (((((0x1a0111ea397fe699 as int) * 0x10000000000000000 + 0xec02408663d4de85)
            * 0x10000000000000000 + 0xaa0d857d89759ad4)
            * 0x10000000000000000 + 0x897d29650fb85f9b)
            * 0x10000000000000000 + 0x409427eb4f49fffd)
            * 0x10000000000000000 + 0x8bfd00000000aaac,
        c1: 0,
    }
}

/// Two Frobenius applications only scale the `c1` and `c2` slots by the
/// fixed cube roots of unity.
pub proof fn lemma_frob_twice(a: Fp6Val)
    requires
        fp6_okv(a),
    ensures
        fp6_frob(fp6_frob(a)) == (Fp6Val {
            c0: a.c0,
            c1: fp2_mul(a.c1, frob_l1()),
            c2: fp2_mul(a.c2, frob_l2()),
        }),
{
    lemma_fp2_conj_conj(a.c0);
    lemma_fp2_conj_conj(a.c1);
    lemma_fp2_conj_conj(a.c2);
    lemma_red2(fp2_mul(fp2_conj(a.c1), frob_c1()));
    lemma_red2(fp2_mul(fp2_conj(a.c2), frob_c2()));
    lemma_red2(fp2_conj(a.c1));
    lemma_red2(fp2_conj(a.c2));
    lemma_fp2_conj_mul(fp2_conj(a.c1), frob_c1());
    lemma_fp2_conj_mul(fp2_conj(a.c2), frob_c2());
    lemma_fp2_mul_assoc(a.c1, fp2_conj(frob_c1()), frob_c1());
    lemma_fp2_mul_assoc(a.c2, fp2_conj(frob_c2()), frob_c2());
    assert(fp2_mul(fp2_conj(frob_c1()), frob_c1()).c0 == frob_l1().c0
        && fp2_mul(fp2_conj(frob_c1()), frob_c1()).c1 == frob_l1().c1) by (nonlinear_arith);
    assert(fp2_mul(fp2_conj(frob_c1()), frob_c1()) =~= frob_l1());
    assert(fp2_mul(fp2_conj(frob_c2()), frob_c2()).c0 == frob_l2().c0
        && fp2_mul(fp2_conj(frob_c2()), frob_c2()).c1 == frob_l2().c1) by (nonlinear_arith);
    assert(fp2_mul(fp2_conj(frob_c2()), frob_c2()) =~= frob_l2());
    assert(fp6_frob(fp6_frob(a)) =~= (Fp6Val {
        c0: a.c0,
        c1: fp2_mul(a.c1, frob_l1()),
        c2: fp2_mul(a.c2, frob_l2()),
    }));
}

/// The Frobenius endomorphism has order dividing 6: six applications return
/// any canonical element unchanged.
pub proof fn lemma_frobenius_order_six(a: Fp6Val)
    requires
        fp6_okv(a),
    ensures
        fp6_frob(fp6_frob(fp6_frob(fp6_frob(fp6_frob(fp6_frob(a)))))) == a,
{
    let a2 = fp6_frob(fp6_frob(a));
    let a4 = fp6_frob(fp6_frob(a2));
    lemma_frob_twice(a);
    lemma_red2(fp2_mul(a.c1, frob_l1()));
    lemma_red2(fp2_mul(a.c2, frob_l2()));
    assert(fp6_okv(a2));
    lemma_frob_twice(a2);
    lemma_red2(fp2_mul(a2.c1, frob_l1()));
    lemma_red2(fp2_mul(a2.c2, frob_l2()));
    assert(fp6_okv(a4));
    lemma_frob_twice(a4);
    // reassociate the three scalings into one cube
    lemma_fp2_mul_assoc(a.c1, frob_l1(), frob_l1());
    lemma_fp2_mul_assoc(a.c1, fp2_mul(frob_l1(), frob_l1()), frob_l1());
    lemma_fp2_mul_assoc(a.c2, frob_l2(), frob_l2());
    lemma_fp2_mul_assoc(a.c2, fp2_mul(frob_l2(), frob_l2()), frob_l2());
    // the multipliers are cube roots of unity
    assert(fp2_mul(fp2_mul(frob_l1(), frob_l1()), frob_l1()).c0 == 1
        && fp2_mul(fp2_mul(frob_l1(), frob_l1()), frob_l1()).c1 == 0) by (nonlinear_arith);
    assert(fp2_mul(fp2_mul(frob_l1(), frob_l1()), frob_l1()) =~= fp2_one());
    assert(fp2_mul(fp2_mul(frob_l2(), frob_l2()), frob_l2()).c0 == 1
        && fp2_mul(fp2_mul(frob_l2(), frob_l2()), frob_l2()).c1 == 0) by (nonlinear_arith);
    assert(fp2_mul(fp2_mul(frob_l2(), frob_l2()), frob_l2()) =~= fp2_one());
    lemma_fp2_mul_one(a.c1);
    lemma_fp2_mul_one(a.c2);
    assert(fp6_frob(fp6_frob(a4)) =~= a);
}

} // verus!
