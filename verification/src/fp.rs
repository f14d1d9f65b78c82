//! Elements of the base prime field, held as six 64-bit limbs in canonical
//! (fully reduced) little-endian form.
//!
//! The base field itself is an external collaborator: its modular arithmetic
//! is consumed through the quadratic-extension wrappers in `fp2`. This module
//! defines the representation, the constant-time limb comparisons, and the
//! conversion from raw Montgomery-form limbs.

use vstd::prelude::*;
use crate::modp::{fp_ok, mm, prime};
use crate::ct::{ct_eq_u64, ct_lt_u64, ct_select_u64, Choice};

verus! {

/// The integer denoted by six little-endian 64-bit limbs.
pub open spec fn fp_val(s: Seq<u64>) -> int {
    s[0] + 0x10000000000000000 * (
        s[1] + 0x10000000000000000 * (
            s[2] + 0x10000000000000000 * (
                s[3] + 0x10000000000000000 * (
                    s[4] + 0x10000000000000000 * s[5]))))
}

/// The Montgomery radix `2^384` used by the raw-limb constructor.
pub open spec fn r_mont() -> int {
    0x10000000000000000 as int * 0x10000000000000000 * 0x10000000000000000
        * 0x10000000000000000 * 0x10000000000000000 * 0x10000000000000000
}

/// The threshold `(prime() - 1) / 2` of the lexicographic-largest predicate.
pub open spec fn half() -> int {
    (prime() - 1) / 2
}

/// A base-field element; `limbs` denote the canonical integer `fp_val`.
#[derive(Clone, Copy, Debug, PartialEq, Eq)]
pub struct Fp {
    pub limbs: [u64; 6],
}

impl View for Fp {
    type V = int;

    open spec fn view(&self) -> int {
        fp_val(self.limbs@)
    }
}

/// Two limb vectors of length 6 denote the same integer only if they are
/// identical.
pub proof fn lemma_fp_val_injective(s: Seq<u64>, t: Seq<u64>)
    requires
        s.len() == 6,
        t.len() == 6,
        fp_val(s) == fp_val(t),
    ensures
        s == t,
{
    assert(s[0] == t[0] && s[1] == t[1] && s[2] == t[2] && s[3] == t[3] && s[4] == t[4]
        && s[5] == t[5]);
    assert(s =~= t);
}

impl Fp {
    /// Canonical-form invariant: the denoted integer is a reduced residue.
    pub open spec fn ok(&self) -> bool {
        fp_ok(self@)
    }

    /// Interprets raw limbs as a Montgomery-form residue, as the reference
    /// encoding of curve constants does: the element constructed denotes
    /// `fp_val(limbs) * 2^-384 mod prime()`.
    ///
    /// Relies on ark-ff's Montgomery backend for the BLS12-381 base field:
    /// `Fq::new_unchecked(m)` wraps `m` as the Montgomery residue denoting
    /// `m * 2^-384 mod p`, and `into_bigint` returns that element's
    /// canonical integer, fully reduced.
    #[verifier::external_body]
    pub fn from_raw_unchecked(limbs: [u64; 6]) -> (r: Fp)
        requires
            fp_ok(fp_val(limbs@)),
        ensures
            r.ok(),
            mm(r@ * r_mont()) == fp_val(limbs@),
    {
        let e = ark_ff::PrimeField::into_bigint(
            ark_bls12_381::Fq::new_unchecked(ark_ff::BigInt::new(limbs)),
        );
        Fp { limbs: e.0 }
    }

    /// Constant-time equality of the denoted integers.
    pub fn ct_eq(&self, other: &Fp) -> (r: Choice)
        ensures
            r.ok(),
            r@ == (self@ == other@),
    {
        let r = Choice::new(ct_eq_u64(self.limbs[0], other.limbs[0]))
            .and(&Choice::new(ct_eq_u64(self.limbs[1], other.limbs[1])))
            .and(&Choice::new(ct_eq_u64(self.limbs[2], other.limbs[2])))
            .and(&Choice::new(ct_eq_u64(self.limbs[3], other.limbs[3])))
            .and(&Choice::new(ct_eq_u64(self.limbs[4], other.limbs[4])))
            .and(&Choice::new(ct_eq_u64(self.limbs[5], other.limbs[5])));
        proof {
            if self@ == other@ {
                lemma_fp_val_injective(self.limbs@, other.limbs@);
            }
            if r@ {
                assert(self.limbs@ =~= other.limbs@);
            }
        }
        r
    }

    /// Constant-time comparison of the denoted integers.
    pub fn ct_lt(&self, other: &Fp) -> (r: Choice)
        ensures
            r.ok(),
            r@ == (self@ < other@),
    {
        let a = &self.limbs;
        let b = &other.limbs;
        let lt5 = Choice::new(ct_lt_u64(a[5], b[5]));
        let eq5 = Choice::new(ct_eq_u64(a[5], b[5]));
        let lt4 = lt5.or(&eq5.and(&Choice::new(ct_lt_u64(a[4], b[4]))));
        let eq4 = eq5.and(&Choice::new(ct_eq_u64(a[4], b[4])));
        let lt3 = lt4.or(&eq4.and(&Choice::new(ct_lt_u64(a[3], b[3]))));
        let eq3 = eq4.and(&Choice::new(ct_eq_u64(a[3], b[3])));
        let lt2 = lt3.or(&eq3.and(&Choice::new(ct_lt_u64(a[2], b[2]))));
        let eq2 = eq3.and(&Choice::new(ct_eq_u64(a[2], b[2])));
        let lt1 = lt2.or(&eq2.and(&Choice::new(ct_lt_u64(a[1], b[1]))));
        let eq1 = eq2.and(&Choice::new(ct_eq_u64(a[1], b[1])));
        let lt0 = lt1.or(&eq1.and(&Choice::new(ct_lt_u64(a[0], b[0]))));
        lt0
    }

    /// Constant-time selection: `b` when `bit` is 1, else `a`.
    pub fn select(a: &Fp, b: &Fp, bit: u8) -> (r: Fp)
        requires
            bit <= 1,
        ensures
            r@ == (if bit == 1 { b@ } else { a@ }),
    {
        let l0 = ct_select_u64(a.limbs[0], b.limbs[0], bit);
        let l1 = ct_select_u64(a.limbs[1], b.limbs[1], bit);
        let l2 = ct_select_u64(a.limbs[2], b.limbs[2], bit);
        let l3 = ct_select_u64(a.limbs[3], b.limbs[3], bit);
        let l4 = ct_select_u64(a.limbs[4], b.limbs[4], bit);
        let l5 = ct_select_u64(a.limbs[5], b.limbs[5], bit);
        let r = Fp { limbs: [l0, l1, l2, l3, l4, l5] };
        proof {
            if bit == 1 {
                assert(r.limbs@ =~= b.limbs@);
            } else {
                assert(r.limbs@ =~= a.limbs@);
            }
        }
        r
    }

    /// Whether the denoted integer exceeds `(prime() - 1) / 2`, in constant
    /// time; used by the lexicographic-largest predicate.
    pub fn gt_half(&self) -> (r: Choice)
        ensures
            r.ok(),
            r@ == (self@ > half()),
    {
        let h = Fp {
            limbs: [
                0xdcff7fffffffd555,
                0x0f55ffff58a9ffff,
                0xb39869507b587b12,
                0xb23ba5c279c2895f,
                0x258dd3db21a5d66b,
                0x0d0088f51cbff34d,
            ],
        };
        proof {
            assert(h@ == half());
        }
        h.ct_lt(self)
    }
}

} // verus!
