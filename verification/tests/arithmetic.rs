//! The field arithmetic laws on concrete elements.

use cubic_ext::fp::Fp;
use cubic_ext::fp2::Fp2;
use cubic_ext::fp6::Fp6;

fn el_a() -> Fp6 {
    Fp6 {
        c0: Fp2 {
            c0: Fp::from_raw_unchecked([0x47f9cb98b1b82d58, 0x5fe911eba3aa1d9d, 0x96bf1b5f4dd81db3, 0x8100d27cc9259f5b, 0xafa20b9674640eab, 0x09bbcea7d8d9497d]),
            c1: Fp::from_raw_unchecked([0x0303cb98b1662daa, 0xd93110aa0a621d5a, 0xbfa9820c5be4a468, 0x0ba3643ecb05a348, 0xdc3534bb1f1c25a6, 0x06c305bb19c0e1c1]),
        },
        c1: Fp2 {
            c0: Fp::from_raw_unchecked([0x46f9cb98b162d858, 0x0be9109cf7aa1d57, 0xc791bc55fece41d2, 0xf84c57704e385ec2, 0xcb49c1d9c010e60f, 0x0acdb8e158bfe3c8]),
            c1: Fp::from_raw_unchecked([0x8aefcb98b15f8306, 0x3ea1108fe4f21d54, 0xcf79f69fa1b7df3b, 0xe4f54aa1d16b1a3c, 0xba5e4ef86105a679, 0x0ed86c0797bee5cf]),
        },
        c2: Fp2 {
            c0: Fp::from_raw_unchecked([0xcee5cb98b15c2db4, 0x71591082d23a1d51, 0xd76230e944a17ca4, 0xd19e3dd3549dd5b6, 0xa972dc1701fa66e3, 0x12e31f2dd6bde7d6]),
            c1: Fp::from_raw_unchecked([0xad2acb98b1732d9d, 0x2cfd10dd06961d64, 0x07396b86c6ef24e8, 0xbd76e2fdb1bfc820, 0x6afea7f6de94d0d5, 0x10994b0c5744c040]),
        },
    }
}

fn el_b() -> Fp6 {
    Fp6 {
        c0: Fp2 {
            c0: Fp::from_raw_unchecked([0xf120cb98b16fd84b, 0x5fb510cff3de1d61, 0x0f21a5d069d8c251, 0xaa1fd62f34f2839a, 0x5a1335157f89913f, 0x14a3fe329643c247]),
            c1: Fp::from_raw_unchecked([0x3516cb98b16c82f9, 0x926d10c2e1261d5f, 0x1709e01a0cc25fba, 0x96c8c960b8253f14, 0x4927c234207e51a9, 0x18aeb158d542c44e]),
        },
        c1: Fp2 {
            c0: Fp::from_raw_unchecked([0xbf0dcb98b16982fc, 0xa67910b71d1a1d5c, 0xb7c147c2b8fb06ff, 0x1efa710d47d2e7ce, 0xed20a79c7e27653c, 0x02b85294dac1dfba]),
            c1: Fp::from_raw_unchecked([0x9d52cb98b18082e5, 0x621d111151761d6f, 0xe79882603b48af43, 0x0ad31637a4f4da37, 0xaeac737c5ac1cf2e, 0x006e7e735b48b824]),
        },
        c2: Fp2 {
            c0: Fp::from_raw_unchecked([0xe148cb98b17d2d93, 0x94d511043ebe1d6c, 0xef80bca9de324cac, 0xf77c0969282795b1, 0x9dc1009afbb68f97, 0x047931999a47ba2b]),
            c1: Fp::from_raw_unchecked([0x253ecb98b179d841, 0xc78d10f72c061d6a, 0xf768f6f3811bea15, 0xe424fc9aab5a512b, 0x8cd58db99cab5001, 0x0883e4bfd946bc32]),
        },
    }
}

fn el_c() -> Fp6 {
    Fp6 {
        c0: Fp2 {
            c0: Fp::from_raw_unchecked([0x6934cb98b17682ef, 0xfa4510ea194e1d67, 0xff51313d2405877e, 0xd0cdefcc2e8d0ca5, 0x7bea1ad83da0106b, 0x0c8e97e61845be39]),
            c1: Fp::from_raw_unchecked([0x4779cb98b18d82d8, 0xb5e911444daa1d7a, 0x2f286bdaa6532fc2, 0xbca694f68baeff0f, 0x3d75e6b81a3a7a5d, 0x0a44c3c498cc96a3]),
        },
        c1: Fp2 {
            c0: Fp::from_raw_unchecked([0x8b6fcb98b18a2d86, 0xe8a111373af21d77, 0x3710a624493ccd2b, 0xa94f88280ee1ba89, 0x2c8a73d6bb2f3ac7, 0x0e4f76ead7cb98aa]),
            c1: Fp::from_raw_unchecked([0xcf65cb98b186d834, 0x1b59112a283a1d74, 0x3ef8e06dec266a95, 0x95f87b5992147603, 0x1b9f00f55c23fb31, 0x125a2a1116ca9ab1]),
        },
        c2: Fp2 {
            c0: Fp::from_raw_unchecked([0x135bcb98b18382e2, 0x4e11111d15821d72, 0x46e11ab78f1007fe, 0x82a16e8b1547317d, 0x0ab38e13fd18bb9b, 0x1664dd3755c99cb8]),
            c1: Fp::from_raw_unchecked([0xce65cb98b1318334, 0xc7590fdb7c3a1d2e, 0x6fcb81649d1c8eb3, 0x0d44004d1727356a, 0x3746b738a7d0d296, 0x136c144a96b134fc]),
        },
    }
}

#[test]
fn test_arithmetic() {
    let a = el_a();
    let b = el_b();
    let c = el_c();

    assert_eq!(a.square(), a.mul(&a));
    assert_eq!(b.square(), b.mul(&b));
    assert_eq!(c.square(), c.mul(&c));

    assert_eq!(
        a.add(&b).mul(&c.square()),
        c.mul(&c).mul(&a).add(&c.mul(&c).mul(&b))
    );

    assert_eq!(
        a.invert().unwrap().mul(&b.invert().unwrap()),
        a.mul(&b).invert().unwrap()
    );
    assert_eq!(a.invert().unwrap().mul(&a), Fp6::one());
}

#[test]
fn test_zeroize() {
    let mut a = Fp6::one();
    a.zeroize();
    assert!(a.is_zero().as_bool());
}

#[test]
fn test_zero_has_no_inverse() {
    assert!(Fp6::zero().invert().is_none().as_bool());
    assert!(Fp6::one().invert().is_some().as_bool());
    assert_eq!(Fp6::one().invert().unwrap(), Fp6::one());
}

#[test]
fn test_sparse_multiplication_matches_general() {
    let a = el_a();
    let b = el_b();
    let zero2 = Fp2 { c0: Fp::from_raw_unchecked([0; 6]), c1: Fp::from_raw_unchecked([0; 6]) };
    let sparse1 = Fp6 { c0: zero2, c1: b.c1, c2: zero2 };
    assert_eq!(a.mul_by_1(&b.c1), a.mul(&sparse1));
    let sparse01 = Fp6 { c0: b.c0, c1: b.c1, c2: zero2 };
    assert_eq!(a.mul_by_01(&b.c0, &b.c1), a.mul(&sparse01));
}

#[test]
fn test_mul_by_nonresidue_is_mul_by_v() {
    let a = el_a();
    let zero2 = Fp2 { c0: Fp::from_raw_unchecked([0; 6]), c1: Fp::from_raw_unchecked([0; 6]) };
    let one2 = Fp2 { c0: Fp::from_raw_unchecked([0x760900000002fffd, 0xebf4000bc40c0002, 0x5f48985753c758ba, 0x77ce585370525745, 0x5c071a97a256ec6d, 0x15f65ec3fa80e493]), c1: Fp::from_raw_unchecked([0; 6]) };
    let v = Fp6 { c0: zero2, c1: one2, c2: zero2 };
    assert_eq!(a.mul_by_nonresidue(), a.mul(&v));
}

#[test]
fn test_frobenius_order_six() {
    let a = el_a();
    let mut x = a;
    for _ in 0..6 {
        x = x.frobenius_map();
    }
    assert_eq!(x, a);
}

#[test]
fn test_pow_vartime_small_exponents() {
    let a = el_a();
    assert_eq!(a.pow_vartime(&[0]), Fp6::one());
    assert_eq!(a.pow_vartime(&[1]), a);
    assert_eq!(a.pow_vartime(&[2]), a.square());
    assert_eq!(a.pow_vartime(&[5]), a.square().square().mul(&a));
    // a big-endian two-limb exponent: a^(2^64) followed by one more squaring
    assert_eq!(a.pow_vartime(&[1, 0]).square(), a.pow_vartime(&[2, 0]));
}

#[test]
fn test_raw_montgomery_form_of_one() {
    // The raw Montgomery encoding of 1 is 2^384 mod p.
    let one = Fp::from_raw_unchecked([0x760900000002fffd, 0xebf4000bc40c0002, 0x5f48985753c758ba, 0x77ce585370525745, 0x5c071a97a256ec6d, 0x15f65ec3fa80e493]);
    let zero = Fp::from_raw_unchecked([0; 6]);
    let e = Fp6 {
        c0: Fp2 { c0: one, c1: zero },
        c1: Fp2 { c0: zero, c1: zero },
        c2: Fp2 { c0: zero, c1: zero },
    };
    assert_eq!(e, Fp6::one());
}

#[test]
fn test_conditional_selection() {
    let a = el_a();
    let b = el_b();
    let yes = a.ct_eq(&a);
    let no = a.ct_eq(&b);
    assert!(yes.as_bool());
    assert!(!no.as_bool());
    assert_eq!(Fp6::conditional_select(&a, &b, &yes), b);
    assert_eq!(Fp6::conditional_select(&a, &b, &no), a);
}

#[test]
fn test_lexicographic_largest_of_negation_pair() {
    let a = el_a();
    let l1 = a.lexicographically_largest().as_bool();
    let l2 = a.neg().lexicographically_largest().as_bool();
    assert!(l1 != l2);
}
