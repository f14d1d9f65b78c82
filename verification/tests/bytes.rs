//! Canonical serialization: round trip and rejection of non-canonical
//! encodings.

use cubic_ext::fp::Fp;
use cubic_ext::fp2::Fp2;
use cubic_ext::fp6::Fp6;

fn sample() -> Fp6 {
    Fp6 {
        c0: Fp2 {
            c0: Fp::from_raw_unchecked([0x47f9cb98b1b82d58, 0x5fe911eba3aa1d9d, 0x96bf1b5f4dd81db3, 0x8100d27cc9259f5b, 0xafa20b9674640eab, 0x09bbcea7d8d9497d]),
            c1: Fp::from_raw_unchecked([0x0303cb98b1662daa, 0xd93110aa0a621d5a, 0xbfa9820c5be4a468, 0x0ba3643ecb05a348, 0xdc3534bb1f1c25a6, 0x06c305bb19c0e1c1]),
        },
        c1: Fp2 {
            c0: Fp::from_raw_unchecked([0x46f9cb98b162d858, 0x0be9109cf7aa1d57, 0xc791bc55fece41d2, 0xf84c57704e385ec2, 0xcb49c1d9c010e60f, 0x0acdb8e158bfe3c8]),
            c1: Fp::from_raw_unchecked([0x8aefcb98b15f8306, 0x3ea1108fe4f21d54, 0xcf79f69fa1b7df3b, 0xe4f54aa1d16b1a3c, 0xba5e4ef86105a679, 0x0ed86c0797bee5cf]),
        },
        c2: Fp2 {
            c0: Fp::from_raw_unchecked([0xcee5cb98b15c2db4, 0x71591082d23a1d51, 0xd76230e944a17ca4, 0xd19e3dd3549dd5b6, 0xa972dc1701fa66e3, 0x12e31f2dd6bde7d6]),
            c1: Fp::from_raw_unchecked([0xad2acb98b1732d9d, 0x2cfd10dd06961d64, 0x07396b86c6ef24e8, 0xbd76e2fdb1bfc820, 0x6afea7f6de94d0d5, 0x10994b0c5744c040]),
        },
    }
}

#[test]
fn test_bytes_round_trip() {
    let a = sample();
    let enc = a.to_bytes();
    assert_eq!(enc.len(), 288);
    let dec = Fp6::from_bytes_unchecked(&enc);
    assert!(dec.is_some().as_bool());
    assert_eq!(dec.unwrap(), a);

    let one = Fp6::one();
    let dec = Fp6::from_bytes_unchecked(&one.to_bytes());
    assert!(dec.is_some().as_bool());
    assert_eq!(dec.unwrap(), one);
}

#[test]
fn test_bytes_zero_is_canonical() {
    let dec = Fp6::from_bytes_unchecked(&[0u8; 288]);
    assert!(dec.is_some().as_bool());
    assert_eq!(dec.unwrap(), Fp6::zero());
}

#[test]
fn test_bytes_reject_non_canonical() {
    // every window is far above the modulus
    let dec = Fp6::from_bytes_unchecked(&[0xffu8; 288]);
    assert!(dec.is_none().as_bool());

    // a single non-canonical window poisons the whole decoding
    let a = sample();
    let mut enc = a.to_bytes();
    for i in 0..48 {
        enc[96 + i] = 0xff;
    }
    assert!(Fp6::from_bytes_unchecked(&enc).is_none().as_bool());

    // the modulus itself, as a window value, is already non-canonical
    let mut enc = Fp6::zero().to_bytes();
    let p_be: [u8; 48] = [
        0x1a, 0x01, 0x11, 0xea, 0x39, 0x7f, 0xe6, 0x9a, 0x4b, 0x1b, 0xa7, 0xb6, 0x43, 0x4b, 0xac, 0xd7, 0x64, 0x77, 0x4b, 0x84, 0xf3, 0x85, 0x12, 0xbf, 0x67, 0x30, 0xd2, 0xa0, 0xf6, 0xb0, 0xf6, 0x24, 0x1e, 0xab, 0xff, 0xfe, 0xb1, 0x53, 0xff, 0xff, 0xb9, 0xfe, 0xff, 0xff, 0xff, 0xff, 0xaa, 0xab,
    ];
    for i in 0..48 {
        enc[240 + i] = p_be[i];
    }
    assert!(Fp6::from_bytes_unchecked(&enc).is_none().as_bool());
}
