//! The square-root algorithm on concrete residues and non-residues.

use cubic_ext::fp::Fp;
use cubic_ext::fp2::Fp2;
use cubic_ext::fp6::Fp6;

#[test]
fn test_sqrt() {
    let a = Fp6 {
        c0: Fp2 {
            c0: Fp::from_raw_unchecked([0x615eaaf7e0049a1b, 0x7db3249009df9588, 0x5d9254c0f7ae87f1, 0x14fee19cbfc1faca, 0x3017e7271c83b32b, 0x0bdc34aaf515eb44]),
            c1: Fp::from_raw_unchecked([0x27e6b317a77e12d0, 0x341b70fc95934deb, 0x26bd37e4251442ab, 0x8c7bf72e39756512, 0x1d2a1377ffc35dd4, 0x0735f5a52f945f95]),
        },
        c1: Fp2 {
            c0: Fp::from_raw_unchecked([0x2b5775a7a21ba5ba, 0x8b5c1025c7098c9f, 0x4d29b1556a548261, 0x7a045cbceb12c9f0, 0x2324654df63d1675, 0x1113123138f58432]),
            c1: Fp::from_raw_unchecked([0x3f4d0c00005dc31b, 0x0ed1d44e80072a5b, 0xfdeda4845c7115ed, 0x6b8d8cd2f54986dd, 0xa3de763c81254081, 0x1030efee1d581ee4]),
        },
        c2: Fp2 {
            c0: Fp::from_raw_unchecked([0xf376d245bed59044, 0x335afd18409563ee, 0xd1ee1e7d2cfba1b4, 0x17086c56016a6b2b, 0x30c195f0664865a9, 0x05bc0c3bef4e9565]),
            c1: Fp::from_raw_unchecked([0x29241b89771406dd, 0x3b269017c337a140, 0xcf0c50cfdf0fb818, 0xf1a56e35e67614bd, 0x373427c6e475ec5e, 0x10ab1bd5fbed215d]),
        },
    };

    assert!(a.sqrt().is_none().as_bool());

    let b = Fp6 {
        c0: Fp2 {
            c0: Fp::from_raw_unchecked([0x760900000002fffd, 0xebf4000bc40c0002, 0x5f48985753c758ba, 0x77ce585370525745, 0x5c071a97a256ec6d, 0x15f65ec3fa80e493]),
            c1: Fp::from_raw_unchecked([0x321300000006554f, 0xb93c0018d6c40005, 0x57605e0db0ddbb51, 0x8b256521ed1f9bcb, 0x6cf28d7901622c03, 0x11ebab9dbb81e28c]),
        },
        c1: Fp2 {
            c0: Fp::from_raw_unchecked([0xee1d00000009aaa1, 0x86840025e97c0007, 0x4f7823c40df41de8, 0x9e7c71f069ece051, 0x7dde005a606d6b99, 0x0de0f8777c82e085]),
            c1: Fp::from_raw_unchecked([0xaa270000000cfff3, 0x53cc0032fc34000a, 0x478fe97a6b0a807f, 0xb1d37ebee6ba24d7, 0x8ec9733bbf78ab2f, 0x09d645513d83de7e]),
        },
        c2: Fp2 {
            c0: Fp::from_raw_unchecked([0x6631000000105545, 0x211400400eec000d, 0x3fa7af30c820e316, 0xc52a8b8d6387695d, 0x9fb4e61d1e83eac5, 0x05cb922afe84dc77]),
            c1: Fp::from_raw_unchecked([0x223b00000013aa97, 0xee5c004d21a40010, 0x37bf74e7253745ac, 0xd881985be054ade3, 0xb0a058fe7d8f2a5b, 0x01c0df04bf85da70]),
        },
    };
    let b_sqrt = Fp6 {
        c0: Fp2 {
            c0: Fp::from_raw_unchecked([0xdacab8ec196d0e90, 0x87e85ab6ea88b979, 0x3dfe939a4a365ef1, 0x78d2523061125499, 0x06fc4397c4dc7b39, 0x178d99f425a98078]),
            c1: Fp::from_raw_unchecked([0x5f61615b4b6b9955, 0xfa5b876c8ea831b5, 0x3fd6d7cd22e2fb76, 0x2d55c9a9feef3d0a, 0x7adfaf601698839c, 0x0d2971c3c245dbdb]),
        },
        c1: Fp2 {
            c0: Fp::from_raw_unchecked([0xd1857aba9d3a5ad2, 0xaa0fcc118b33fd83, 0xdddf06c2cd76474b, 0xf2ba6fae3c211902, 0x81b879d941bf01e8, 0x16efa6ec5c6ebf43]),
            c1: Fp::from_raw_unchecked([0x6b7a79f9320e4b80, 0xf0d55c31e63117d6, 0x9f0c4f9fbb78699e, 0xffc9af394b9b8049, 0x0b76d97ef754a5ad, 0x0b5172e8b69f5596]),
        },
        c2: Fp2 {
            c0: Fp::from_raw_unchecked([0xf140b9d2f1e99c5e, 0xc78982e4ca301b97, 0x98f3a4b656f50198, 0xaa310cb32c652865, 0xcbee9785769731bb, 0x16f81c9ea55bde91]),
            c1: Fp::from_raw_unchecked([0x83304d5cf6ddb3d0, 0x3bc1eac936b91f3f, 0x26009dc8b2afd880, 0x3d88fa5fd4a3a1a7, 0x524af7c39e6b675d, 0x1460fef116f3d046]),
        },
    };

    assert_eq!(b_sqrt.mul(&b_sqrt), b);
    assert_eq!(b.sqrt().unwrap().square(), b);
    assert_eq!(b.sqrt().unwrap(), b_sqrt);

    let c = Fp6 {
        c0: Fp2 {
            c0: Fp::from_raw_unchecked([0xaa270000000cfff3, 0x53cc0032fc34000a, 0x478fe97a6b0a807f, 0xb1d37ebee6ba24d7, 0x8ec9733bbf78ab2f, 0x09d645513d83de7e]),
            c1: Fp::from_raw_unchecked([0x321300000006554f, 0xb93c0018d6c40005, 0x57605e0db0ddbb51, 0x8b256521ed1f9bcb, 0x6cf28d7901622c03, 0x11ebab9dbb81e28c]),
        },
        c1: Fp2 {
            c0: Fp::from_raw_unchecked([0xee1d00000009aaa1, 0x86840025e97c0007, 0x4f7823c40df41de8, 0x9e7c71f069ece051, 0x7dde005a606d6b99, 0x0de0f8777c82e085]),
            c1: Fp::from_raw_unchecked([0xaa270000000cfff3, 0x53cc0032fc34000a, 0x478fe97a6b0a807f, 0xb1d37ebee6ba24d7, 0x8ec9733bbf78ab2f, 0x09d645513d83de7e]),
        },
        c2: Fp2 {
            c0: Fp::from_raw_unchecked([0x6631000000105545, 0x211400400eec000d, 0x3fa7af30c820e316, 0xc52a8b8d6387695d, 0x9fb4e61d1e83eac5, 0x05cb922afe84dc77]),
            c1: Fp::from_raw_unchecked([0x223b00000013aa97, 0xee5c004d21a40010, 0x37bf74e7253745ac, 0xd881985be054ade3, 0xb0a058fe7d8f2a5b, 0x01c0df04bf85da70]),
        },
    };
    let c_sqrt = Fp6 {
        c0: Fp2 {
            c0: Fp::from_raw_unchecked([0xbc5c83c79ee17378, 0x6234c76e1e43427d, 0x0a967a76ded98934, 0x60530cb49f3aa701, 0xf1e78d8b238ce13b, 0x00cae66f9d906cc2]),
            c1: Fp::from_raw_unchecked([0x8e0b93ad5a9e2ad8, 0x9f651961fde14bf2, 0x4c1dbb672da9e549, 0x6a9dd580ee524230, 0x00037f847eccc026, 0x008759709a578b0d]),
        },
        c1: Fp2 {
            c0: Fp::from_raw_unchecked([0x1df7771f87b25d2d, 0xce9d90f1fb56fe78, 0xea74bda2cc72e5ea, 0xf240542d5067f34e, 0x5c127ed5f9d549c6, 0x04b40109ac4a835a]),
            c1: Fp::from_raw_unchecked([0x280644f936de9b22, 0xc66d88e8b24bcc50, 0x59c13da5b138eb11, 0x58eb4797886a4ad5, 0x906577dcb6d18661, 0x12b4501b3e3c9f3a]),
        },
        c2: Fp2 {
            c0: Fp::from_raw_unchecked([0xccbcf4677c99dfcb, 0x8001c4f4626cc646, 0x47d3f89c286446a9, 0x1c85adb35001a959, 0x933daef463a2592c, 0x02763061b8787ca0]),
            c1: Fp::from_raw_unchecked([0xdcb4c1ccf25dcf8e, 0xf1a4f384c2a0a4ae, 0x3e20636334c0d7d1, 0xcb6d42fd5a06e476, 0x3eff57d6357d7d40, 0x1528dc22578f54dd]),
        },
    };

    assert_eq!(c_sqrt.mul(&c_sqrt), c);
    assert_eq!(c.sqrt().unwrap().square(), c);
    assert_eq!(c.sqrt().unwrap(), c_sqrt);
}

#[test]
fn test_sqrt_of_zero_and_one() {
    let r = Fp6::zero().sqrt();
    assert!(r.is_some().as_bool());
    assert_eq!(r.unwrap(), Fp6::zero());
    let r = Fp6::one().sqrt();
    assert!(r.is_some().as_bool());
    assert_eq!(r.unwrap().square(), Fp6::one());
}
