//! Canonical fixed-width byte serialization: 288 bytes big-endian, one
//! 96-byte quadratic-field block per component, each of two 48-byte
//! base-field blocks.

use vstd::prelude::*;
use crate::modp::prime;
use crate::fp::Fp;
use crate::fp2::{Fp2, Fp2Val};
use crate::fp6::{Fp6, Fp6Val};
use crate::ct::CtOption;

verus! {

/// The integer denoted by the `k`-th 48-byte big-endian window.
pub open spec fn window(b: Seq<u8>, k: int) -> int {
    (((((((((((((((((((((((((((((((((((((((((((((((b[48 * k] as int) * 256 + b[48 * k + 1]) * 256 + b[48 * k + 2]) * 256 + b[48 * k + 3]) * 256 + b[48 * k + 4]) * 256 + b[48 * k + 5]) * 256 + b[48 * k + 6]) * 256 + b[48 * k + 7]) * 256 + b[48 * k + 8]) * 256 + b[48 * k + 9]) * 256 + b[48 * k + 10]) * 256 + b[48 * k + 11]) * 256 + b[48 * k + 12]) * 256 + b[48 * k + 13]) * 256 + b[48 * k + 14]) * 256 + b[48 * k + 15]) * 256 + b[48 * k + 16]) * 256 + b[48 * k + 17]) * 256 + b[48 * k + 18]) * 256 + b[48 * k + 19]) * 256 + b[48 * k + 20]) * 256 + b[48 * k + 21]) * 256 + b[48 * k + 22]) * 256 + b[48 * k + 23]) * 256 + b[48 * k + 24]) * 256 + b[48 * k + 25]) * 256 + b[48 * k + 26]) * 256 + b[48 * k + 27]) * 256 + b[48 * k + 28]) * 256 + b[48 * k + 29]) * 256 + b[48 * k + 30]) * 256 + b[48 * k + 31]) * 256 + b[48 * k + 32]) * 256 + b[48 * k + 33]) * 256 + b[48 * k + 34]) * 256 + b[48 * k + 35]) * 256 + b[48 * k + 36]) * 256 + b[48 * k + 37]) * 256 + b[48 * k + 38]) * 256 + b[48 * k + 39]) * 256 + b[48 * k + 40]) * 256 + b[48 * k + 41]) * 256 + b[48 * k + 42]) * 256 + b[48 * k + 43]) * 256 + b[48 * k + 44]) * 256 + b[48 * k + 45]) * 256 + b[48 * k + 46]) * 256 + b[48 * k + 47]
}

/// A 288-byte string decodes iff each 48-byte window is a canonical
/// residue.
pub open spec fn decode_ok(b: Seq<u8>) -> bool {
    &&& window(b, 0) < prime()
    &&& window(b, 1) < prime()
    &&& window(b, 2) < prime()
    &&& window(b, 3) < prime()
    &&& window(b, 4) < prime()
    &&& window(b, 5) < prime()
}

/// The element denoted by a 288-byte encoding.
pub open spec fn decode_val(b: Seq<u8>) -> Fp6Val {
    Fp6Val {
        c0: Fp2Val { c0: window(b, 0), c1: window(b, 1) },
        c1: Fp2Val { c0: window(b, 2), c1: window(b, 3) },
        c2: Fp2Val { c0: window(b, 4), c1: window(b, 5) },
    }
}

/// Splits a 64-bit limb into its eight big-endian bytes.
proof fn lemma_limb_split(l: u64)
    ensures
        (l >> 56) & 0xff < 256,
        (l >> 48) & 0xff < 256,
        (l >> 40) & 0xff < 256,
        (l >> 32) & 0xff < 256,
        (l >> 24) & 0xff < 256,
        (l >> 16) & 0xff < 256,
        (l >> 8) & 0xff < 256,
        l & 0xff < 256,
        l == ((l >> 56) & 0xff) * 0x100000000000000 + ((l >> 48) & 0xff) * 0x1000000000000 + ((l
            >> 40) & 0xff) * 0x10000000000 + ((l >> 32) & 0xff) * 0x100000000 + ((l >> 24) & 0xff)
            * 0x1000000 + ((l >> 16) & 0xff) * 0x10000 + ((l >> 8) & 0xff) * 0x100 + (l & 0xff),
{
    assert((l >> 56) & 0xff < 256 && (l >> 48) & 0xff < 256 && (l >> 40) & 0xff < 256 && (l >> 32)
        & 0xff < 256 && (l >> 24) & 0xff < 256 && (l >> 16) & 0xff < 256 && (l >> 8) & 0xff < 256
        && l & 0xff < 256 && l == ((l >> 56) & 0xff) * 0x100000000000000 + ((l >> 48) & 0xff)
        * 0x1000000000000 + ((l >> 40) & 0xff) * 0x10000000000 + ((l >> 32) & 0xff) * 0x100000000
        + ((l >> 24) & 0xff) * 0x1000000 + ((l >> 16) & 0xff) * 0x10000 + ((l >> 8) & 0xff) * 0x100
        + (l & 0xff)) by (bit_vector);
}

/// Joins eight big-endian bytes into a 64-bit limb.
fn limb_be(b0: u8, b1: u8, b2: u8, b3: u8, b4: u8, b5: u8, b6: u8, b7: u8) -> (r: u64)
    ensures
        r == (b0 as u64) * 0x100000000000000 + (b1 as u64) * 0x1000000000000 + (b2 as u64)
            * 0x10000000000 + (b3 as u64) * 0x100000000 + (b4 as u64) * 0x1000000 + (b5 as u64)
            * 0x10000 + (b6 as u64) * 0x100 + (b7 as u64),
{
    let r = (b0 as u64) << 56 | (b1 as u64) << 48 | (b2 as u64) << 40 | (b3 as u64) << 32 | (
    b4 as u64) << 24 | (b5 as u64) << 16 | (b6 as u64) << 8 | (b7 as u64);
    proof {
        assert(((b0 as u64) << 56 | (b1 as u64) << 48 | (b2 as u64) << 40 | (b3 as u64) << 32 | (
        b4 as u64) << 24 | (b5 as u64) << 16 | (b6 as u64) << 8 | (b7 as u64)) == (b0 as u64)
            * 0x100000000000000 + (b1 as u64) * 0x1000000000000 + (b2 as u64) * 0x10000000000 + (
        b3 as u64) * 0x100000000 + (b4 as u64) * 0x1000000 + (b5 as u64) * 0x10000 + (b6 as u64)
            * 0x100 + (b7 as u64)) by (bit_vector);
    }
    r
}

/// Encodes one base-field element as 48 big-endian bytes.
#[verifier::rlimit(100)]
fn fp_to_bytes48(a: &Fp) -> (r: [u8; 48])
    ensures
        window(r@, 0) == a@,
{
    proof {
        lemma_limb_split(a.limbs[0]);
        lemma_limb_split(a.limbs[1]);
        lemma_limb_split(a.limbs[2]);
        lemma_limb_split(a.limbs[3]);
        lemma_limb_split(a.limbs[4]);
        lemma_limb_split(a.limbs[5]);
    }
    let r: [u8; 48] = [
        ((a.limbs[5] >> 56) & 0xff) as u8,
        ((a.limbs[5] >> 48) & 0xff) as u8,
        ((a.limbs[5] >> 40) & 0xff) as u8,
        ((a.limbs[5] >> 32) & 0xff) as u8,
        ((a.limbs[5] >> 24) & 0xff) as u8,
        ((a.limbs[5] >> 16) & 0xff) as u8,
        ((a.limbs[5] >> 8) & 0xff) as u8,
        (a.limbs[5] & 0xff) as u8,
        ((a.limbs[4] >> 56) & 0xff) as u8,
        ((a.limbs[4] >> 48) & 0xff) as u8,
        ((a.limbs[4] >> 40) & 0xff) as u8,
        ((a.limbs[4] >> 32) & 0xff) as u8,
        ((a.limbs[4] >> 24) & 0xff) as u8,
        ((a.limbs[4] >> 16) & 0xff) as u8,
        ((a.limbs[4] >> 8) & 0xff) as u8,
        (a.limbs[4] & 0xff) as u8,
        ((a.limbs[3] >> 56) & 0xff) as u8,
        ((a.limbs[3] >> 48) & 0xff) as u8,
        ((a.limbs[3] >> 40) & 0xff) as u8,
        ((a.limbs[3] >> 32) & 0xff) as u8,
        ((a.limbs[3] >> 24) & 0xff) as u8,
        ((a.limbs[3] >> 16) & 0xff) as u8,
        ((a.limbs[3] >> 8) & 0xff) as u8,
        (a.limbs[3] & 0xff) as u8,
        ((a.limbs[2] >> 56) & 0xff) as u8,
        ((a.limbs[2] >> 48) & 0xff) as u8,
        ((a.limbs[2] >> 40) & 0xff) as u8,
        ((a.limbs[2] >> 32) & 0xff) as u8,
        ((a.limbs[2] >> 24) & 0xff) as u8,
        ((a.limbs[2] >> 16) & 0xff) as u8,
        ((a.limbs[2] >> 8) & 0xff) as u8,
        (a.limbs[2] & 0xff) as u8,
        ((a.limbs[1] >> 56) & 0xff) as u8,
        ((a.limbs[1] >> 48) & 0xff) as u8,
        ((a.limbs[1] >> 40) & 0xff) as u8,
        ((a.limbs[1] >> 32) & 0xff) as u8,
        ((a.limbs[1] >> 24) & 0xff) as u8,
        ((a.limbs[1] >> 16) & 0xff) as u8,
        ((a.limbs[1] >> 8) & 0xff) as u8,
        (a.limbs[1] & 0xff) as u8,
        ((a.limbs[0] >> 56) & 0xff) as u8,
        ((a.limbs[0] >> 48) & 0xff) as u8,
        ((a.limbs[0] >> 40) & 0xff) as u8,
        ((a.limbs[0] >> 32) & 0xff) as u8,
        ((a.limbs[0] >> 24) & 0xff) as u8,
        ((a.limbs[0] >> 16) & 0xff) as u8,
        ((a.limbs[0] >> 8) & 0xff) as u8,
        (a.limbs[0] & 0xff) as u8,
    ];
    proof {
        assert(window(r@, 0) == a@);
    }
    r
}

impl Fp6 {
    /// The canonical 288-byte big-endian encoding: `c0`, then `c1`, then
    /// `c2`, each as two 48-byte base-field blocks (most significant byte
    /// first). Decoding the result recovers the element, and a canonical
    /// element always re-decodes as valid.
    #[verifier::rlimit(100)]
    pub fn to_bytes(&self) -> (r: [u8; 288])
        ensures
            decode_val(r@) == self@,
            self.ok() ==> decode_ok(r@),
    {
        let b00 = fp_to_bytes48(&self.c0.c0);
        let b01 = fp_to_bytes48(&self.c0.c1);
        let b10 = fp_to_bytes48(&self.c1.c0);
        let b11 = fp_to_bytes48(&self.c1.c1);
        let b20 = fp_to_bytes48(&self.c2.c0);
        let b21 = fp_to_bytes48(&self.c2.c1);
        let r: [u8; 288] = [
            b00[0],
            b00[1],
            b00[2],
            b00[3],
            b00[4],
            b00[5],
            b00[6],
            b00[7],
            b00[8],
            b00[9],
            b00[10],
            b00[11],
            b00[12],
            b00[13],
            b00[14],
            b00[15],
            b00[16],
            b00[17],
            b00[18],
            b00[19],
            b00[20],
            b00[21],
            b00[22],
            b00[23],
            b00[24],
            b00[25],
            b00[26],
            b00[27],
            b00[28],
            b00[29],
            b00[30],
            b00[31],
            b00[32],
            b00[33],
            b00[34],
            b00[35],
            b00[36],
            b00[37],
            b00[38],
            b00[39],
            b00[40],
            b00[41],
            b00[42],
            b00[43],
            b00[44],
            b00[45],
            b00[46],
            b00[47],
            b01[0],
            b01[1],
            b01[2],
            b01[3],
            b01[4],
            b01[5],
            b01[6],
            b01[7],
            b01[8],
            b01[9],
            b01[10],
            b01[11],
            b01[12],
            b01[13],
            b01[14],
            b01[15],
            b01[16],
            b01[17],
            b01[18],
            b01[19],
            b01[20],
            b01[21],
            b01[22],
            b01[23],
            b01[24],
            b01[25],
            b01[26],
            b01[27],
            b01[28],
            b01[29],
            b01[30],
            b01[31],
            b01[32],
            b01[33],
            b01[34],
            b01[35],
            b01[36],
            b01[37],
            b01[38],
            b01[39],
            b01[40],
            b01[41],
            b01[42],
            b01[43],
            b01[44],
            b01[45],
            b01[46],
            b01[47],
            b10[0],
            b10[1],
            b10[2],
            b10[3],
            b10[4],
            b10[5],
            b10[6],
            b10[7],
            b10[8],
            b10[9],
            b10[10],
            b10[11],
            b10[12],
            b10[13],
            b10[14],
            b10[15],
            b10[16],
            b10[17],
            b10[18],
            b10[19],
            b10[20],
            b10[21],
            b10[22],
            b10[23],
            b10[24],
            b10[25],
            b10[26],
            b10[27],
            b10[28],
            b10[29],
            b10[30],
            b10[31],
            b10[32],
            b10[33],
            b10[34],
            b10[35],
            b10[36],
            b10[37],
            b10[38],
            b10[39],
            b10[40],
            b10[41],
            b10[42],
            b10[43],
            b10[44],
            b10[45],
            b10[46],
            b10[47],
            b11[0],
            b11[1],
            b11[2],
            b11[3],
            b11[4],
            b11[5],
            b11[6],
            b11[7],
            b11[8],
            b11[9],
            b11[10],
            b11[11],
            b11[12],
            b11[13],
            b11[14],
            b11[15],
            b11[16],
            b11[17],
            b11[18],
            b11[19],
            b11[20],
            b11[21],
            b11[22],
            b11[23],
            b11[24],
            b11[25],
            b11[26],
            b11[27],
            b11[28],
            b11[29],
            b11[30],
            b11[31],
            b11[32],
            b11[33],
            b11[34],
            b11[35],
            b11[36],
            b11[37],
            b11[38],
            b11[39],
            b11[40],
            b11[41],
            b11[42],
            b11[43],
            b11[44],
            b11[45],
            b11[46],
            b11[47],
            b20[0],
            b20[1],
            b20[2],
            b20[3],
            b20[4],
            b20[5],
            b20[6],
            b20[7],
            b20[8],
            b20[9],
            b20[10],
            b20[11],
            b20[12],
            b20[13],
            b20[14],
            b20[15],
            b20[16],
            b20[17],
            b20[18],
            b20[19],
            b20[20],
            b20[21],
            b20[22],
            b20[23],
            b20[24],
            b20[25],
            b20[26],
            b20[27],
            b20[28],
            b20[29],
            b20[30],
            b20[31],
            b20[32],
            b20[33],
            b20[34],
            b20[35],
            b20[36],
            b20[37],
            b20[38],
            b20[39],
            b20[40],
            b20[41],
            b20[42],
            b20[43],
            b20[44],
            b20[45],
            b20[46],
            b20[47],
            b21[0],
            b21[1],
            b21[2],
            b21[3],
            b21[4],
            b21[5],
            b21[6],
            b21[7],
            b21[8],
            b21[9],
            b21[10],
            b21[11],
            b21[12],
            b21[13],
            b21[14],
            b21[15],
            b21[16],
            b21[17],
            b21[18],
            b21[19],
            b21[20],
            b21[21],
            b21[22],
            b21[23],
            b21[24],
            b21[25],
            b21[26],
            b21[27],
            b21[28],
            b21[29],
            b21[30],
            b21[31],
            b21[32],
            b21[33],
            b21[34],
            b21[35],
            b21[36],
            b21[37],
            b21[38],
            b21[39],
            b21[40],
            b21[41],
            b21[42],
            b21[43],
            b21[44],
            b21[45],
            b21[46],
            b21[47],
        ];
        proof {
            assert(window(r@, 0) == window(b00@, 0));
            assert(window(r@, 1) == window(b01@, 0));
            assert(window(r@, 2) == window(b10@, 0));
            assert(window(r@, 3) == window(b11@, 0));
            assert(window(r@, 4) == window(b20@, 0));
            assert(window(r@, 5) == window(b21@, 0));
            assert(decode_val(r@) =~= self@);
        }
        r
    }
}

/// Decodes window 0 of the encoding.
#[verifier::rlimit(100)]
fn decode_w0(bytes: &[u8; 288]) -> (r: Fp)
    ensures
        r@ == window(bytes@, 0),
{
    let l5 = limb_be(bytes[0], bytes[1], bytes[2], bytes[3], bytes[4], bytes[5], bytes[6], bytes[7]);
    let l4 = limb_be(bytes[8], bytes[9], bytes[10], bytes[11], bytes[12], bytes[13], bytes[14], bytes[15]);
    let l3 = limb_be(bytes[16], bytes[17], bytes[18], bytes[19], bytes[20], bytes[21], bytes[22], bytes[23]);
    let l2 = limb_be(bytes[24], bytes[25], bytes[26], bytes[27], bytes[28], bytes[29], bytes[30], bytes[31]);
    let l1 = limb_be(bytes[32], bytes[33], bytes[34], bytes[35], bytes[36], bytes[37], bytes[38], bytes[39]);
    let l0 = limb_be(bytes[40], bytes[41], bytes[42], bytes[43], bytes[44], bytes[45], bytes[46], bytes[47]);
    let r = Fp { limbs: [l0, l1, l2, l3, l4, l5] };
    proof {
        assert(r@ == window(bytes@, 0));
    }
    r
}

/// Decodes window 1 of the encoding.
#[verifier::rlimit(100)]
fn decode_w1(bytes: &[u8; 288]) -> (r: Fp)
    ensures
        r@ == window(bytes@, 1),
{
    let l5 = limb_be(bytes[48], bytes[49], bytes[50], bytes[51], bytes[52], bytes[53], bytes[54], bytes[55]);
    let l4 = limb_be(bytes[56], bytes[57], bytes[58], bytes[59], bytes[60], bytes[61], bytes[62], bytes[63]);
    let l3 = limb_be(bytes[64], bytes[65], bytes[66], bytes[67], bytes[68], bytes[69], bytes[70], bytes[71]);
    let l2 = limb_be(bytes[72], bytes[73], bytes[74], bytes[75], bytes[76], bytes[77], bytes[78], bytes[79]);
    let l1 = limb_be(bytes[80], bytes[81], bytes[82], bytes[83], bytes[84], bytes[85], bytes[86], bytes[87]);
    let l0 = limb_be(bytes[88], bytes[89], bytes[90], bytes[91], bytes[92], bytes[93], bytes[94], bytes[95]);
    let r = Fp { limbs: [l0, l1, l2, l3, l4, l5] };
    proof {
        assert(r@ == window(bytes@, 1));
    }
    r
}

/// Decodes window 2 of the encoding.
#[verifier::rlimit(100)]
fn decode_w2(bytes: &[u8; 288]) -> (r: Fp)
    ensures
        r@ == window(bytes@, 2),
{
    let l5 = limb_be(bytes[96], bytes[97], bytes[98], bytes[99], bytes[100], bytes[101], bytes[102], bytes[103]);
    let l4 = limb_be(bytes[104], bytes[105], bytes[106], bytes[107], bytes[108], bytes[109], bytes[110], bytes[111]);
    let l3 = limb_be(bytes[112], bytes[113], bytes[114], bytes[115], bytes[116], bytes[117], bytes[118], bytes[119]);
    let l2 = limb_be(bytes[120], bytes[121], bytes[122], bytes[123], bytes[124], bytes[125], bytes[126], bytes[127]);
    let l1 = limb_be(bytes[128], bytes[129], bytes[130], bytes[131], bytes[132], bytes[133], bytes[134], bytes[135]);
    let l0 = limb_be(bytes[136], bytes[137], bytes[138], bytes[139], bytes[140], bytes[141], bytes[142], bytes[143]);
    let r = Fp { limbs: [l0, l1, l2, l3, l4, l5] };
    proof {
        assert(r@ == window(bytes@, 2));
    }
    r
}

/// Decodes window 3 of the encoding.
#[verifier::rlimit(100)]
fn decode_w3(bytes: &[u8; 288]) -> (r: Fp)
    ensures
        r@ == window(bytes@, 3),
{
    let l5 = limb_be(bytes[144], bytes[145], bytes[146], bytes[147], bytes[148], bytes[149], bytes[150], bytes[151]);
    let l4 = limb_be(bytes[152], bytes[153], bytes[154], bytes[155], bytes[156], bytes[157], bytes[158], bytes[159]);
    let l3 = limb_be(bytes[160], bytes[161], bytes[162], bytes[163], bytes[164], bytes[165], bytes[166], bytes[167]);
    let l2 = limb_be(bytes[168], bytes[169], bytes[170], bytes[171], bytes[172], bytes[173], bytes[174], bytes[175]);
    let l1 = limb_be(bytes[176], bytes[177], bytes[178], bytes[179], bytes[180], bytes[181], bytes[182], bytes[183]);
    let l0 = limb_be(bytes[184], bytes[185], bytes[186], bytes[187], bytes[188], bytes[189], bytes[190], bytes[191]);
    let r = Fp { limbs: [l0, l1, l2, l3, l4, l5] };
    proof {
        assert(r@ == window(bytes@, 3));
    }
    r
}

/// Decodes window 4 of the encoding.
#[verifier::rlimit(100)]
fn decode_w4(bytes: &[u8; 288]) -> (r: Fp)
    ensures
        r@ == window(bytes@, 4),
{
    let l5 = limb_be(bytes[192], bytes[193], bytes[194], bytes[195], bytes[196], bytes[197], bytes[198], bytes[199]);
    let l4 = limb_be(bytes[200], bytes[201], bytes[202], bytes[203], bytes[204], bytes[205], bytes[206], bytes[207]);
    let l3 = limb_be(bytes[208], bytes[209], bytes[210], bytes[211], bytes[212], bytes[213], bytes[214], bytes[215]);
    let l2 = limb_be(bytes[216], bytes[217], bytes[218], bytes[219], bytes[220], bytes[221], bytes[222], bytes[223]);
    let l1 = limb_be(bytes[224], bytes[225], bytes[226], bytes[227], bytes[228], bytes[229], bytes[230], bytes[231]);
    let l0 = limb_be(bytes[232], bytes[233], bytes[234], bytes[235], bytes[236], bytes[237], bytes[238], bytes[239]);
    let r = Fp { limbs: [l0, l1, l2, l3, l4, l5] };
    proof {
        assert(r@ == window(bytes@, 4));
    }
    r
}

/// Decodes window 5 of the encoding.
#[verifier::rlimit(100)]
fn decode_w5(bytes: &[u8; 288]) -> (r: Fp)
    ensures
        r@ == window(bytes@, 5),
{
    let l5 = limb_be(bytes[240], bytes[241], bytes[242], bytes[243], bytes[244], bytes[245], bytes[246], bytes[247]);
    let l4 = limb_be(bytes[248], bytes[249], bytes[250], bytes[251], bytes[252], bytes[253], bytes[254], bytes[255]);
    let l3 = limb_be(bytes[256], bytes[257], bytes[258], bytes[259], bytes[260], bytes[261], bytes[262], bytes[263]);
    let l2 = limb_be(bytes[264], bytes[265], bytes[266], bytes[267], bytes[268], bytes[269], bytes[270], bytes[271]);
    let l1 = limb_be(bytes[272], bytes[273], bytes[274], bytes[275], bytes[276], bytes[277], bytes[278], bytes[279]);
    let l0 = limb_be(bytes[280], bytes[281], bytes[282], bytes[283], bytes[284], bytes[285], bytes[286], bytes[287]);
    let r = Fp { limbs: [l0, l1, l2, l3, l4, l5] };
    proof {
        assert(r@ == window(bytes@, 5));
    }
    r
}

impl Fp6 {
    /// Decodes a 288-byte big-endian encoding. The result is valid exactly
    /// when every 48-byte base-field block is in canonical reduced form; no
    /// structural check beyond canonicality is performed.
    #[verifier::rlimit(100)]
    pub fn from_bytes_unchecked(bytes: &[u8; 288]) -> (r: CtOption<Fp6>)
        ensures
            r.ok(),
            r.spec_is_some() <==> decode_ok(bytes@),
            r.spec_is_some() ==> r.spec_value().ok() && r.spec_value()@ == decode_val(bytes@),
    {
        let b00 = decode_w0(bytes);
        let b01 = decode_w1(bytes);
        let b10 = decode_w2(bytes);
        let b11 = decode_w3(bytes);
        let b20 = decode_w4(bytes);
        let b21 = decode_w5(bytes);
        let p = Fp {
            limbs: [
                0xb9feffffffffaaab,
                0x1eabfffeb153ffff,
                0x6730d2a0f6b0f624,
                0x64774b84f38512bf,
                0x4b1ba7b6434bacd7,
                0x1a0111ea397fe69a,
            ],
        };
        proof {
            assert(p@ == prime());
        }
        let flag = b00.ct_lt(&p).and(&b01.ct_lt(&p)).and(&b10.ct_lt(&p)).and(&b11.ct_lt(&p)).and(
            &b20.ct_lt(&p),
        ).and(&b21.ct_lt(&p));
        let v = Fp6 {
            c0: Fp2 { c0: b00, c1: b01 },
            c1: Fp2 { c0: b10, c1: b11 },
            c2: Fp2 { c0: b20, c1: b21 },
        };
        proof {
            if flag@ {
                assert(v@ =~= decode_val(bytes@));
            }
        }
        CtOption::new(v, flag)
    }
}

} // verus!
