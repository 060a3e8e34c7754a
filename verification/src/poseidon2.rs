//! Poseidon2 over the Goldilocks field, width 8: round constants,
//! linear layers, the permutation, and the 8-to-4 compression used by
//! the incremental trace commitments.
//!
//! Constant tables are flattened row-major: a full-round table holds
//! four rounds of eight constants each.

use vstd::prelude::*;

use crate::field::{Fp, spec_fp_add, spec_fp_mul};

verus! {

/// Degree of the permutation polynomial used as the S-box: the smallest
/// degree coprime with the order of the multiplicative group.
pub const GOLDILOCKS_S_BOX_DEGREE: u64 = 7;

/// Full rounds on each side of the partial rounds.
pub const HALF_FULL_ROUNDS: usize = 4;

/// Number of partial rounds.
pub const PARTIAL_ROUNDS: usize = 22;

/// The first-half full-round constants of the width-8 Goldilocks instance, row-major.
#[verifier::opaque]
pub open spec fn spec_beginning_full_constants() -> Seq<Fp> {
    seq![
        Fp { value: 0xdd5743e7f2a5a5d9 },
        Fp { value: 0xcb3a864e58ada44b },
        Fp { value: 0xffa2449ed32f8cdc },
        Fp { value: 0x42025f65d6bd13ee },
        Fp { value: 0x7889175e25506323 },
        Fp { value: 0x34b98bb03d24b737 },
        Fp { value: 0xbdcc535ecc4faa2a },
        Fp { value: 0x5b20ad869fc0d033 },
        Fp { value: 0xf1dda5b9259dfcb4 },
        Fp { value: 0x27515210be112d59 },
        Fp { value: 0x4227d1718c766c3f },
        Fp { value: 0x26d333161a5bd794 },
        Fp { value: 0x49b938957bf4b026 },
        Fp { value: 0x4a56b5938b213669 },
        Fp { value: 0x1120426b48c8353d },
        Fp { value: 0x6b323c3f10a56cad },
        Fp { value: 0xce57d6245ddca6b2 },
        Fp { value: 0xb1fc8d402bba1eb1 },
        Fp { value: 0xb5c5096ca959bd04 },
        Fp { value: 0x6db55cd306d31f7f },
        Fp { value: 0xc49d293a81cb9641 },
        Fp { value: 0x1ce55a4fe979719f },
        Fp { value: 0xa92e60a9d178a4d1 },
        Fp { value: 0x002cc64973bcfd8c },
        Fp { value: 0xcea721cce82fb11b },
        Fp { value: 0xe5b55eb8098ece81 },
        Fp { value: 0x4e30525c6f1ddd66 },
        Fp { value: 0x43c6702827070987 },
        Fp { value: 0xaca68430a7b5762a },
        Fp { value: 0x3674238634df9c93 },
        Fp { value: 0x88cee1c825e33433 },
        Fp { value: 0xde99ae8d74b57176 },
    ]
}

/// The second-half full-round constants of the width-8 Goldilocks instance, row-major.
#[verifier::opaque]
pub open spec fn spec_ending_full_constants() -> Seq<Fp> {
    seq![
        Fp { value: 0x014ef1197d341346 },
        Fp { value: 0x9725e20825d07394 },
        Fp { value: 0xfdb25aef2c5bae3b },
        Fp { value: 0xbe5402dc598c971e },
        Fp { value: 0x93a5711f04cdca3d },
        Fp { value: 0xc45a9a5b2f8fb97b },
        Fp { value: 0xfe8946a924933545 },
        Fp { value: 0x2af997a27369091c },
        Fp { value: 0xaa62c88e0b294011 },
        Fp { value: 0x058eb9d810ce9f74 },
        Fp { value: 0xb3cb23eced349ae4 },
        Fp { value: 0xa3648177a77b4a84 },
        Fp { value: 0x43153d905992d95d },
        Fp { value: 0xf4e2a97cda44aa4b },
        Fp { value: 0x5baa2702b908682f },
        Fp { value: 0x082923bdf4f750d1 },
        Fp { value: 0x98ae09a325893803 },
        Fp { value: 0xf8a6475077968838 },
        Fp { value: 0xceb0735bf00b2c5f },
        Fp { value: 0x0a1a5d953888e072 },
        Fp { value: 0x2fcb190489f94475 },
        Fp { value: 0xb5be06270dec69fc },
        Fp { value: 0x739cb934b09acf8b },
        Fp { value: 0x537750b75ec7f25b },
        Fp { value: 0xe9dd318bae1f3961 },
        Fp { value: 0xf7462137299efe1a },
        Fp { value: 0xb1f6b8eee9adb940 },
        Fp { value: 0xbdebcc8a809dfe6b },
        Fp { value: 0x40fc1f791b178113 },
        Fp { value: 0x3ac1c3362d014864 },
        Fp { value: 0x9a016184bdb8aeba },
        Fp { value: 0x95f2394459fbc25e },
    ]
}

/// The partial-round constants of the width-8 Goldilocks instance.
#[verifier::opaque]
pub open spec fn spec_partial_round_constants() -> Seq<Fp> {
    seq![
        Fp { value: 0x488897d85ff51f56 },
        Fp { value: 0x1140737ccb162218 },
        Fp { value: 0xa7eeb9215866ed35 },
        Fp { value: 0x9bd2976fee49fcc9 },
        Fp { value: 0xc0c8f0de580a3fcc },
        Fp { value: 0x4fb2dae6ee8fc793 },
        Fp { value: 0x343a89f35f37395b },
        Fp { value: 0x223b525a77ca72c8 },
        Fp { value: 0x56ccb62574aaa918 },
        Fp { value: 0xc4d507d8027af9ed },
        Fp { value: 0xa080673cf0b7e95c },
        Fp { value: 0xf0184884eb70dcf8 },
        Fp { value: 0x044f10b0cb3d5c69 },
        Fp { value: 0xe9e3f7993938f186 },
        Fp { value: 0x1b761c80e772f459 },
        Fp { value: 0x606cec607a1b5fac },
        Fp { value: 0x14a0c2e1d45f03cd },
        Fp { value: 0x4eace8855398574f },
        Fp { value: 0xf905ca7103eff3e6 },
        Fp { value: 0xf8c8f8d20862c059 },
        Fp { value: 0xb524fe8bdd678e5a },
        Fp { value: 0xfbb7865901a1ec41 },
    ]
}

/// The diagonal of the width-8 internal linear layer, less one.
#[verifier::opaque]
pub open spec fn spec_diag8() -> Seq<Fp> {
    seq![
        Fp { value: 0xa98811a1fed4e3a5 },
        Fp { value: 0x1cc48b54f377e2a0 },
        Fp { value: 0xe40cd4f6c5609a26 },
        Fp { value: 0x11de79ebca97a4a3 },
        Fp { value: 0x9177c73d8b7e929c },
        Fp { value: 0x2a6fe8085797e791 },
        Fp { value: 0x3de6e93329f8d5ad },
        Fp { value: 0x3f7af9125da962fe },
    ]
}

/// The width-8 internal-layer diagonal.
pub fn matrix_diag_8_goldilocks() -> (r: Vec<Fp>)
    ensures
        r@ == spec_diag8(),
        fp_seq_inv(r@),
        r@.len() == 8,
{
    proof {
        reveal(spec_diag8);
    }
    let mut r: Vec<Fp> = Vec::new();
    r.push(Fp { value: 0xa98811a1fed4e3a5 });
    r.push(Fp { value: 0x1cc48b54f377e2a0 });
    r.push(Fp { value: 0xe40cd4f6c5609a26 });
    r.push(Fp { value: 0x11de79ebca97a4a3 });
    r.push(Fp { value: 0x9177c73d8b7e929c });
    r.push(Fp { value: 0x2a6fe8085797e791 });
    r.push(Fp { value: 0x3de6e93329f8d5ad });
    r.push(Fp { value: 0x3f7af9125da962fe });
    proof {
        reveal(spec_diag8);
        assert(r@ =~= spec_diag8());
        assert(fp_seq_inv(r@));
    }
    r
}

/// The diagonal of the width-12 internal linear layer, less one.
#[verifier::opaque]
pub open spec fn spec_diag12() -> Seq<Fp> {
    seq![
        Fp { value: 0xc3b6c08e23ba9300 },
        Fp { value: 0xd84b5de94a324fb6 },
        Fp { value: 0x0d0c371c5b35b84f },
        Fp { value: 0x7964f570e7188037 },
        Fp { value: 0x5daf18bbd996604b },
        Fp { value: 0x6743bc47b9595257 },
        Fp { value: 0x5528b9362c59bb70 },
        Fp { value: 0xac45e25b7127b68b },
        Fp { value: 0xa2077d7dfbb606b5 },
        Fp { value: 0xf3faac6faee378ae },
        Fp { value: 0x0c6388b51545e883 },
        Fp { value: 0xd27dbb6944917b60 },
    ]
}

/// The width-12 internal-layer diagonal.
pub fn matrix_diag_12_goldilocks() -> (r: Vec<Fp>)
    ensures
        r@ == spec_diag12(),
        fp_seq_inv(r@),
{
    proof {
        reveal(spec_diag12);
    }
    let mut r: Vec<Fp> = Vec::new();
    r.push(Fp { value: 0xc3b6c08e23ba9300 });
    r.push(Fp { value: 0xd84b5de94a324fb6 });
    r.push(Fp { value: 0x0d0c371c5b35b84f });
    r.push(Fp { value: 0x7964f570e7188037 });
    r.push(Fp { value: 0x5daf18bbd996604b });
    r.push(Fp { value: 0x6743bc47b9595257 });
    r.push(Fp { value: 0x5528b9362c59bb70 });
    r.push(Fp { value: 0xac45e25b7127b68b });
    r.push(Fp { value: 0xa2077d7dfbb606b5 });
    r.push(Fp { value: 0xf3faac6faee378ae });
    r.push(Fp { value: 0x0c6388b51545e883 });
    r.push(Fp { value: 0xd27dbb6944917b60 });
    proof {
        reveal(spec_diag12);
        assert(r@ =~= spec_diag12());
        assert(fp_seq_inv(r@));
    }
    r
}

/// The diagonal of the width-16 internal linear layer, less one.
#[verifier::opaque]
pub open spec fn spec_diag16() -> Seq<Fp> {
    seq![
        Fp { value: 0xde9b91a467d6afc0 },
        Fp { value: 0xc5f16b9c76a9be17 },
        Fp { value: 0x0ab0fef2d540ac55 },
        Fp { value: 0x3001d27009d05773 },
        Fp { value: 0xed23b1f906d3d9eb },
        Fp { value: 0x5ce73743cba97054 },
        Fp { value: 0x1c3bab944af4ba24 },
        Fp { value: 0x2faa105854dbafae },
        Fp { value: 0x53ffb3ae6d421a10 },
        Fp { value: 0xbcda9df8884ba396 },
        Fp { value: 0xfc1273e4a31807bb },
        Fp { value: 0xc77952573d5142c0 },
        Fp { value: 0x56683339a819b85e },
        Fp { value: 0x328fcbd8f0ddc8eb },
        Fp { value: 0xb5101e303fce9cb7 },
        Fp { value: 0x774487b8c40089bb },
    ]
}

/// The width-16 internal-layer diagonal.
pub fn matrix_diag_16_goldilocks() -> (r: Vec<Fp>)
    ensures
        r@ == spec_diag16(),
        fp_seq_inv(r@),
{
    proof {
        reveal(spec_diag16);
    }
    let mut r: Vec<Fp> = Vec::new();
    r.push(Fp { value: 0xde9b91a467d6afc0 });
    r.push(Fp { value: 0xc5f16b9c76a9be17 });
    r.push(Fp { value: 0x0ab0fef2d540ac55 });
    r.push(Fp { value: 0x3001d27009d05773 });
    r.push(Fp { value: 0xed23b1f906d3d9eb });
    r.push(Fp { value: 0x5ce73743cba97054 });
    r.push(Fp { value: 0x1c3bab944af4ba24 });
    r.push(Fp { value: 0x2faa105854dbafae });
    r.push(Fp { value: 0x53ffb3ae6d421a10 });
    r.push(Fp { value: 0xbcda9df8884ba396 });
    r.push(Fp { value: 0xfc1273e4a31807bb });
    r.push(Fp { value: 0xc77952573d5142c0 });
    r.push(Fp { value: 0x56683339a819b85e });
    r.push(Fp { value: 0x328fcbd8f0ddc8eb });
    r.push(Fp { value: 0xb5101e303fce9cb7 });
    r.push(Fp { value: 0x774487b8c40089bb });
    proof {
        reveal(spec_diag16);
        assert(r@ =~= spec_diag16());
        assert(fp_seq_inv(r@));
    }
    r
}

/// The diagonal of the width-20 internal linear layer, less one.
#[verifier::opaque]
pub open spec fn spec_diag20() -> Seq<Fp> {
    seq![
        Fp { value: 0x95c381fda3b1fa57 },
        Fp { value: 0xf36fe9eb1288f42c },
        Fp { value: 0x89f5dcdfef277944 },
        Fp { value: 0x106f22eadeb3e2d2 },
        Fp { value: 0x684e31a2530e5111 },
        Fp { value: 0x27435c5d89fd148e },
        Fp { value: 0x3ebed31c414dbf17 },
        Fp { value: 0xfd45b0b2d294e3cc },
        Fp { value: 0x48c904473a7f6dbf },
        Fp { value: 0xe0d1b67809295b4d },
        Fp { value: 0xddd1941e9d199dcb },
        Fp { value: 0x8cfe534eeb742219 },
        Fp { value: 0xa6e5261d9e3b8524 },
        Fp { value: 0x6897ee5ed0f82c1b },
        Fp { value: 0x0e7dcd0739ee5f78 },
        Fp { value: 0x493253f3d0d32363 },
        Fp { value: 0xbb2737f5845f05c0 },
        Fp { value: 0xa187e810b06ad903 },
        Fp { value: 0xb635b995936c4918 },
        Fp { value: 0x0b3694a940bd2394 },
    ]
}

/// The width-20 internal-layer diagonal.
pub fn matrix_diag_20_goldilocks() -> (r: Vec<Fp>)
    ensures
        r@ == spec_diag20(),
        fp_seq_inv(r@),
{
    proof {
        reveal(spec_diag20);
    }
    let mut r: Vec<Fp> = Vec::new();
    r.push(Fp { value: 0x95c381fda3b1fa57 });
    r.push(Fp { value: 0xf36fe9eb1288f42c });
    r.push(Fp { value: 0x89f5dcdfef277944 });
    r.push(Fp { value: 0x106f22eadeb3e2d2 });
    r.push(Fp { value: 0x684e31a2530e5111 });
    r.push(Fp { value: 0x27435c5d89fd148e });
    r.push(Fp { value: 0x3ebed31c414dbf17 });
    r.push(Fp { value: 0xfd45b0b2d294e3cc });
    r.push(Fp { value: 0x48c904473a7f6dbf });
    r.push(Fp { value: 0xe0d1b67809295b4d });
    r.push(Fp { value: 0xddd1941e9d199dcb });
    r.push(Fp { value: 0x8cfe534eeb742219 });
    r.push(Fp { value: 0xa6e5261d9e3b8524 });
    r.push(Fp { value: 0x6897ee5ed0f82c1b });
    r.push(Fp { value: 0x0e7dcd0739ee5f78 });
    r.push(Fp { value: 0x493253f3d0d32363 });
    r.push(Fp { value: 0xbb2737f5845f05c0 });
    r.push(Fp { value: 0xa187e810b06ad903 });
    r.push(Fp { value: 0xb635b995936c4918 });
    r.push(Fp { value: 0x0b3694a940bd2394 });
    proof {
        reveal(spec_diag20);
        assert(r@ =~= spec_diag20());
        assert(fp_seq_inv(r@));
    }
    r
}

} // verus!

verus! {

/// The S-box: raise to the seventh power.
#[verifier::opaque]
pub open spec fn spec_sbox7(x: Fp) -> Fp {
    let x2 = spec_fp_mul(x, x);
    let x3 = spec_fp_mul(x2, x);
    let x6 = spec_fp_mul(x3, x3);
    spec_fp_mul(x6, x)
}

/// Multiply a 4-element slice of the state by the small MDS matrix
/// `[[2 3 1 1] [1 2 3 1] [1 1 2 3] [3 1 1 2]]`.
#[verifier::opaque]
pub open spec fn spec_apply_mat4_vals(x0: Fp, x1: Fp, x2: Fp, x3: Fp) -> (Fp, Fp, Fp, Fp) {
    let t01 = spec_fp_add(x0, x1);
    let t23 = spec_fp_add(x2, x3);
    let t0123 = spec_fp_add(t01, t23);
    let t01123 = spec_fp_add(t0123, x1);
    let t01233 = spec_fp_add(t0123, x3);
    let n3 = spec_fp_add(t01233, spec_fp_add(x0, x0));
    let n1 = spec_fp_add(t01123, spec_fp_add(x2, x2));
    let n0 = spec_fp_add(t01123, t01);
    let n2 = spec_fp_add(t01233, t23);
    (n0, n1, n2, n3)
}

/// The width-8 external linear layer: the small MDS matrix on each half,
/// then the outer circulant mixing.
#[verifier::opaque]
pub open spec fn spec_mds8(s: Seq<Fp>) -> Seq<Fp> {
    let a = spec_apply_mat4_vals(s[0], s[1], s[2], s[3]);
    let b = spec_apply_mat4_vals(s[4], s[5], s[6], s[7]);
    let sum0 = spec_fp_add(a.0, b.0);
    let sum1 = spec_fp_add(a.1, b.1);
    let sum2 = spec_fp_add(a.2, b.2);
    let sum3 = spec_fp_add(a.3, b.3);
    seq![
        spec_fp_add(a.0, sum0),
        spec_fp_add(a.1, sum1),
        spec_fp_add(a.2, sum2),
        spec_fp_add(a.3, sum3),
        spec_fp_add(b.0, sum0),
        spec_fp_add(b.1, sum1),
        spec_fp_add(b.2, sum2),
        spec_fp_add(b.3, sum3),
    ]
}

/// The sum of the eight state elements, folded left to right.
#[verifier::opaque]
pub open spec fn spec_sum8(s: Seq<Fp>) -> Fp {
    spec_fp_add(
        spec_fp_add(
            spec_fp_add(
                spec_fp_add(
                    spec_fp_add(spec_fp_add(spec_fp_add(s[0], s[1]), s[2]), s[3]),
                    s[4],
                ),
                s[5],
            ),
            s[6],
        ),
        s[7],
    )
}

/// The width-8 internal linear layer: each element scaled by its
/// diagonal entry, plus the state sum.
#[verifier::opaque]
pub open spec fn spec_internal8(s: Seq<Fp>) -> Seq<Fp> {
    let sum = spec_sum8(s);
    Seq::new(8, |i: int| spec_fp_add(spec_fp_mul(s[i], spec_diag8()[i]), sum))
}

/// One full round: add the round's constants, S-box every element, then
/// the external linear layer.
#[verifier::opaque]
pub open spec fn spec_full_round(s: Seq<Fp>, cs: Seq<Fp>, r: int) -> Seq<Fp> {
    spec_mds8(Seq::new(8, |i: int| spec_sbox7(spec_fp_add(s[i], cs[8 * r + i]))))
}

/// `n` full rounds.
#[verifier::opaque]
pub open spec fn spec_full_rounds(s: Seq<Fp>, cs: Seq<Fp>, n: int) -> Seq<Fp>
    decreases n,
{
    if n <= 0 {
        s
    } else {
        spec_full_round(spec_full_rounds(s, cs, n - 1), cs, n - 1)
    }
}

/// One partial round: add the round constant and S-box the first element
/// only, then the internal linear layer.
#[verifier::opaque]
pub open spec fn spec_partial_round(s: Seq<Fp>, c: Fp) -> Seq<Fp> {
    spec_internal8(s.update(0, spec_sbox7(spec_fp_add(s[0], c))))
}

/// `n` partial rounds.
#[verifier::opaque]
pub open spec fn spec_partial_rounds(s: Seq<Fp>, cs: Seq<Fp>, n: int) -> Seq<Fp>
    decreases n,
{
    if n <= 0 {
        s
    } else {
        spec_partial_round(spec_partial_rounds(s, cs, n - 1), cs[n - 1])
    }
}

/// The full width-8 permutation for given constant tables.
#[verifier::opaque]
pub open spec fn spec_permute8(s: Seq<Fp>, beg: Seq<Fp>, part: Seq<Fp>, end: Seq<Fp>) -> Seq<Fp> {
    spec_full_rounds(
        spec_partial_rounds(spec_full_rounds(spec_mds8(s), beg, 4), part, 22),
        end,
        4,
    )
}

/// The permutation with the Goldilocks width-8 constants.
#[verifier::opaque]
pub open spec fn spec_goldilocks_permute8(s: Seq<Fp>) -> Seq<Fp> {
    spec_permute8(
        s,
        spec_beginning_full_constants(),
        spec_partial_round_constants(),
        spec_ending_full_constants(),
    )
}

/// The 8-to-4 compression: permute, truncate to four elements, and feed
/// the matching inputs forward.
#[verifier::opaque]
pub open spec fn spec_compress_8_to_4(s: Seq<Fp>) -> Seq<Fp> {
    let p = spec_goldilocks_permute8(s);
    seq![
        spec_fp_add(p[0], s[0]),
        spec_fp_add(p[1], s[1]),
        spec_fp_add(p[2], s[2]),
        spec_fp_add(p[3], s[3]),
    ]
}

/// Every element of the sequence is canonical.
pub open spec fn fp_seq_inv(s: Seq<Fp>) -> bool {
    forall|i: int| 0 <= i < s.len() ==> (#[trigger] s[i]).inv()
}

} // verus!

verus! {

/// Round constants of the width-8 instance, flattened row-major: each
/// full-round table holds four rounds of eight constants.
#[derive(Debug)]
pub struct RoundConstants {
    pub beginning_full_round_constants: Vec<Fp>,
    pub partial_round_constants: Vec<Fp>,
    pub ending_full_round_constants: Vec<Fp>,
}

impl Clone for RoundConstants {
    fn clone(&self) -> (r: RoundConstants)
        ensures
            r.beginning_full_round_constants@ == self.beginning_full_round_constants@,
            r.partial_round_constants@ == self.partial_round_constants@,
            r.ending_full_round_constants@ == self.ending_full_round_constants@,
    {
        RoundConstants {
            beginning_full_round_constants: crate::circuit::copy_vec(
                &self.beginning_full_round_constants,
            ),
            partial_round_constants: crate::circuit::copy_vec(&self.partial_round_constants),
            ending_full_round_constants: crate::circuit::copy_vec(
                &self.ending_full_round_constants,
            ),
        }
    }
}

impl RoundConstants {
    /// The tables have the right lengths and canonical entries.
    pub open spec fn wf(self) -> bool {
        &&& self.beginning_full_round_constants@.len() == 32
        &&& self.partial_round_constants@.len() == 22
        &&& self.ending_full_round_constants@.len() == 32
        &&& fp_seq_inv(self.beginning_full_round_constants@)
        &&& fp_seq_inv(self.partial_round_constants@)
        &&& fp_seq_inv(self.ending_full_round_constants@)
    }

    /// Package three constant tables.
    pub fn new(
        beginning_full_round_constants: Vec<Fp>,
        partial_round_constants: Vec<Fp>,
        ending_full_round_constants: Vec<Fp>,
    ) -> (r: RoundConstants)
        ensures
            r.beginning_full_round_constants@ == beginning_full_round_constants@,
            r.partial_round_constants@ == partial_round_constants@,
            r.ending_full_round_constants@ == ending_full_round_constants@,
    {
        RoundConstants {
            beginning_full_round_constants,
            partial_round_constants,
            ending_full_round_constants,
        }
    }

    /// Simple deterministic constants for exercising the permutation.
    pub fn test_constants() -> (r: RoundConstants)
        ensures
            r.wf(),
            forall|k: int| 0 <= k < 32 ==> r.beginning_full_round_constants@[k].value == k + 1,
            forall|k: int| 0 <= k < 22 ==> r.partial_round_constants@[k].value == 33 + k,
            forall|k: int| 0 <= k < 32 ==> r.ending_full_round_constants@[k].value == 55 + k,
    {
        let mut beginning: Vec<Fp> = Vec::new();
        let mut k: usize = 0;
        while k < 32
            invariant
                k <= 32,
                beginning@.len() == k,
                forall|j: int| 0 <= j < k ==> (#[trigger] beginning@[j]).value == j + 1
                    && beginning@[j].inv(),
            decreases 32 - k,
        {
            beginning.push(Fp { value: (k + 1) as u64 });
            k = k + 1;
        }
        let mut partial: Vec<Fp> = Vec::new();
        let mut k: usize = 0;
        while k < 22
            invariant
                k <= 22,
                partial@.len() == k,
                forall|j: int| 0 <= j < k ==> (#[trigger] partial@[j]).value == 33 + j
                    && partial@[j].inv(),
            decreases 22 - k,
        {
            partial.push(Fp { value: (33 + k) as u64 });
            k = k + 1;
        }
        let mut ending: Vec<Fp> = Vec::new();
        let mut k: usize = 0;
        while k < 32
            invariant
                k <= 32,
                ending@.len() == k,
                forall|j: int| 0 <= j < k ==> (#[trigger] ending@[j]).value == 55 + j
                    && ending@[j].inv(),
            decreases 32 - k,
        {
            ending.push(Fp { value: (55 + k) as u64 });
            k = k + 1;
        }
        RoundConstants {
            beginning_full_round_constants: beginning,
            partial_round_constants: partial,
            ending_full_round_constants: ending,
        }
    }

    /// The standard width-8 Goldilocks constants.
    pub fn new_goldilocks_8_constants() -> (r: RoundConstants)
        ensures
            r.wf(),
            r.beginning_full_round_constants@ == spec_beginning_full_constants(),
            r.partial_round_constants@ == spec_partial_round_constants(),
            r.ending_full_round_constants@ == spec_ending_full_constants(),
    {
        let beginning = goldilocks_beginning_constants();
        let partial = goldilocks_partial_constants();
        let ending = goldilocks_ending_constants();
        proof {

        }
        RoundConstants {
            beginning_full_round_constants: beginning,
            partial_round_constants: partial,
            ending_full_round_constants: ending,
        }
    }
}

/// Map raw machine words into field elements, preserving order.
pub fn constants_to_field_elems(raw: &Vec<u64>) -> (r: Vec<Fp>)
    ensures
        r@.len() == raw@.len(),
        forall|i: int| 0 <= i < raw@.len() ==> (#[trigger] r@[i]).value == raw@[i] as int % (
        crate::field::GOLDILOCKS_P as int),
        fp_seq_inv(r@),
{
    let mut r: Vec<Fp> = Vec::new();
    let mut i: usize = 0;
    while i < raw.len()
        invariant
            i <= raw@.len(),
            r@.len() == i,
            forall|j: int| 0 <= j < i ==> (#[trigger] r@[j]).value == raw@[j] as int % (
            crate::field::GOLDILOCKS_P as int) && r@[j].inv(),
        decreases raw@.len() - i,
    {
        r.push(Fp::from_u64(raw[i]));
        i = i + 1;
    }
    r
}

} // verus!

verus! {

/// The first-half full-round constants as a table.
fn goldilocks_beginning_constants() -> (r: Vec<Fp>)
    ensures
        r@ == spec_beginning_full_constants(),
        fp_seq_inv(r@),
        r@.len() == 32,
{
    proof {
        reveal(spec_beginning_full_constants);
    }
    let mut r: Vec<Fp> = Vec::new();
    r.push(Fp { value: 0xdd5743e7f2a5a5d9 });
    r.push(Fp { value: 0xcb3a864e58ada44b });
    r.push(Fp { value: 0xffa2449ed32f8cdc });
    r.push(Fp { value: 0x42025f65d6bd13ee });
    r.push(Fp { value: 0x7889175e25506323 });
    r.push(Fp { value: 0x34b98bb03d24b737 });
    r.push(Fp { value: 0xbdcc535ecc4faa2a });
    r.push(Fp { value: 0x5b20ad869fc0d033 });
    r.push(Fp { value: 0xf1dda5b9259dfcb4 });
    r.push(Fp { value: 0x27515210be112d59 });
    r.push(Fp { value: 0x4227d1718c766c3f });
    r.push(Fp { value: 0x26d333161a5bd794 });
    r.push(Fp { value: 0x49b938957bf4b026 });
    r.push(Fp { value: 0x4a56b5938b213669 });
    r.push(Fp { value: 0x1120426b48c8353d });
    r.push(Fp { value: 0x6b323c3f10a56cad });
    r.push(Fp { value: 0xce57d6245ddca6b2 });
    r.push(Fp { value: 0xb1fc8d402bba1eb1 });
    r.push(Fp { value: 0xb5c5096ca959bd04 });
    r.push(Fp { value: 0x6db55cd306d31f7f });
    r.push(Fp { value: 0xc49d293a81cb9641 });
    r.push(Fp { value: 0x1ce55a4fe979719f });
    r.push(Fp { value: 0xa92e60a9d178a4d1 });
    r.push(Fp { value: 0x002cc64973bcfd8c });
    r.push(Fp { value: 0xcea721cce82fb11b });
    r.push(Fp { value: 0xe5b55eb8098ece81 });
    r.push(Fp { value: 0x4e30525c6f1ddd66 });
    r.push(Fp { value: 0x43c6702827070987 });
    r.push(Fp { value: 0xaca68430a7b5762a });
    r.push(Fp { value: 0x3674238634df9c93 });
    r.push(Fp { value: 0x88cee1c825e33433 });
    r.push(Fp { value: 0xde99ae8d74b57176 });
    proof {
        reveal(spec_beginning_full_constants);
        assert(r@ =~= spec_beginning_full_constants());
        assert(fp_seq_inv(r@));
    }
    r
}

/// The partial-round constants as a table.
fn goldilocks_partial_constants() -> (r: Vec<Fp>)
    ensures
        r@ == spec_partial_round_constants(),
        fp_seq_inv(r@),
        r@.len() == 22,
{
    proof {
        reveal(spec_partial_round_constants);
    }
    let mut r: Vec<Fp> = Vec::new();
    r.push(Fp { value: 0x488897d85ff51f56 });
    r.push(Fp { value: 0x1140737ccb162218 });
    r.push(Fp { value: 0xa7eeb9215866ed35 });
    r.push(Fp { value: 0x9bd2976fee49fcc9 });
    r.push(Fp { value: 0xc0c8f0de580a3fcc });
    r.push(Fp { value: 0x4fb2dae6ee8fc793 });
    r.push(Fp { value: 0x343a89f35f37395b });
    r.push(Fp { value: 0x223b525a77ca72c8 });
    r.push(Fp { value: 0x56ccb62574aaa918 });
    r.push(Fp { value: 0xc4d507d8027af9ed });
    r.push(Fp { value: 0xa080673cf0b7e95c });
    r.push(Fp { value: 0xf0184884eb70dcf8 });
    r.push(Fp { value: 0x044f10b0cb3d5c69 });
    r.push(Fp { value: 0xe9e3f7993938f186 });
    r.push(Fp { value: 0x1b761c80e772f459 });
    r.push(Fp { value: 0x606cec607a1b5fac });
    r.push(Fp { value: 0x14a0c2e1d45f03cd });
    r.push(Fp { value: 0x4eace8855398574f });
    r.push(Fp { value: 0xf905ca7103eff3e6 });
    r.push(Fp { value: 0xf8c8f8d20862c059 });
    r.push(Fp { value: 0xb524fe8bdd678e5a });
    r.push(Fp { value: 0xfbb7865901a1ec41 });
    proof {
        reveal(spec_partial_round_constants);
        assert(r@ =~= spec_partial_round_constants());
        assert(fp_seq_inv(r@));
    }
    r
}

/// The second-half full-round constants as a table.
fn goldilocks_ending_constants() -> (r: Vec<Fp>)
    ensures
        r@ == spec_ending_full_constants(),
        fp_seq_inv(r@),
        r@.len() == 32,
{
    proof {
        reveal(spec_ending_full_constants);
    }
    let mut r: Vec<Fp> = Vec::new();
    r.push(Fp { value: 0x014ef1197d341346 });
    r.push(Fp { value: 0x9725e20825d07394 });
    r.push(Fp { value: 0xfdb25aef2c5bae3b });
    r.push(Fp { value: 0xbe5402dc598c971e });
    r.push(Fp { value: 0x93a5711f04cdca3d });
    r.push(Fp { value: 0xc45a9a5b2f8fb97b });
    r.push(Fp { value: 0xfe8946a924933545 });
    r.push(Fp { value: 0x2af997a27369091c });
    r.push(Fp { value: 0xaa62c88e0b294011 });
    r.push(Fp { value: 0x058eb9d810ce9f74 });
    r.push(Fp { value: 0xb3cb23eced349ae4 });
    r.push(Fp { value: 0xa3648177a77b4a84 });
    r.push(Fp { value: 0x43153d905992d95d });
    r.push(Fp { value: 0xf4e2a97cda44aa4b });
    r.push(Fp { value: 0x5baa2702b908682f });
    r.push(Fp { value: 0x082923bdf4f750d1 });
    r.push(Fp { value: 0x98ae09a325893803 });
    r.push(Fp { value: 0xf8a6475077968838 });
    r.push(Fp { value: 0xceb0735bf00b2c5f });
    r.push(Fp { value: 0x0a1a5d953888e072 });
    r.push(Fp { value: 0x2fcb190489f94475 });
    r.push(Fp { value: 0xb5be06270dec69fc });
    r.push(Fp { value: 0x739cb934b09acf8b });
    r.push(Fp { value: 0x537750b75ec7f25b });
    r.push(Fp { value: 0xe9dd318bae1f3961 });
    r.push(Fp { value: 0xf7462137299efe1a });
    r.push(Fp { value: 0xb1f6b8eee9adb940 });
    r.push(Fp { value: 0xbdebcc8a809dfe6b });
    r.push(Fp { value: 0x40fc1f791b178113 });
    r.push(Fp { value: 0x3ac1c3362d014864 });
    r.push(Fp { value: 0x9a016184bdb8aeba });
    r.push(Fp { value: 0x95f2394459fbc25e });
    proof {
        reveal(spec_ending_full_constants);
        assert(r@ =~= spec_ending_full_constants());
        assert(fp_seq_inv(r@));
    }
    r
}

} // verus!

verus! {

/// The width-8 Poseidon2 permutation with a fixed constant table.
pub struct Poseidon2Gadget {
    pub constants: RoundConstants,
}

/// Raise to the seventh power.
fn eval_sbox(x: Fp) -> (r: Fp)
    requires
        x.inv(),
    ensures
        r == spec_sbox7(x),
        r.inv(),
{
    proof {
        reveal(spec_sbox7);
    }
    let x2 = x.mul(x);
    let x3 = x2.mul(x);
    let x6 = x3.mul(x3);
    x6.mul(x)
}

/// The external linear layer on a width-8 state.
pub fn mds_light_permutation(state: &mut Vec<Fp>)
    requires
        old(state)@.len() == 8,
        fp_seq_inv(old(state)@),
    ensures
        final(state)@ == spec_mds8(old(state)@),
        final(state)@.len() == 8,
        fp_seq_inv(final(state)@),
{
    proof {
        reveal(spec_mds8);
        reveal(spec_apply_mat4_vals);
    }
    let x0 = state[0];
    let x1 = state[1];
    let x2 = state[2];
    let x3 = state[3];
    let x4 = state[4];
    let x5 = state[5];
    let x6 = state[6];
    let x7 = state[7];

    let t01 = x0.add(x1);
    let t23 = x2.add(x3);
    let t0123 = t01.add(t23);
    let t01123 = t0123.add(x1);
    let t01233 = t0123.add(x3);
    let a3 = t01233.add(x0.add(x0));
    let a1 = t01123.add(x2.add(x2));
    let a0 = t01123.add(t01);
    let a2 = t01233.add(t23);

    let u01 = x4.add(x5);
    let u23 = x6.add(x7);
    let u0123 = u01.add(u23);
    let u01123 = u0123.add(x5);
    let u01233 = u0123.add(x7);
    let b3 = u01233.add(x4.add(x4));
    let b1 = u01123.add(x6.add(x6));
    let b0 = u01123.add(u01);
    let b2 = u01233.add(u23);

    let sum0 = a0.add(b0);
    let sum1 = a1.add(b1);
    let sum2 = a2.add(b2);
    let sum3 = a3.add(b3);

    let mut r: Vec<Fp> = Vec::new();
    r.push(a0.add(sum0));
    r.push(a1.add(sum1));
    r.push(a2.add(sum2));
    r.push(a3.add(sum3));
    r.push(b0.add(sum0));
    r.push(b1.add(sum1));
    r.push(b2.add(sum2));
    r.push(b3.add(sum3));
    proof {
        assert(r@ =~= spec_mds8(old(state)@));
    }
    *state = r;
}

/// The internal linear layer: scale each element by the diagonal entry
/// and add the state sum.
pub fn matmul_internal(state: &mut Vec<Fp>, mat_internal_diag_m_1: &Vec<Fp>)
    requires
        old(state)@.len() == 8,
        fp_seq_inv(old(state)@),
        mat_internal_diag_m_1@ == spec_diag8(),
        fp_seq_inv(mat_internal_diag_m_1@),
        mat_internal_diag_m_1@.len() == 8,
    ensures
        final(state)@ == spec_internal8(old(state)@),
        final(state)@.len() == 8,
        fp_seq_inv(final(state)@),
{
    let sum = state[0].add(state[1]).add(state[2]).add(state[3]).add(state[4]).add(
        state[5],
    ).add(state[6]).add(state[7]);
    proof {
        reveal(spec_internal8);
        reveal(spec_sum8);
        assert(sum == spec_sum8(old(state)@));
    }
    let mut r: Vec<Fp> = Vec::new();
    r.push(state[0].mul(mat_internal_diag_m_1[0]).add(sum));
    r.push(state[1].mul(mat_internal_diag_m_1[1]).add(sum));
    r.push(state[2].mul(mat_internal_diag_m_1[2]).add(sum));
    r.push(state[3].mul(mat_internal_diag_m_1[3]).add(sum));
    r.push(state[4].mul(mat_internal_diag_m_1[4]).add(sum));
    r.push(state[5].mul(mat_internal_diag_m_1[5]).add(sum));
    r.push(state[6].mul(mat_internal_diag_m_1[6]).add(sum));
    r.push(state[7].mul(mat_internal_diag_m_1[7]).add(sum));
    proof {
        assert(r@ =~= spec_internal8(old(state)@));
    }
    *state = r;
}

impl Poseidon2Gadget {
    /// A permutation instance over one constant table.
    pub fn new(constants: RoundConstants) -> (r: Poseidon2Gadget)
        ensures
            r.constants == constants,
    {
        Poseidon2Gadget { constants }
    }

    /// One full round.
    fn eval_full_round(&self, state: &mut Vec<Fp>, cs: &Vec<Fp>, r: usize)
        requires
            old(state)@.len() == 8,
            fp_seq_inv(old(state)@),
            cs@.len() == 32,
            fp_seq_inv(cs@),
            r < 4,
        ensures
            final(state)@ == spec_full_round(old(state)@, cs@, r as int),
            final(state)@.len() == 8,
            fp_seq_inv(final(state)@),
    {
        let mut t: Vec<Fp> = Vec::new();
        t.push(eval_sbox(state[0].add(cs[8 * r])));
        t.push(eval_sbox(state[1].add(cs[8 * r + 1])));
        t.push(eval_sbox(state[2].add(cs[8 * r + 2])));
        t.push(eval_sbox(state[3].add(cs[8 * r + 3])));
        t.push(eval_sbox(state[4].add(cs[8 * r + 4])));
        t.push(eval_sbox(state[5].add(cs[8 * r + 5])));
        t.push(eval_sbox(state[6].add(cs[8 * r + 6])));
        t.push(eval_sbox(state[7].add(cs[8 * r + 7])));
        proof {
            reveal(spec_full_round);
            assert(t@ =~= Seq::new(
                8,
                |i: int| spec_sbox7(spec_fp_add(old(state)@[i], cs@[8 * (r as int) + i])),
            ));
        }
        mds_light_permutation(&mut t);
        proof {
            reveal(spec_full_round);
        }
        *state = t;
    }

    /// One partial round.
    fn eval_partial_round(&self, state: &mut Vec<Fp>, c: Fp, diag: &Vec<Fp>)
        requires
            old(state)@.len() == 8,
            fp_seq_inv(old(state)@),
            c.inv(),
            diag@ == spec_diag8(),
            fp_seq_inv(diag@),
            diag@.len() == 8,
        ensures
            final(state)@ == spec_partial_round(old(state)@, c),
            final(state)@.len() == 8,
            fp_seq_inv(final(state)@),
    {
        let s0 = eval_sbox(state[0].add(c));
        state[0] = s0;
        proof {
            reveal(spec_partial_round);
            assert(state@ =~= old(state)@.update(0, spec_sbox7(spec_fp_add(old(state)@[0], c))));
        }
        matmul_internal(state, diag);
        proof {
            reveal(spec_partial_round);
        }
    }

    /// The Poseidon2 permutation of a width-8 state.
    pub fn permute(&self, inputs: &Vec<Fp>) -> (r: Vec<Fp>)
        requires
            self.constants.wf(),
            inputs@.len() == 8,
            fp_seq_inv(inputs@),
        ensures
            r@ == spec_permute8(
                inputs@,
                self.constants.beginning_full_round_constants@,
                self.constants.partial_round_constants@,
                self.constants.ending_full_round_constants@,
            ),
            r@.len() == 8,
            fp_seq_inv(r@),
    {
        let diag = matrix_diag_8_goldilocks();
        let mut state = crate::circuit::copy_vec(inputs);
        mds_light_permutation(&mut state);
        let ghost s0 = state@;
        proof {
            reveal(spec_full_rounds);
        }
        let mut round: usize = 0;
        while round < 4
            invariant
                state@.len() == 8,
                fp_seq_inv(state@),
                round <= 4,
                self.constants.wf(),
                diag@ == spec_diag8(),
                fp_seq_inv(diag@),
                diag@.len() == 8,
                state@ == spec_full_rounds(
                    s0,
                    self.constants.beginning_full_round_constants@,
                    round as int,
                ),
            decreases 4 - round,
        {
            self.eval_full_round(&mut state, &self.constants.beginning_full_round_constants, round);
            proof {
                reveal(spec_full_rounds);
            }
            round = round + 1;
        }
        let ghost s1 = state@;
        proof {
            reveal(spec_partial_rounds);
        }
        let mut round: usize = 0;
        while round < 22
            invariant
                state@.len() == 8,
                fp_seq_inv(state@),
                round <= 22,
                self.constants.wf(),
                diag@ == spec_diag8(),
                fp_seq_inv(diag@),
                diag@.len() == 8,
                state@ == spec_partial_rounds(
                    s1,
                    self.constants.partial_round_constants@,
                    round as int,
                ),
            decreases 22 - round,
        {
            self.eval_partial_round(&mut state, self.constants.partial_round_constants[round], &diag);
            proof {
                reveal(spec_partial_rounds);
            }
            round = round + 1;
        }
        let ghost s2 = state@;
        proof {
            reveal(spec_full_rounds);
        }
        let mut round: usize = 0;
        while round < 4
            invariant
                state@.len() == 8,
                fp_seq_inv(state@),
                round <= 4,
                self.constants.wf(),
                diag@ == spec_diag8(),
                fp_seq_inv(diag@),
                diag@.len() == 8,
                state@ == spec_full_rounds(
                    s2,
                    self.constants.ending_full_round_constants@,
                    round as int,
                ),
            decreases 4 - round,
        {
            self.eval_full_round(&mut state, &self.constants.ending_full_round_constants, round);
            proof {
                reveal(spec_full_rounds);
            }
            round = round + 1;
        }
        proof {
            reveal(spec_permute8);
        }
        state
    }
}

/// Hash a width-8 state: the permutation applied once.
pub fn poseidon2_hash(inputs: &Vec<Fp>, constants: &RoundConstants) -> (r: Vec<Fp>)
    requires
        constants.wf(),
        inputs@.len() == 8,
        fp_seq_inv(inputs@),
    ensures
        r@ == spec_permute8(
            inputs@,
            constants.beginning_full_round_constants@,
            constants.partial_round_constants@,
            constants.ending_full_round_constants@,
        ),
        r@.len() == 8,
        fp_seq_inv(r@),
{
    let gadget = Poseidon2Gadget::new(constants.clone());
    let r = gadget.permute(inputs);
    r
}

/// Compress eight field elements to four: permute, truncate, and feed
/// the matching inputs forward.
#[verifier::rlimit(60)]
pub fn poseidon2_compress_8_to_4(inputs: &Vec<Fp>, constants: &RoundConstants) -> (r: Vec<Fp>)
    requires
        constants.wf(),
        inputs@.len() == 8,
        fp_seq_inv(inputs@),
        constants.beginning_full_round_constants@ == spec_beginning_full_constants(),
        constants.partial_round_constants@ == spec_partial_round_constants(),
        constants.ending_full_round_constants@ == spec_ending_full_constants(),
    ensures
        r@ == spec_compress_8_to_4(inputs@),
        r@.len() == 4,
        fp_seq_inv(r@),
{
    let gadget = Poseidon2Gadget::new(constants.clone());
    let p = gadget.permute(inputs);
    let mut r: Vec<Fp> = Vec::new();
    r.push(p[0].add(inputs[0]));
    r.push(p[1].add(inputs[1]));
    r.push(p[2].add(inputs[2]));
    r.push(p[3].add(inputs[3]));
    proof {
        reveal(spec_compress_8_to_4);
        reveal(spec_goldilocks_permute8);
        assert(r@ =~= spec_compress_8_to_4(inputs@));
    }
    r
}

/// The 8-to-4 compression with the standard Goldilocks constants.
pub fn compress(inputs: &Vec<Fp>) -> (r: Vec<Fp>)
    requires
        inputs@.len() == 8,
        fp_seq_inv(inputs@),
    ensures
        r@ == spec_compress_8_to_4(inputs@),
        r@.len() == 4,
        fp_seq_inv(r@),
{
    let constants = RoundConstants::new_goldilocks_8_constants();
    poseidon2_compress_8_to_4(inputs, &constants)
}

} // verus!
