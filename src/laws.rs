//! Properties that relate several calls of the library.
use vstd::prelude::*;
use crate::layout::{ark_g1_bytes, ark_g2_bytes};
use crate::encoding::{ark_compressed_of, ark_flag_for, with_flag, GNARK_MASK};
use crate::curve::{without_flags, flag_bits, g1c_x, miller_loop_value};
use crate::decode::{g1_from_gnark_compressed, g1_gnark_compressed_decodes};
use crate::field::{le_value, field_neg, lemma_le_value_injective, lemma_decimal_unique};
use crate::points::{G1Coords, G2Coords};
use crate::schema::{writes_element, writes_fp12, O1jsProof, O1jsVK};
use crate::snarkjs::{SnarkjsProof, SnarkjsVK, converted_from_snarkjs, g1_read_from, g2_read_from};

verus! {

/// The binary prover's flag for a flag of the curve library.
pub open spec fn gnark_flag_for(ark_flag: u8) -> u8 {
    if ark_flag == 0x00 {
        0x80
    } else if ark_flag == 0x80 {
        0xc0
    } else {
        0x40
    }
}

/// The binary prover's compressed encoding of a coordinate in the curve library's
/// compressed layout: all bytes reversed, then the flag mapped back.
pub open spec fn gnark_compressed_of(a: Seq<u8>) -> Seq<u8> {
    let r = a.reverse();
    r.update(0, (r[0] & 0x3f) | gnark_flag_for(r[0] & 0xc0))
}

/// Converting a compressed coordinate into the curve library's layout and back gives
/// the bytes it started from.
pub proof fn lemma_compressed_layout_round_trip(x: Seq<u8>)
    requires
        ark_compressed_of(x) is Some,
    ensures
        gnark_compressed_of(ark_compressed_of(x)->0) == x,
{
    let g = x[0] & GNARK_MASK;
    let f = ark_flag_for(g)->0;
    let m = with_flag(x[0], f);
    let a = x.update(0, m).reverse();
    assert(a.reverse() =~= x.update(0, m));
    let b = x[0];
    assert(g == 0x80 ==> ((b & !0xc0u8) | 0x00u8) & 0xc0 == 0x00 && ((((b & !0xc0u8) | 0x00u8) & 0x3f) | 0x80) == b)
        by (bit_vector) requires g == b & 0xc0;
    assert(g == 0xc0 ==> ((b & !0xc0u8) | 0x80u8) & 0xc0 == 0x80 && ((((b & !0xc0u8) | 0x80u8) & 0x3f) | 0xc0) == b)
        by (bit_vector) requires g == b & 0xc0;
    assert(g == 0x40 ==> ((b & !0xc0u8) | 0x40u8) & 0xc0 == 0x40 && ((((b & !0xc0u8) | 0x40u8) & 0x3f) | 0x40) == b)
        by (bit_vector) requires g == b & 0xc0;
    assert(gnark_compressed_of(a) =~= x);
}

/// Flipping the sign flag of a compressed G1 point from positive to negative, with the
/// same `x`, still decodes, and gives the same `x` with `y` negated.
pub proof fn lemma_sign_flag_negates_y(x: Seq<u8>, p: G1Coords)
    requires
        x.len() == 32,
        x[0] & GNARK_MASK == 0x80,
        g1_from_gnark_compressed(x, p),
    ensures
        g1_gnark_compressed_decodes(x.update(0, x[0] | 0x40)),
        forall|q: G1Coords| #[trigger] g1_from_gnark_compressed(x.update(0, x[0] | 0x40), q)
            ==> le_value(q.x@) == le_value(p.x@) && le_value(q.y@) == field_neg(le_value(p.y@)),
{
    let y = x.update(0, x[0] | 0x40);
    let b = x[0];
    assert((b | 0x40) & 0xc0 == 0xc0) by (bit_vector) requires b & 0xc0 == 0x80;
    let a1 = ark_compressed_of(x)->0;
    let a2 = ark_compressed_of(y)->0;
    let m1 = with_flag(b, 0x00);
    let m2 = with_flag(b | 0x40, 0x80);
    assert(m1 & 0xc0 == 0x00 && m2 & 0xc0 == 0x80 && m1 & 0x3f == m2 & 0x3f) by (bit_vector)
        requires m1 == (b & !0xc0u8) | 0x00u8, m2 == ((b | 0x40) & !0xc0u8) | 0x80u8;
    assert(a1[31] == m1);
    assert(a2[31] == m2);
    assert(without_flags(a1) =~= without_flags(a2));
    assert(flag_bits(a1) == 0 && flag_bits(a2) == 0x80);
    assert(g1c_x(a1) == g1c_x(a2));
}

} // verus!

verus! {

/// The pairing value `alpha_beta` and the constant `w27` of a converted key depend on
/// the key alone: converting any two proofs, with any public inputs, against one key
/// writes the same twelve components for each.
pub proof fn lemma_alpha_beta_depends_on_key_only(
    proof1: SnarkjsProof,
    inputs1: Seq<String>,
    proof2: SnarkjsProof,
    inputs2: Seq<String>,
    vk: SnarkjsVK,
    p1: O1jsProof,
    v1: O1jsVK,
    p2: O1jsProof,
    v2: O1jsVK,
)
    requires
        converted_from_snarkjs(proof1, inputs1, vk, p1, v1),
        converted_from_snarkjs(proof2, inputs2, vk, p2, v2),
    ensures
        v1.alpha_beta.components() == v2.alpha_beta.components(),
        v1.w27.components() == v2.w27.components(),
{
    let (a1, b1) = choose|a: G1Coords, b: G2Coords|
        g1_read_from(vk.vk_alpha_1@, a) && g2_read_from(vk.vk_beta_2@, b) && writes_fp12(
            v1.alpha_beta,
            miller_loop_value(ark_g1_bytes(a), ark_g2_bytes(b)),
        );
    let (a2, b2) = choose|a: G1Coords, b: G2Coords|
        g1_read_from(vk.vk_alpha_1@, a) && g2_read_from(vk.vk_beta_2@, b) && writes_fp12(
            v2.alpha_beta,
            miller_loop_value(ark_g1_bytes(a), ark_g2_bytes(b)),
        );
    lemma_le_value_injective(a1.x@, a2.x@);
    lemma_le_value_injective(a1.y@, a2.y@);
    lemma_le_value_injective(b1.x_c0@, b2.x_c0@);
    lemma_le_value_injective(b1.x_c1@, b2.x_c1@);
    lemma_le_value_injective(b1.y_c0@, b2.y_c0@);
    lemma_le_value_injective(b1.y_c1@, b2.y_c1@);
    assert(ark_g1_bytes(a1) == ark_g1_bytes(a2));
    assert(ark_g2_bytes(b1) == ark_g2_bytes(b2));
    let c = miller_loop_value(ark_g1_bytes(a1), ark_g2_bytes(b1));
    let e1 = v1.alpha_beta.components();
    let e2 = v2.alpha_beta.components();
    assert forall|i: int| 0 <= i < 12 implies e1[i] == e2[i] by {
        assert(writes_element(e1[i], c[i]));
        assert(writes_element(e2[i], c[i]));
        lemma_decimal_unique(e1[i], e2[i]);
    }
    assert(e1 =~= e2);
}

} // verus!
