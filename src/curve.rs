//! The calls into the curve library (arkworks over BN254) and into num-bigint.
//! Each wrapper converts between the library's plain values and the outside types.
use vstd::prelude::*;
use ark_bn254::{Bn254, Fq, Fr, G1Affine, G2Affine};
use ark_ec::pairing::Pairing;
use ark_ff::{BigInteger, PrimeField};
use ark_serialize::{CanonicalDeserialize, CanonicalSerialize, Compress, Validate};
use ark_snark::SNARK;
use num_bigint::BigUint;
use crate::field::{le_value, field_modulus, field_neg, is_field_bytes, is_decimal, decimal_value, is_decimal_of};
use crate::points::{G1Coords, G2Coords};
use crate::layout::{Groth16Proof, Groth16VerifyingKey, proof_wf, vk_wf, ark_g1_bytes, ark_g2_bytes, ark_proof_bytes, ark_vk_bytes};

verus! {

/// The `y` that arkworks' compressed G1 decoding picks for `x` and the sign flag: the
/// smaller root of `y^2 = x^3 + 3` for the positive flag, the larger for the negative
/// one; `None` where `x^3 + 3` has no square root.
pub uninterp spec fn g1_root(x: nat, negative: bool) -> Option<nat>;

/// The `y = (y_c0, y_c1)` that arkworks' compressed G2 decoding picks for
/// `x = (x_c0, x_c1)` and the sign flag; `None` where the twist equation has no root.
pub uninterp spec fn g2_root(x_c0: nat, x_c1: nat, negative: bool) -> Option<(nat, nat)>;

/// Whether arkworks' check of a G2 affine point accepts it: on the twist and in the
/// prime-order subgroup.
pub uninterp spec fn g2_valid(x_c0: nat, x_c1: nat, y_c0: nat, y_c1: nat) -> bool;

/// The Miller loop of the pairing on one G1 and one G2 point, given in the curve
/// library's uncompressed layout, before the final exponentiation: its twelve
/// base-field components, each 32 bytes least significant first.
pub uninterp spec fn miller_loop_value(alpha: Seq<u8>, beta: Seq<u8>) -> Seq<Seq<u8>>;

/// The verdict of Groth16 verification on a proof and a key in the curve library's
/// uncompressed layout, and public inputs of 32 bytes each: `None` where the library
/// reports an error.
pub uninterp spec fn groth16_verdict(proof: Seq<u8>, vk: Seq<u8>, inputs: Seq<Seq<u8>>) -> Option<bool>;

/// `b` with the two top bits of its last byte cleared: the coordinate that an
/// encoding carries beside its flags.
pub open spec fn without_flags(b: Seq<u8>) -> Seq<u8> {
    b.update(b.len() - 1, b[b.len() - 1] & 0x3f)
}

/// The flag bits of the last byte of an encoding.
pub open spec fn flag_bits(b: Seq<u8>) -> u8 {
    b[b.len() - 1] & 0xc0
}

pub open spec fn on_g1_curve(x: nat, y: nat) -> bool {
    (y * y) % field_modulus() == (x * x * x + 3) % field_modulus()
}

/// The `x` of a compressed G1 encoding in the curve library's layout.
pub open spec fn g1c_x(b: Seq<u8>) -> nat {
    le_value(without_flags(b))
}

/// The compressed G1 bytes `b` decode: known flags, `x` below the modulus, and a root
/// for `x` unless the flag says infinity.
pub open spec fn g1_compressed_decodes(b: Seq<u8>) -> bool {
    &&& flag_bits(b) != 0xc0
    &&& g1c_x(b) < field_modulus()
    &&& flag_bits(b) == 0x40 || g1_root(g1c_x(b), flag_bits(b) == 0x80) is Some
}

/// `p` is the point that the compressed G1 bytes `b` decode to.
pub open spec fn g1_compressed_point(b: Seq<u8>, p: G1Coords) -> bool {
    &&& p.wf()
    &&& if flag_bits(b) == 0x40 {
        p.is_identity()
    } else {
        &&& le_value(p.x@) == g1c_x(b)
        &&& g1_root(g1c_x(b), flag_bits(b) == 0x80) == Some(le_value(p.y@))
        &&& g1_root(g1c_x(b), flag_bits(b) != 0x80) == Some(field_neg(le_value(p.y@)))
        &&& on_g1_curve(le_value(p.x@), le_value(p.y@))
    }
}

/// The two coordinates of a compressed G2 encoding in the curve library's layout.
pub open spec fn g2c_x0(b: Seq<u8>) -> nat {
    le_value(b.subrange(0, 32))
}

pub open spec fn g2c_x1(b: Seq<u8>) -> nat {
    le_value(without_flags(b.subrange(32, 64)))
}

pub open spec fn g2_compressed_decodes(b: Seq<u8>) -> bool {
    &&& flag_bits(b) != 0xc0
    &&& g2c_x0(b) < field_modulus() && g2c_x1(b) < field_modulus()
    &&& flag_bits(b) == 0x40 || g2_root(g2c_x0(b), g2c_x1(b), flag_bits(b) == 0x80) is Some
}

pub open spec fn g2_compressed_point(b: Seq<u8>, p: G2Coords) -> bool {
    &&& p.wf()
    &&& if flag_bits(b) == 0x40 {
        p.is_identity()
    } else {
        &&& le_value(p.x_c0@) == g2c_x0(b) && le_value(p.x_c1@) == g2c_x1(b)
        &&& g2_root(g2c_x0(b), g2c_x1(b), flag_bits(b) == 0x80) == Some((le_value(p.y_c0@), le_value(p.y_c1@)))
    }
}

/// The coordinates of an uncompressed G1 encoding in the curve library's layout.
pub open spec fn g1u_x(b: Seq<u8>) -> nat {
    le_value(b.subrange(0, 32))
}

pub open spec fn g1u_y(b: Seq<u8>) -> nat {
    le_value(without_flags(b.subrange(32, 64)))
}

pub open spec fn g1_uncompressed_decodes(b: Seq<u8>) -> bool {
    &&& flag_bits(b) != 0xc0
    &&& g1u_x(b) < field_modulus() && g1u_y(b) < field_modulus()
    &&& flag_bits(b) == 0x40 || on_g1_curve(g1u_x(b), g1u_y(b))
}

pub open spec fn g1_uncompressed_point(b: Seq<u8>, p: G1Coords) -> bool {
    &&& p.wf()
    &&& if flag_bits(b) == 0x40 {
        p.is_identity()
    } else {
        le_value(p.x@) == g1u_x(b) && le_value(p.y@) == g1u_y(b)
    }
}

/// The components of an uncompressed G2 encoding in the curve library's layout.
pub open spec fn g2u(b: Seq<u8>, i: int) -> nat {
    if i < 3 {
        le_value(b.subrange(32 * i, 32 * i + 32))
    } else {
        le_value(without_flags(b.subrange(96, 128)))
    }
}

pub open spec fn g2_uncompressed_decodes(b: Seq<u8>) -> bool {
    &&& flag_bits(b) != 0xc0
    &&& forall|i: int| 0 <= i < 4 ==> #[trigger] g2u(b, i) < field_modulus()
    &&& flag_bits(b) == 0x40 || g2_valid(g2u(b, 0), g2u(b, 1), g2u(b, 2), g2u(b, 3))
}

pub open spec fn g2_uncompressed_point(b: Seq<u8>, p: G2Coords) -> bool {
    &&& p.wf()
    &&& if flag_bits(b) == 0x40 {
        p.is_identity()
    } else {
        &&& le_value(p.x_c0@) == g2u(b, 0) && le_value(p.x_c1@) == g2u(b, 1)
        &&& le_value(p.y_c0@) == g2u(b, 2) && le_value(p.y_c1@) == g2u(b, 3)
    }
}

/// Relies on num-bigint's `BigUint::parse_bytes` in base 10, which reads any string of
/// decimal digits, and `BigUint::to_bytes_le`.
#[verifier::external_body]
pub(crate) fn decimal_to_le(s: &str) -> (r: Option<Vec<u8>>)
    ensures
        is_decimal(s@) ==> r is Some && le_value(r->0@) == decimal_value(s@),
{
    BigUint::parse_bytes(s.as_bytes(), 10).map(|n| n.to_bytes_le())
}

/// Relies on num-bigint's `BigUint::from_bytes_le` and its `Display`, which writes the
/// number in decimal without leading zeros.
#[verifier::external_body]
pub(crate) fn le_to_decimal(b: &[u8]) -> (r: String)
    ensures
        is_decimal_of(r@, le_value(b@)),
{
    BigUint::from_bytes_le(b).to_string()
}

/// Relies on std's `Display` for `usize`: the number in decimal without leading zeros.
#[verifier::external_body]
pub(crate) fn usize_to_decimal(n: usize) -> (r: String)
    ensures
        is_decimal_of(r@, n as nat),
{
    n.to_string()
}

/// Relies on ark-ff's deserialization of an `Fq` from 32 bytes, which fails exactly when
/// the number they hold is not below the modulus.
#[verifier::external_body]
pub(crate) fn fq_bytes_in_field(b: &[u8]) -> (r: bool)
    requires
        b@.len() == 32,
    ensures
        r == (le_value(b@) < field_modulus()),
{
    Fq::deserialize_uncompressed(b).is_ok()
}

/// Relies on arkworks' negation of a G1 affine point, which keeps `x` and negates `y`.
#[verifier::external_body]
pub(crate) fn g1_negate(p: &G1Coords) -> (r: G1Coords)
    requires
        p.wf(),
    ensures
        r.wf(),
        r.x@ == p.x@,
        le_value(r.y@) == field_neg(le_value(p.y@)),
{
    let x = Fq::from_le_bytes_mod_order(&p.x);
    let y = Fq::from_le_bytes_mod_order(&p.y);
    let n = -G1Affine::new_unchecked(x, y);
    G1Coords { x: n.x.into_bigint().to_bytes_le(), y: n.y.into_bigint().to_bytes_le() }
}

/// Relies on arkworks' compressed deserialization of a G1 point (`Validate::No`):
/// `x` from the bytes with the flags of the last byte taken off (an error from the
/// modulus on), the flags (both bits set is an error), then for a sign flag the root
/// that `get_ys_from_x_unchecked` gives: the smaller for the positive flag, the larger
/// (its negation) for the negative one, an error where `x^3 + 3` is no square.
#[verifier::external_body]
pub(crate) fn g1_from_compressed(b: &[u8]) -> (r: Result<G1Coords, ()>)
    requires
        b@.len() == 32,
    ensures
        (r is Ok) == g1_compressed_decodes(b@),
        r matches Ok(p) ==> g1_compressed_point(b@, p),
        r matches Ok(p) ==> flag_bits(b@) != 0x40 ==> {
            &&& on_g1_curve(le_value(p.x@), le_value(p.y@))
            &&& flag_bits(b@) == 0x00 ==> le_value(p.y@) <= field_neg(le_value(p.y@))
            &&& flag_bits(b@) == 0x80 ==> le_value(p.y@) >= field_neg(le_value(p.y@))
            &&& g1_root(g1c_x(b@), flag_bits(b@) != 0x80) == Some(field_neg(le_value(p.y@)))
        },
        flag_bits(b@) != 0xc0 && flag_bits(b@) != 0x40 && g1c_x(b@) < field_modulus()
            && (exists|y: nat| y < field_modulus() && on_g1_curve(g1c_x(b@), y)) ==> r is Ok,
{
    let p = G1Affine::deserialize_with_mode(b, Compress::Yes, Validate::No).map_err(|_| ())?;
    Ok(G1Coords { x: p.x.into_bigint().to_bytes_le(), y: p.y.into_bigint().to_bytes_le() })
}

/// Relies on arkworks' compressed deserialization of a G2 point (`Validate::No`):
/// `x.c0` from the first 32 bytes, `x.c1` from the last 32 with the flags taken off,
/// then for a sign flag the root of the twist equation that the flag selects.
#[verifier::external_body]
pub(crate) fn g2_from_compressed(b: &[u8]) -> (r: Result<G2Coords, ()>)
    requires
        b@.len() == 64,
    ensures
        (r is Ok) == g2_compressed_decodes(b@),
        r matches Ok(p) ==> g2_compressed_point(b@, p),
        r matches Ok(p) ==> flag_bits(b@) != 0x40 ==> g2_root(g2c_x0(b@), g2c_x1(b@), flag_bits(b@) == 0x80)
            == Some((le_value(p.y_c0@), le_value(p.y_c1@))),
{
    let p = G2Affine::deserialize_with_mode(b, Compress::Yes, Validate::No).map_err(|_| ())?;
    let (x, y) = (p.x, p.y);
    Ok(G2Coords {
        x_c0: x.c0.into_bigint().to_bytes_le(),
        x_c1: x.c1.into_bigint().to_bytes_le(),
        y_c0: y.c0.into_bigint().to_bytes_le(),
        y_c1: y.c1.into_bigint().to_bytes_le(),
    })
}

/// Relies on arkworks' uncompressed deserialization of a G1 point with validation:
/// `x`, then `y` with the flags of its last byte taken off (infinity gives the identity),
/// each below the modulus, and `check()`: on the curve (BN254's G1 has cofactor one).
#[verifier::external_body]
pub(crate) fn g1_from_uncompressed(b: &[u8]) -> (r: Result<G1Coords, ()>)
    requires
        b@.len() == 64,
    ensures
        (r is Ok) == g1_uncompressed_decodes(b@),
        r matches Ok(p) ==> g1_uncompressed_point(b@, p),
{
    let p = G1Affine::deserialize_with_mode(b, Compress::No, Validate::Yes).map_err(|_| ())?;
    Ok(G1Coords { x: p.x.into_bigint().to_bytes_le(), y: p.y.into_bigint().to_bytes_le() })
}

/// Relies on arkworks' uncompressed deserialization of a G2 point with validation:
/// `x.c0, x.c1, y.c0`, then `y.c1` with the flags taken off, each below the modulus,
/// and `check()`: on the twist and in the prime-order subgroup.
#[verifier::external_body]
pub(crate) fn g2_from_uncompressed(b: &[u8]) -> (r: Result<G2Coords, ()>)
    requires
        b@.len() == 128,
    ensures
        (r is Ok) == g2_uncompressed_decodes(b@),
        r matches Ok(p) ==> g2_uncompressed_point(b@, p),
        r is Ok && flag_bits(b@) != 0x40 ==> g2_valid(g2u(b@, 0), g2u(b@, 1), g2u(b@, 2), g2u(b@, 3)),
{
    let p = G2Affine::deserialize_with_mode(b, Compress::No, Validate::Yes).map_err(|_| ())?;
    let (x, y) = (p.x, p.y);
    Ok(G2Coords {
        x_c0: x.c0.into_bigint().to_bytes_le(),
        x_c1: x.c1.into_bigint().to_bytes_le(),
        y_c0: y.c0.into_bigint().to_bytes_le(),
        y_c1: y.c1.into_bigint().to_bytes_le(),
    })
}

/// Relies on arkworks' `Bn254::multi_miller_loop` on one pair of points read from their
/// uncompressed bytes (the infinity flag gives the identity, which the loop skips); the
/// result is serialized uncompressed by ark-serialize, which writes its twelve
/// base-field components `c0.c0.c0` first, 32 bytes each.
#[verifier::external_body]
pub(crate) fn miller_loop(alpha: &[u8], beta: &[u8]) -> (r: Vec<Vec<u8>>)
    requires
        exists|a: G1Coords| a.wf() && alpha@ == ark_g1_bytes(a),
        exists|b: G2Coords| b.wf() && beta@ == ark_g2_bytes(b),
    ensures
        r@.len() == 12,
        forall|i: int| 0 <= i < 12 ==> is_field_bytes(#[trigger] r@[i]@),
        r.deep_view() == miller_loop_value(alpha@, beta@),
{
    let a = G1Affine::deserialize_uncompressed_unchecked(alpha).unwrap();
    let b = G2Affine::deserialize_uncompressed_unchecked(beta).unwrap();
    let mut out = Vec::new();
    Bn254::multi_miller_loop([a], [b]).0.serialize_uncompressed(&mut out).unwrap();
    out.chunks(32).map(|c| c.to_vec()).collect()
}

/// Relies on ark-groth16's `Groth16::verify_with_processed_vk` after
/// `prepare_verifying_key`, on a proof and a key read uncompressed by ark-serialize with
/// validation (points off the curve or outside the subgroup are an error), with each
/// public input read as an `Fr` from 32 bytes.
#[verifier::external_body]
pub(crate) fn groth16_verify(proof: &[u8], vk: &[u8], inputs: &Vec<Vec<u8>>) -> (r: Option<bool>)
    requires
        exists|p: Groth16Proof| proof_wf(p) && proof@ == ark_proof_bytes(p),
        exists|k: Groth16VerifyingKey| vk_wf(k) && k.gamma_abc@.len() <= u64::MAX && vk@ == ark_vk_bytes(k),
    ensures
        r == groth16_verdict(proof@, vk@, inputs.deep_view()),
{
    let proof = ark_groth16::Proof::<Bn254>::deserialize_uncompressed(proof).ok()?;
    let vk = ark_groth16::VerifyingKey::<Bn254>::deserialize_uncompressed(vk).ok()?;
    let inputs: Vec<Fr> = inputs.iter().map(|b| Fr::from_le_bytes_mod_order(b)).collect();
    let pvk = ark_groth16::prepare_verifying_key(&vk);
    ark_groth16::Groth16::<Bn254>::verify_with_processed_vk(&pvk, &inputs, &proof).ok()
}

} // verus!
