//! Conversion from the JSON prover's proof, public inputs and verification key, whose
//! points are written as decimal coordinates.
use vstd::prelude::*;
use crate::layout::{ark_g1_bytes, ark_g2_bytes};
use crate::error::ConversionError;
use crate::field::{le_value, field_modulus, field_neg, is_decimal, decimal_value, lemma_field_bytes_top_bits};
use crate::points::{G1Coords, G2Coords, G1Point, G2Point};
use crate::curve::{g1_from_uncompressed, g2_from_uncompressed, on_g1_curve, miller_loop_value, g2_valid, without_flags, flag_bits, g2u};
use crate::schema::{
    parse_field_element, negate_g1, writes_fp12, convert_g1_to_o1js, convert_g2_to_o1js,
    compute_alpha_beta_pairing, create_default_w27, w27_components, O1jsProof, O1jsVK,
};
use crate::slots::{fixed_public_inputs, fixed_commitment_points, keyed_inputs, PUBLIC_INPUT_SLOTS, COMMITMENT_SLOTS};

verus! {

/// A proof of the JSON prover: `pi_a` and `pi_c` as `[x, y, ...]`, `pi_b` as
/// `[[x_c0, x_c1], [y_c0, y_c1], ...]`, all decimal.
#[derive(Debug, Clone, PartialEq, Eq)]
pub struct SnarkjsProof {
    pub pi_a: Vec<String>,
    pub pi_b: Vec<Vec<String>>,
    pub pi_c: Vec<String>,
}

/// A verification key of the JSON prover.
#[derive(Debug, Clone, PartialEq, Eq)]
pub struct SnarkjsVK {
    pub n_public: usize,
    pub vk_alpha_1: Vec<String>,
    pub vk_beta_2: Vec<Vec<String>>,
    pub vk_gamma_2: Vec<Vec<String>>,
    pub vk_delta_2: Vec<Vec<String>>,
    pub ic: Vec<Vec<String>>,
}

pub open spec fn g1_shaped(p: Seq<String>) -> bool {
    p.len() >= 2
}

pub open spec fn g2_shaped(p: Seq<Vec<String>>) -> bool {
    p.len() >= 2 && p[0]@.len() >= 2 && p[1]@.len() >= 2
}

/// The value of a decimal coordinate.
pub open spec fn coord(s: String) -> nat {
    decimal_value(s@)
}

pub open spec fn valid_coord(s: String) -> bool {
    is_decimal(s@) && decimal_value(s@) < field_modulus()
}

pub open spec fn g2_coords_valid(point: Seq<Vec<String>>) -> bool {
    valid_coord(point[0]@[0]) && valid_coord(point[0]@[1]) && valid_coord(point[1]@[0]) && valid_coord(point[1]@[1])
}

/// `p` holds the coordinates that the decimal strings `point` give.
pub open spec fn g1_read_from(point: Seq<String>, p: G1Coords) -> bool {
    p.wf() && le_value(p.x@) == coord(point[0]) && le_value(p.y@) == coord(point[1])
}

/// `p` holds the coordinates that the decimal strings `point` give.
pub open spec fn g2_read_from(point: Seq<Vec<String>>, p: G2Coords) -> bool {
    &&& p.wf()
    &&& le_value(p.x_c0@) == coord(point[0]@[0])
    &&& le_value(p.x_c1@) == coord(point[0]@[1])
    &&& le_value(p.y_c0@) == coord(point[1]@[0])
    &&& le_value(p.y_c1@) == coord(point[1]@[1])
}

/// The decimal coordinates of a valid G1 point: canonical field elements on the curve.
pub open spec fn g1_json_valid(point: Seq<String>) -> bool {
    valid_coord(point[0]) && valid_coord(point[1]) && on_g1_curve(coord(point[0]), coord(point[1]))
}

/// The decimal components of a valid G2 point: canonical field elements, on the twist
/// and in the prime-order subgroup.
pub open spec fn g2_json_valid(point: Seq<Vec<String>>) -> bool {
    &&& g2_coords_valid(point)
    &&& g2_valid(coord(point[0]@[0]), coord(point[0]@[1]), coord(point[1]@[0]), coord(point[1]@[1]))
}

/// Reads a G1 point from decimal coordinates and checks that it lies on the curve (every
/// point of BN254's G1 curve is in its group).
pub fn parse_g1_point(point: &Vec<String>) -> (r: Result<G1Coords, ConversionError>)
    requires
        g1_shaped(point@),
    ensures
        (r is Ok) == g1_json_valid(point@),
        !(valid_coord(point@[0]) && valid_coord(point@[1])) ==> r == Err::<G1Coords, ConversionError>(ConversionError::InvalidFieldElement),
        valid_coord(point@[0]) && valid_coord(point@[1]) && r is Err
            ==> r == Err::<G1Coords, ConversionError>(ConversionError::G1CompressionError),
        r matches Ok(p) ==> g1_read_from(point@, p) && on_g1_curve(le_value(p.x@), le_value(p.y@)),
{
    let x = parse_field_element(point[0].as_str())?;
    let y = parse_field_element(point[1].as_str())?;
    let mut buf = x.clone();
    buf.extend_from_slice(y.as_slice());
    proof {
        lemma_field_bytes_top_bits(y@);
        let t = y@[31];
        assert(t < 64 ==> t & 0x3f == t) by (bit_vector);
        assert(buf@ =~= x@ + y@);
        assert(buf@.subrange(0, 32) =~= x@);
        assert(buf@.subrange(32, 64) =~= y@);
        assert(without_flags(y@) =~= y@);
        assert(flag_bits(buf@) == 0);
    }
    match g1_from_uncompressed(buf.as_slice()) {
        Ok(p) => Ok(p),
        Err(_) => Err(ConversionError::G1CompressionError),
    }
}

/// Reads a G2 point from decimal components and checks that it lies on the twist, in
/// the prime-order subgroup.
pub fn parse_g2_point(point: &Vec<Vec<String>>) -> (r: Result<G2Coords, ConversionError>)
    requires
        g2_shaped(point@),
    ensures
        (r is Ok) == g2_json_valid(point@),
        !g2_coords_valid(point@) ==> r == Err::<G2Coords, ConversionError>(ConversionError::InvalidFieldElement),
        g2_coords_valid(point@) && r is Err ==> r == Err::<G2Coords, ConversionError>(ConversionError::G2CompressionError),
        r matches Ok(p) ==> g2_read_from(point@, p),
{
    let x_c0 = parse_field_element(point[0][0].as_str())?;
    let x_c1 = parse_field_element(point[0][1].as_str())?;
    let y_c0 = parse_field_element(point[1][0].as_str())?;
    let y_c1 = parse_field_element(point[1][1].as_str())?;
    let mut buf = x_c0.clone();
    buf.extend_from_slice(x_c1.as_slice());
    buf.extend_from_slice(y_c0.as_slice());
    buf.extend_from_slice(y_c1.as_slice());
    proof {
        lemma_field_bytes_top_bits(y_c1@);
        let t = y_c1@[31];
        assert(t < 64 ==> t & 0x3f == t) by (bit_vector);
        assert(buf@ =~= x_c0@ + x_c1@ + y_c0@ + y_c1@);
        assert(buf@.subrange(0, 32) =~= x_c0@);
        assert(buf@.subrange(32, 64) =~= x_c1@);
        assert(buf@.subrange(64, 96) =~= y_c0@);
        assert(buf@.subrange(96, 128) =~= y_c1@);
        assert(without_flags(y_c1@) =~= y_c1@);
        assert(flag_bits(buf@) == 0);
        assert(g2u(buf@, 0) == le_value(x_c0@));
        assert(g2u(buf@, 1) == le_value(x_c1@));
        assert(g2u(buf@, 2) == le_value(y_c0@));
        assert(g2u(buf@, 3) == le_value(y_c1@));
    }
    match g2_from_uncompressed(buf.as_slice()) {
        Ok(p) => Ok(p),
        Err(_) => Err(ConversionError::G2CompressionError),
    }
}

/// Reads the point `A` of a proof and negates it, in the target schema's form.
pub fn negate_g1_point(point: &Vec<String>) -> (r: Result<G1Point, ConversionError>)
    requires
        g1_shaped(point@),
    ensures
        (r is Ok) == g1_json_valid(point@),
        !(valid_coord(point@[0]) && valid_coord(point@[1])) ==> r == Err::<G1Point, ConversionError>(ConversionError::InvalidFieldElement),
        valid_coord(point@[0]) && valid_coord(point@[1]) && r is Err
            ==> r == Err::<G1Point, ConversionError>(ConversionError::G1CompressionError),
        r matches Ok(q) ==> {
            &&& crate::field::is_decimal_of(q.x@, coord(point@[0]))
            &&& crate::field::is_decimal_of(q.y@, field_neg(coord(point@[1])))
        },
{
    let p = parse_g1_point(point)?;
    let n = negate_g1(&p);
    Ok(convert_g1_to_o1js(&n))
}

/// `q` writes the G1 point `point` in canonical decimals.
pub open spec fn g1_written(q: G1Point, point: Seq<String>) -> bool {
    crate::field::is_decimal_of(q.x@, coord(point[0])) && crate::field::is_decimal_of(q.y@, coord(point[1]))
}

/// `q` writes the G2 point `point` in canonical decimals.
pub open spec fn g2_written(q: G2Point, point: Seq<Vec<String>>) -> bool {
    &&& crate::field::is_decimal_of(q.x_c0@, coord(point[0]@[0]))
    &&& crate::field::is_decimal_of(q.x_c1@, coord(point[0]@[1]))
    &&& crate::field::is_decimal_of(q.y_c0@, coord(point[1]@[0]))
    &&& crate::field::is_decimal_of(q.y_c1@, coord(point[1]@[1]))
}

/// Reads a G1 point given in decimal and writes it in canonical decimals.
pub fn convert_g1_point(point: &Vec<String>) -> (r: Result<G1Point, ConversionError>)
    requires
        g1_shaped(point@),
    ensures
        (r is Ok) == g1_json_valid(point@),
        !(valid_coord(point@[0]) && valid_coord(point@[1])) ==> r == Err::<G1Point, ConversionError>(ConversionError::InvalidFieldElement),
        valid_coord(point@[0]) && valid_coord(point@[1]) && r is Err
            ==> r == Err::<G1Point, ConversionError>(ConversionError::G1CompressionError),
        r matches Ok(q) ==> g1_written(q, point@),
{
    let p = parse_g1_point(point)?;
    Ok(convert_g1_to_o1js(&p))
}

/// Reads a G2 point given in decimal and writes it in canonical decimals.
pub fn convert_g2_point(point: &Vec<Vec<String>>) -> (r: Result<G2Point, ConversionError>)
    requires
        g2_shaped(point@),
    ensures
        (r is Ok) == g2_json_valid(point@),
        !g2_coords_valid(point@) ==> r == Err::<G2Point, ConversionError>(ConversionError::InvalidFieldElement),
        g2_coords_valid(point@) && r is Err ==> r == Err::<G2Point, ConversionError>(ConversionError::G2CompressionError),
        r matches Ok(q) ==> g2_written(q, point@),
{
    let p = parse_g2_point(point)?;
    Ok(convert_g2_to_o1js(&p))
}

/// The counts that a key and its public inputs must agree on: the key declares as many
/// public inputs as were supplied, and holds one commitment point more.
pub fn check_counts(n_public: usize, n_inputs: usize, n_ic: usize) -> (r: Result<(), ConversionError>)
    ensures
        n_public != n_inputs ==> r == Err::<(), ConversionError>(
            ConversionError::PublicInputCountMismatch { declared: n_public, supplied: n_inputs },
        ),
        n_public == n_inputs && n_ic != n_inputs + 1 ==> r == Err::<(), ConversionError>(
            ConversionError::CommitmentCountMismatch { found: n_ic, public_inputs: n_inputs },
        ),
        n_public == n_inputs && n_ic == n_inputs + 1 ==> r is Ok,
{
    if n_public != n_inputs {
        return Err(ConversionError::PublicInputCountMismatch { declared: n_public, supplied: n_inputs });
    }
    if n_ic == 0 || n_ic - 1 != n_inputs {
        return Err(ConversionError::CommitmentCountMismatch { found: n_ic, public_inputs: n_inputs });
    }
    Ok(())
}

} // verus!

verus! {

pub open spec fn proof_shaped(p: SnarkjsProof) -> bool {
    g1_shaped(p.pi_a@) && g2_shaped(p.pi_b@) && g1_shaped(p.pi_c@)
}

pub open spec fn vk_shaped(v: SnarkjsVK) -> bool {
    &&& g1_shaped(v.vk_alpha_1@)
    &&& g2_shaped(v.vk_beta_2@)
    &&& g2_shaped(v.vk_gamma_2@)
    &&& g2_shaped(v.vk_delta_2@)
    &&& forall|i: int| 0 <= i < v.ic@.len() ==> g1_shaped(#[trigger] v.ic@[i]@)
}

/// The commitment points of the key in `slots` slots `ic0, ic1, ...`, absent ones zero.
pub open spec fn ic_slots(r: Seq<(String, G1Point)>, ic: Seq<Vec<String>>, slots: nat) -> bool {
    &&& r.len() == slots
    &&& forall|i: int| 0 <= i < slots ==> {
        &&& crate::slots::is_key((#[trigger] r[i]).0@, "ic"@, i as nat)
        &&& if i < ic.len() {
            g1_written(r[i].1, ic[i]@)
        } else {
            r[i].1.x@ == "0"@ && r[i].1.y@ == "0"@
        }
    }
}

/// `(p, v)` is the target schema's proof and key for a proof, public inputs and key of
/// the JSON prover.
pub open spec fn converted_from_snarkjs(
    proof: SnarkjsProof,
    inputs: Seq<String>,
    vk: SnarkjsVK,
    p: O1jsProof,
    v: O1jsVK,
) -> bool {
    &&& crate::field::is_decimal_of(p.neg_a.x@, coord(proof.pi_a@[0]))
    &&& crate::field::is_decimal_of(p.neg_a.y@, field_neg(coord(proof.pi_a@[1])))
    &&& proof_points_valid(proof) && vk_points_valid(vk)
    &&& g2_written(p.b, proof.pi_b@)
    &&& g1_written(p.c, proof.pi_c@)
    &&& keyed_inputs(p.public_inputs@, inputs, PUBLIC_INPUT_SLOTS as nat)
    &&& g1_written(v.alpha, vk.vk_alpha_1@)
    &&& g2_written(v.beta, vk.vk_beta_2@)
    &&& g2_written(v.gamma, vk.vk_gamma_2@)
    &&& g2_written(v.delta, vk.vk_delta_2@)
    &&& exists|a: G1Coords, b: G2Coords|
        g1_read_from(vk.vk_alpha_1@, a) && g2_read_from(vk.vk_beta_2@, b) && writes_fp12(
            v.alpha_beta,
            miller_loop_value(ark_g1_bytes(a), ark_g2_bytes(b)),
        )
    &&& v.w27.components() == w27_components()
    &&& ic_slots(v.ic_points@, vk.ic@, COMMITMENT_SLOTS as nat)
}

/// Every point of the proof is valid.
pub open spec fn proof_points_valid(p: SnarkjsProof) -> bool {
    g1_json_valid(p.pi_a@) && g2_json_valid(p.pi_b@) && g1_json_valid(p.pi_c@)
}

/// Every point of the key is valid.
pub open spec fn vk_points_valid(v: SnarkjsVK) -> bool {
    &&& g1_json_valid(v.vk_alpha_1@)
    &&& g2_json_valid(v.vk_beta_2@) && g2_json_valid(v.vk_gamma_2@) && g2_json_valid(v.vk_delta_2@)
    &&& forall|i: int| 0 <= i < v.ic@.len() ==> #[trigger] g1_json_valid(v.ic@[i]@)
}

fn shapes_ok(proof: &SnarkjsProof, vk: &SnarkjsVK) -> (r: bool)
    ensures
        r == (proof_shaped(*proof) && vk_shaped(*vk)),
{
    let g1 = |p: &Vec<String>| -> (r: bool)
        ensures r == g1_shaped(p@)
        { p.len() >= 2 };
    let g2 = |p: &Vec<Vec<String>>| -> (r: bool)
        ensures r == g2_shaped(p@)
        { p.len() >= 2 && p[0].len() >= 2 && p[1].len() >= 2 };
    if !(g1(&proof.pi_a) && g2(&proof.pi_b) && g1(&proof.pi_c)) {
        return false;
    }
    if !(g1(&vk.vk_alpha_1) && g2(&vk.vk_beta_2) && g2(&vk.vk_gamma_2) && g2(&vk.vk_delta_2)) {
        return false;
    }
    let mut i: usize = 0;
    while i < vk.ic.len()
        invariant
            i <= vk.ic@.len(),
            forall|k: int| 0 <= k < i ==> g1_shaped(#[trigger] vk.ic@[k]@),
        decreases vk.ic@.len() - i,
    {
        if vk.ic[i].len() < 2 {
            return false;
        }
        i = i + 1;
    }
    true
}

/// Converts a proof, its public inputs and a verification key of the JSON prover into
/// the target schema, with the fixed slots `pi1..pi5` and `ic0..ic5`. The counts are
/// checked before anything else is read.
pub fn convert_from_snarkjs(proof: &SnarkjsProof, public_inputs: &Vec<String>, vk: &SnarkjsVK) -> (r: Result<(O1jsProof, O1jsVK), ConversionError>)
    ensures
        vk.n_public != public_inputs@.len() ==> r == Err::<(O1jsProof, O1jsVK), ConversionError>(
            ConversionError::PublicInputCountMismatch { declared: vk.n_public, supplied: public_inputs@.len() as usize },
        ),
        vk.n_public == public_inputs@.len() && vk.ic@.len() != public_inputs@.len() + 1
            ==> r == Err::<(O1jsProof, O1jsVK), ConversionError>(
            ConversionError::CommitmentCountMismatch { found: vk.ic@.len() as usize, public_inputs: public_inputs@.len() as usize },
        ),
        r is Ok ==> vk.n_public == public_inputs@.len() && vk.ic@.len() == public_inputs@.len() + 1,
        vk.n_public == public_inputs@.len() && vk.ic@.len() == public_inputs@.len() + 1
            && public_inputs@.len() > PUBLIC_INPUT_SLOTS ==> r == Err::<(O1jsProof, O1jsVK), ConversionError>(
            ConversionError::TooManyValues { found: public_inputs@.len() as usize, capacity: PUBLIC_INPUT_SLOTS },
        ),
        vk.n_public == public_inputs@.len() && vk.ic@.len() == public_inputs@.len() + 1
            && public_inputs@.len() <= PUBLIC_INPUT_SLOTS && !(proof_shaped(*proof) && vk_shaped(*vk))
            ==> r == Err::<(O1jsProof, O1jsVK), ConversionError>(ConversionError::InvalidInput),
        vk.n_public == public_inputs@.len() && vk.ic@.len() == public_inputs@.len() + 1
            && public_inputs@.len() <= PUBLIC_INPUT_SLOTS && proof_shaped(*proof) && vk_shaped(*vk)
            ==> ((r is Ok) == (proof_points_valid(*proof) && vk_points_valid(*vk))),
        r matches Ok((p, v)) ==> converted_from_snarkjs(*proof, public_inputs@, *vk, p, v),
{
    check_counts(vk.n_public, public_inputs.len(), vk.ic.len())?;
    let pis = fixed_public_inputs(public_inputs)?;
    if !shapes_ok(proof, vk) {
        return Err(ConversionError::InvalidInput);
    }
    let neg_a = negate_g1_point(&proof.pi_a)?;
    let b = convert_g2_point(&proof.pi_b)?;
    let c = convert_g1_point(&proof.pi_c)?;
    let alpha = parse_g1_point(&vk.vk_alpha_1)?;
    let beta = parse_g2_point(&vk.vk_beta_2)?;
    let alpha_out = convert_g1_to_o1js(&alpha);
    let beta_out = convert_g2_to_o1js(&beta);
    let gamma = convert_g2_point(&vk.vk_gamma_2)?;
    let delta = convert_g2_point(&vk.vk_delta_2)?;
    let alpha_beta = compute_alpha_beta_pairing(&alpha, &beta);
    let mut ic: Vec<G1Point> = Vec::new();
    let mut i: usize = 0;
    while i < vk.ic.len()
        invariant
            vk_shaped(*vk),
            proof_shaped(*proof),
            vk.n_public == public_inputs@.len(),
            vk.ic@.len() == public_inputs@.len() + 1,
            public_inputs@.len() <= PUBLIC_INPUT_SLOTS,
            i <= vk.ic@.len(),
            ic@.len() == i,
            forall|k: int| 0 <= k < i ==> g1_written(#[trigger] ic@[k], vk.ic@[k]@),
            forall|k: int| 0 <= k < i ==> #[trigger] g1_json_valid(vk.ic@[k]@),
        decreases vk.ic@.len() - i,
    {
        assert(g1_shaped(vk.ic@[i as int]@));
        let q = convert_g1_point(&vk.ic[i])?;
        ic.push(q);
        i = i + 1;
    }
    let ic_points = fixed_commitment_points(&ic)?;
    assert(ic_slots(ic_points@, vk.ic@, COMMITMENT_SLOTS as nat));
    let p = O1jsProof { neg_a, b, c, public_inputs: pis };
    let v = O1jsVK {
        alpha: alpha_out,
        beta: beta_out,
        gamma,
        delta,
        alpha_beta,
        w27: create_default_w27(),
        ic_points,
    };
    Ok((p, v))
}

} // verus!
