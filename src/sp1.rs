//! Conversion from the binary prover's proof bytes and public inputs, checked against a
//! verification key in the same binary layout before anything is written.
use vstd::prelude::*;
use crate::layout::{
    Groth16Proof, Groth16VerifyingKey, proof_wf, vk_wf, ark_g1_bytes, ark_g2_bytes, ark_proof_bytes,
    ark_vk_bytes, ark_proof_uncompressed, ark_vk_uncompressed,
};
use crate::error::ConversionError;
use crate::field::{le_value, pow256, is_decimal, decimal_value, is_decimal_of, field_neg};
use crate::points::{G1Coords, G2Coords, G1Point};
use crate::curve::{groth16_verdict, groth16_verify, miller_loop_value};
use crate::decode::{
    load_ark_proof_from_bytes, load_ark_groth16_verifying_key_from_bytes, proof_decodes, proof_decoded,
    vk_decodes, vk_decoded, vk_point_count, PROOF_LEN,
};
use crate::schema::{
    parse_decimal_32, negate_g1, writes_element, writes_fp12, convert_g1_to_o1js, convert_g2_to_o1js,
    compute_alpha_beta_pairing, create_default_w27, w27_components, O1jsProof, O1jsVK,
};
use crate::slots::{keyed_public_inputs, keyed_commitment_points, keyed_inputs, is_key};

verus! {

/// Reads a public input: a decimal number that fits in 32 bytes, least significant first.
pub fn parse_public_input(s: &str) -> (r: Result<Vec<u8>, ConversionError>)
    ensures
        r is Ok <==> is_decimal(s@) && decimal_value(s@) < pow256(32),
        r matches Ok(b) ==> b@.len() == 32 && le_value(b@) == decimal_value(s@),
        r is Err ==> r == Err::<Vec<u8>, ConversionError>(ConversionError::InvalidInput),
{
    match parse_decimal_32(s) {
        Some(b) => Ok(b),
        None => Err(ConversionError::InvalidInput),
    }
}

} // verus!

verus! {

/// Checks the decoded proof against the key with the curve library's Groth16 verifier.
pub fn verify_decoded(proof: &Groth16Proof, vk: &Groth16VerifyingKey, inputs: &Vec<Vec<u8>>) -> (r: Result<(), ConversionError>)
    requires
        proof_wf(*proof),
        vk_wf(*vk),
        vk.gamma_abc@.len() <= u64::MAX,
    ensures
        r is Ok <==> groth16_verdict(ark_proof_bytes(*proof), ark_vk_bytes(*vk), inputs.deep_view()) == Some(true),
        r is Err ==> r == Err::<(), ConversionError>(ConversionError::VerificationFailed),
{
    let p = ark_proof_uncompressed(proof);
    let k = ark_vk_uncompressed(vk);
    match groth16_verify(p.as_slice(), k.as_slice(), inputs) {
        Some(true) => Ok(()),
        _ => Err(ConversionError::VerificationFailed),
    }
}

/// `r` writes the commitment points `points`, keyed `ic0, ic1, ...`.
pub open spec fn ic_written(r: Seq<(String, G1Point)>, points: Seq<G1Coords>) -> bool {
    &&& r.len() == points.len()
    &&& forall|i: int| 0 <= i < r.len() ==> {
        &&& is_key((#[trigger] r[i]).0@, "ic"@, i as nat)
        &&& writes_element(r[i].1.x@, points[i].x@)
        &&& writes_element(r[i].1.y@, points[i].y@)
    }
}

/// `out` is the target schema's proof for `p`: `A` negated, and one key `pi1..piN` per
/// public input.
pub open spec fn proof_written(p: Groth16Proof, inputs: Seq<String>, out: O1jsProof) -> bool {
    &&& writes_element(out.neg_a.x@, p.a.x@)
    &&& is_decimal_of(out.neg_a.y@, field_neg(le_value(p.a.y@)))
    &&& writes_element(out.b.x_c0@, p.b.x_c0@) && writes_element(out.b.x_c1@, p.b.x_c1@)
    &&& writes_element(out.b.y_c0@, p.b.y_c0@) && writes_element(out.b.y_c1@, p.b.y_c1@)
    &&& writes_element(out.c.x@, p.c.x@) && writes_element(out.c.y@, p.c.y@)
    &&& keyed_inputs(out.public_inputs@, inputs, inputs.len())
}

pub open spec fn g2_written(q: crate::points::G2Point, p: G2Coords) -> bool {
    &&& writes_element(q.x_c0@, p.x_c0@) && writes_element(q.x_c1@, p.x_c1@)
    &&& writes_element(q.y_c0@, p.y_c0@) && writes_element(q.y_c1@, p.y_c1@)
}

/// `out` is the target schema's key for `k`, with `alpha_beta`, `w27` and one key
/// `ic0..ic(N-1)` per commitment point.
pub open spec fn vk_written(k: Groth16VerifyingKey, out: O1jsVK) -> bool {
    &&& writes_element(out.alpha.x@, k.alpha.x@) && writes_element(out.alpha.y@, k.alpha.y@)
    &&& g2_written(out.beta, k.beta)
    &&& g2_written(out.gamma, k.gamma)
    &&& g2_written(out.delta, k.delta)
    &&& writes_fp12(out.alpha_beta, miller_loop_value(ark_g1_bytes(k.alpha), ark_g2_bytes(k.beta)))
    &&& out.w27.components() == w27_components()
    &&& ic_written(out.ic_points@, k.gamma_abc@)
}

/// The target schema's proof: `A` negated, `B` and `C` as they are, one key per public input.
pub fn convert_proof_keyed(p: &Groth16Proof, public_inputs: &Vec<String>) -> (r: O1jsProof)
    requires
        proof_wf(*p),
    ensures
        proof_written(*p, public_inputs@, r),
{
    let neg_a = negate_g1(&p.a);
    O1jsProof {
        neg_a: convert_g1_to_o1js(&neg_a),
        b: convert_g2_to_o1js(&p.b),
        c: convert_g1_to_o1js(&p.c),
        public_inputs: keyed_public_inputs(public_inputs),
    }
}

/// The target schema's verification key, with one key per commitment point.
pub fn convert_vk_keyed(k: &Groth16VerifyingKey) -> (r: O1jsVK)
    requires
        vk_wf(*k),
    ensures
        vk_written(*k, r),
{
    let mut points: Vec<G1Point> = Vec::new();
    let mut i: usize = 0;
    while i < k.gamma_abc.len()
        invariant
            vk_wf(*k),
            i <= k.gamma_abc@.len(),
            points@.len() == i,
            forall|j: int| 0 <= j < i ==> writes_element((#[trigger] points@[j]).x@, k.gamma_abc@[j].x@)
                && writes_element(points@[j].y@, k.gamma_abc@[j].y@),
        decreases k.gamma_abc@.len() - i,
    {
        assert(k.gamma_abc@[i as int].wf());
        points.push(convert_g1_to_o1js(&k.gamma_abc[i]));
        i = i + 1;
    }
    let ic_points = keyed_commitment_points(&points);
    O1jsVK {
        alpha: convert_g1_to_o1js(&k.alpha),
        beta: convert_g2_to_o1js(&k.beta),
        gamma: convert_g2_to_o1js(&k.gamma),
        delta: convert_g2_to_o1js(&k.delta),
        alpha_beta: compute_alpha_beta_pairing(&k.alpha, &k.beta),
        w27: create_default_w27(),
        ic_points,
    }
}

/// The bytes of a proof of the binary prover: a 4-byte prefix, then the proof.
pub const PROOF_PREFIX_LEN: usize = 4;

/// The public inputs read as 32-byte numbers, in order.
pub open spec fn inputs_read(ib: Seq<Seq<u8>>, inputs: Seq<String>) -> bool {
    &&& ib.len() == inputs.len()
    &&& forall|i: int| 0 <= i < ib.len() ==> (#[trigger] ib[i]).len() == 32 && le_value(ib[i]) == decimal_value(inputs[i]@)
}

/// Every public input is a decimal number that fits in 32 bytes.
pub open spec fn inputs_parse(inputs: Seq<String>) -> bool {
    forall|i: int| 0 <= i < inputs.len() ==> is_decimal((#[trigger] inputs[i])@) && decimal_value(inputs[i]@) < pow256(32)
}

/// The proof (after its prefix) and the key decode, and the public inputs parse.
pub open spec fn sp1_decodes(proof_bytes: Seq<u8>, inputs: Seq<String>, vk_bytes: Seq<u8>) -> bool {
    &&& proof_bytes.len() >= PROOF_PREFIX_LEN
    &&& inputs_parse(inputs)
    &&& proof_decodes(proof_bytes.subrange(PROOF_PREFIX_LEN as int, proof_bytes.len() as int))
    &&& vk_decodes(vk_bytes)
}

/// The Groth16 verdict on what the bytes decode to.
pub open spec fn sp1_verdict(
    proof_bytes: Seq<u8>,
    inputs: Seq<String>,
    vk_bytes: Seq<u8>,
    p: Groth16Proof,
    k: Groth16VerifyingKey,
    ib: Seq<Seq<u8>>,
) -> Option<bool> {
    groth16_verdict(ark_proof_bytes(p), ark_vk_bytes(k), ib)
}

/// `p`, `k` and `ib` are the proof, key and public inputs that the bytes and strings give.
pub open spec fn sp1_decoded(
    proof_bytes: Seq<u8>,
    inputs: Seq<String>,
    vk_bytes: Seq<u8>,
    p: Groth16Proof,
    k: Groth16VerifyingKey,
    ib: Seq<Seq<u8>>,
) -> bool {
    &&& proof_decoded(proof_bytes.subrange(PROOF_PREFIX_LEN as int, proof_bytes.len() as int), p)
    &&& vk_decoded(vk_bytes, k)
    &&& inputs_read(ib, inputs)
}

/// Converts a proof of the binary prover and its public inputs, with the verification
/// key in the prover's binary layout. The proof is verified against the key first;
/// nothing is produced unless it verifies.
pub fn convert_from_sp1_groth16(proof_bytes: &[u8], public_inputs: &Vec<String>, vk_bytes: &[u8]) -> (r: Result<(O1jsProof, O1jsVK), ConversionError>)
    ensures
        !inputs_parse(public_inputs@) ==> r == Err::<(O1jsProof, O1jsVK), ConversionError>(ConversionError::InvalidInput),
        inputs_parse(public_inputs@) && proof_bytes@.len() < PROOF_PREFIX_LEN + PROOF_LEN
            ==> r == Err::<(O1jsProof, O1jsVK), ConversionError>(ConversionError::InvalidLength),
        r is Ok ==> sp1_decodes(proof_bytes@, public_inputs@, vk_bytes@),
        sp1_decodes(proof_bytes@, public_inputs@, vk_bytes@)
            && (forall|p: Groth16Proof, k: Groth16VerifyingKey, ib: Seq<Seq<u8>>|
                #[trigger] sp1_decoded(proof_bytes@, public_inputs@, vk_bytes@, p, k, ib)
                ==> sp1_verdict(proof_bytes@, public_inputs@, vk_bytes@, p, k, ib) == Some(true))
            ==> r is Ok,
        sp1_decodes(proof_bytes@, public_inputs@, vk_bytes@)
            && (forall|p: Groth16Proof, k: Groth16VerifyingKey, ib: Seq<Seq<u8>>|
                #[trigger] sp1_decoded(proof_bytes@, public_inputs@, vk_bytes@, p, k, ib)
                ==> sp1_verdict(proof_bytes@, public_inputs@, vk_bytes@, p, k, ib) != Some(true))
            ==> r == Err::<(O1jsProof, O1jsVK), ConversionError>(ConversionError::VerificationFailed),
        r matches Ok((po, vo)) ==> exists|p: Groth16Proof, k: Groth16VerifyingKey, ib: Seq<Seq<u8>>| {
            &&& sp1_decoded(proof_bytes@, public_inputs@, vk_bytes@, p, k, ib)
            &&& sp1_verdict(proof_bytes@, public_inputs@, vk_bytes@, p, k, ib) == Some(true)
            &&& proof_written(p, public_inputs@, po)
            &&& vk_written(k, vo)
        },
{
    let mut inputs: Vec<Vec<u8>> = Vec::new();
    let mut i: usize = 0;
    while i < public_inputs.len()
        invariant
            i <= public_inputs@.len(),
            inputs_read(inputs.deep_view(), public_inputs@.subrange(0, i as int)),
            forall|j: int| 0 <= j < i ==> is_decimal(public_inputs@[j]@) && decimal_value(public_inputs@[j]@) < pow256(32),
        decreases public_inputs@.len() - i,
    {
        let b = parse_public_input(public_inputs[i].as_str())?;
        let ghost prev = inputs.deep_view();
        let ghost sub = public_inputs@.subrange(0, i as int);
        inputs.push(b);
        proof {
            let dv = inputs.deep_view();
            let next = public_inputs@.subrange(0, i + 1);
            assert(dv.len() == i + 1);
            assert forall|j: int| 0 <= j < dv.len() implies (#[trigger] dv[j]).len() == 32 && le_value(dv[j]) == decimal_value(next[j]@) by {
                if j < i {
                    assert(dv[j] == prev[j]);
                    assert(next[j] == sub[j]);
                } else {
                    assert(dv[j] == b@);
                }
            }
        }
        i = i + 1;
    }
    assert(public_inputs@.subrange(0, i as int) =~= public_inputs@);
    if proof_bytes.len() < PROOF_PREFIX_LEN {
        return Err(ConversionError::InvalidLength);
    }
    let body = &proof_bytes[PROOF_PREFIX_LEN..proof_bytes.len()];
    let proof = load_ark_proof_from_bytes(body)?;
    let vk = load_ark_groth16_verifying_key_from_bytes(vk_bytes)?;
    proof {
        assert forall|j: int| 0 <= j < vk.gamma_abc@.len() implies (#[trigger] vk.gamma_abc@[j]).wf() by {
            assert(crate::decode::g1_from_gnark_compressed(crate::decode::vk_point_bytes(vk_bytes@, j), vk.gamma_abc@[j]));
        }
        assert(vk_point_count(vk_bytes@) < 0x1_0000_0000);
        assert(sp1_decoded(proof_bytes@, public_inputs@, vk_bytes@, proof, vk, inputs.deep_view()));
    }
    verify_decoded(&proof, &vk, &inputs)?;
    let po = convert_proof_keyed(&proof, public_inputs);
    let vo = convert_vk_keyed(&vk);
    Ok((po, vo))
}

} // verus!
