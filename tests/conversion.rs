use ark_bn254::{Bn254, Fq, G1Affine, G1Projective, G2Affine};
use ark_ec::pairing::Pairing;
use ark_ec::{AffineRepr, CurveGroup};
use ark_ff::{BigInteger, PrimeField};
use ark_serialize::CanonicalSerialize;
use pairing_utils::decode::{
    decompress_g1, decompress_g2, gnark_decompressed_g1_to_ark_decompressed_g1,
    load_ark_groth16_verifying_key_from_bytes, load_ark_proof_from_bytes,
};
use pairing_utils::error::ConversionError;
use pairing_utils::schema::{
    create_default_w27, field_element_to_decimal, parse_field_element, convert_g1_to_o1js,
    convert_g2_to_o1js,
};
use pairing_utils::slots::{fixed_public_inputs, keyed_public_inputs, slot_key};
use pairing_utils::snarkjs::{
    convert_from_snarkjs, convert_g1_point, convert_g2_point, negate_g1_point, SnarkjsProof, SnarkjsVK,
};
use pairing_utils::sp1::convert_from_sp1_groth16;
use pairing_utils::witness::{
    deserialize_fq12_jsvalue, make_alpha_beta_js, AlphaBetaJSInputValue, AlphaBetaPoint,
    Field12JSValue,
};

const MODULUS: &str = "21888242871839275222246405745257275088696311157297823662689037894645226208583";
const MODULUS_MINUS_2: &str = "21888242871839275222246405745257275088696311157297823662689037894645226208581";
const G2_X_C0: &str = "10857046999023057135944570762232829481370756359578518086990519993285655852781";
const G2_X_C1: &str = "11559732032986387107991004021392285783925812861821192530917403151452391805634";
const G2_Y_C0: &str = "8495653923123431417604973247489272438418190587263600148770280649306958101930";
const G2_Y_C1: &str = "4082367875863433681332203403145435568316851327593401208105741076214120093531";

fn dec(f: Fq) -> String {
    f.into_bigint().to_string()
}

fn be(f: Fq) -> Vec<u8> {
    f.into_bigint().to_bytes_be()
}

fn gnark_g1_uncompressed(p: &G1Affine) -> Vec<u8> {
    [be(p.x), be(p.y)].concat()
}

fn gnark_g2_uncompressed(p: &G2Affine) -> Vec<u8> {
    [be(p.x.c1), be(p.x.c0), be(p.y.c1), be(p.y.c0)].concat()
}

// The curve library's compressed form, reversed, with its flag turned into the binary prover's.
fn gnark_compressed<T: CanonicalSerialize>(p: &T) -> Vec<u8> {
    let mut b = Vec::new();
    p.serialize_compressed(&mut b).unwrap();
    b.reverse();
    let flag = match b[0] & 0xc0 {
        0x00 => 0x80,
        0x80 => 0xc0,
        other => other,
    };
    b[0] = (b[0] & 0x3f) | flag;
    b
}

fn strs(v: &[&str]) -> Vec<String> {
    v.iter().map(|s| s.to_string()).collect()
}

fn g1_gen_json() -> Vec<String> {
    strs(&["1", "2", "1"])
}

fn g2_gen_json() -> Vec<Vec<String>> {
    vec![strs(&[G2_X_C0, G2_X_C1]), strs(&[G2_Y_C0, G2_Y_C1]), strs(&["1", "0"])]
}

fn snarkjs_vk(n_public: usize, n_ic: usize) -> SnarkjsVK {
    SnarkjsVK {
        n_public,
        vk_alpha_1: g1_gen_json(),
        vk_beta_2: g2_gen_json(),
        vk_gamma_2: g2_gen_json(),
        vk_delta_2: g2_gen_json(),
        ic: (0..n_ic).map(|_| g1_gen_json()).collect(),
    }
}

fn snarkjs_proof() -> SnarkjsProof {
    SnarkjsProof { pi_a: g1_gen_json(), pi_b: g2_gen_json(), pi_c: g1_gen_json() }
}

#[test]
fn decompress_g1_generator_positive_flag() {
    let mut b = vec![0u8; 32];
    b[0] = 0x80;
    b[31] = 1;
    let p = convert_g1_to_o1js(&decompress_g1(&b).unwrap());
    assert_eq!(p.x, "1");
    assert_eq!(p.y, "2");
}

#[test]
fn decompress_g1_sign_flip_negates_y() {
    let mut b = vec![0u8; 32];
    b[0] = 0xc0;
    b[31] = 1;
    let p = convert_g1_to_o1js(&decompress_g1(&b).unwrap());
    assert_eq!(p.x, "1");
    assert_eq!(p.y, MODULUS_MINUS_2);
}

#[test]
fn decompress_g1_unknown_flag_is_invalid_input() {
    let mut b = vec![0u8; 32];
    b[31] = 1;
    assert_eq!(decompress_g1(&b), Err(ConversionError::InvalidInput));
}

#[test]
fn decompress_g2_round_trip_of_generator() {
    let g = G2Affine::generator();
    let p = convert_g2_to_o1js(&decompress_g2(&gnark_compressed(&g)).unwrap());
    assert_eq!(p.x_c0, G2_X_C0);
    assert_eq!(p.x_c1, G2_X_C1);
    assert_eq!(p.y_c0, G2_Y_C0);
    assert_eq!(p.y_c1, G2_Y_C1);
}

#[test]
fn decompress_g1_round_trip_of_multiple() {
    let q = (G1Projective::from(G1Affine::generator()) * ark_bn254::Fr::from(7u64)).into_affine();
    let p = convert_g1_to_o1js(&decompress_g1(&gnark_compressed(&q)).unwrap());
    assert_eq!(p.x, dec(q.x));
    assert_eq!(p.y, dec(q.y));
}

#[test]
fn uncompressed_zero_is_infinity() {
    let p = convert_g1_to_o1js(&gnark_decompressed_g1_to_ark_decompressed_g1(&[0u8; 64]).unwrap());
    assert_eq!(p.x, "0");
    assert_eq!(p.y, "0");
}

#[test]
fn uncompressed_off_curve_point_is_rejected() {
    let mut b = vec![0u8; 64];
    b[31] = 1;
    b[63] = 3;
    assert_eq!(gnark_decompressed_g1_to_ark_decompressed_g1(&b), Err(ConversionError::G1CompressionError));
}

#[test]
fn short_proof_buffer_is_rejected() {
    assert_eq!(load_ark_proof_from_bytes(&[0u8; 255]), Err(ConversionError::InvalidLength));
}

#[test]
fn verifying_key_with_missing_points_is_rejected() {
    let mut vk = vec_vk(2);
    vk.truncate(vk.len() - 32);
    assert_eq!(load_ark_groth16_verifying_key_from_bytes(&vk), Err(ConversionError::InvalidLength));
}

#[test]
fn verifying_key_reads_its_points() {
    let vk = load_ark_groth16_verifying_key_from_bytes(&vec_vk(3)).unwrap();
    assert_eq!(vk.gamma_abc.len(), 3);
    let p = convert_g1_to_o1js(&vk.gamma_abc[2]);
    assert_eq!((p.x.as_str(), p.y.as_str()), ("1", "2"));
}

#[test]
fn negation_of_generator() {
    let p = negate_g1_point(&g1_gen_json()).unwrap();
    assert_eq!(p.x, "1");
    assert_eq!(p.y, MODULUS_MINUS_2);
}

#[test]
fn negation_twice_gives_the_point_back() {
    let once = negate_g1_point(&g1_gen_json()).unwrap();
    let twice = negate_g1_point(&vec![once.x, once.y]).unwrap();
    assert_eq!(twice.x, "1");
    assert_eq!(twice.y, "2");
}

#[test]
fn negation_rejects_off_curve_point() {
    assert_eq!(negate_g1_point(&strs(&["1", "3"])), Err(ConversionError::G1CompressionError));
}

#[test]
fn zero_field_element_is_written_as_zero() {
    assert_eq!(field_element_to_decimal(&vec![0u8; 32]), "0");
}

#[test]
fn field_element_written_in_decimal() {
    let mut b = vec![0u8; 32];
    b[0] = 0x2c;
    b[1] = 0x01;
    assert_eq!(field_element_to_decimal(&b), "300");
}

#[test]
fn field_element_parse_bounds() {
    assert_eq!(parse_field_element(MODULUS), Err(ConversionError::InvalidFieldElement));
    assert_eq!(parse_field_element("12a"), Err(ConversionError::InvalidFieldElement));
    assert_eq!(parse_field_element(""), Err(ConversionError::InvalidFieldElement));
    assert_eq!(parse_field_element("-1"), Err(ConversionError::InvalidFieldElement));
    let b = parse_field_element("258").unwrap();
    assert_eq!(b.len(), 32);
    assert_eq!((b[0], b[1], b[2]), (2, 1, 0));
    assert!(parse_field_element(MODULUS_MINUS_2).is_ok());
}

#[test]
fn w27_constant() {
    let w = create_default_w27();
    assert_eq!(w.g20, "8204864362109909869166472767738877274689483185363591877943943203703805152849");
    assert_eq!(w.g21, "17912368812864921115467448876996876278487602260484145953989158612875588124088");
    for s in [&w.g00, &w.g01, &w.g10, &w.g11, &w.h00, &w.h01, &w.h10, &w.h11, &w.h20, &w.h21] {
        assert_eq!(s, "0");
    }
    assert_eq!(create_default_w27(), w);
}

#[test]
fn slot_keys_and_fixed_slots() {
    assert_eq!(slot_key("pi", 12), "pi12");
    assert_eq!(slot_key("ic", 0), "ic0");
    let six = strs(&["1", "2", "3", "4", "5", "6"]);
    assert_eq!(
        fixed_public_inputs(&six),
        Err(ConversionError::TooManyValues { found: 6, capacity: 5 })
    );
    let keyed = keyed_public_inputs(&six);
    assert_eq!(keyed.len(), 6);
    assert_eq!(keyed[5], ("pi6".to_string(), "6".to_string()));
}

#[test]
fn snarkjs_three_inputs_convert_with_zero_slots() {
    let inputs = strs(&["11", "22", "33"]);
    let (p, v) = convert_from_snarkjs(&snarkjs_proof(), &inputs, &snarkjs_vk(3, 4)).unwrap();
    let pis: Vec<(String, String)> = p.public_inputs.clone();
    assert_eq!(pis.len(), 5);
    assert_eq!(pis[0], ("pi1".to_string(), "11".to_string()));
    assert_eq!(pis[2], ("pi3".to_string(), "33".to_string()));
    assert_eq!(pis[3], ("pi4".to_string(), "0".to_string()));
    assert_eq!(pis[4], ("pi5".to_string(), "0".to_string()));
    assert_eq!(p.neg_a.x, "1");
    assert_eq!(p.neg_a.y, MODULUS_MINUS_2);
    assert_eq!(p.b.x_c1, G2_X_C1);
    assert_eq!(v.ic_points.len(), 6);
    assert_eq!(v.ic_points[3].0, "ic3");
    assert_eq!(v.ic_points[3].1.y, "2");
    assert_eq!(v.ic_points[4].1.x, "0");
    assert_eq!(v.ic_points[5].1.y, "0");
    assert_eq!(v.w27, create_default_w27());
}

#[test]
fn snarkjs_alpha_beta_matches_miller_loop() {
    let (_, v) = convert_from_snarkjs(&snarkjs_proof(), &strs(&["5"]), &snarkjs_vk(1, 2)).unwrap();
    let m = Bn254::multi_miller_loop([G1Affine::generator()], [G2Affine::generator()]).0;
    assert_eq!(v.alpha_beta.g00, dec(m.c0.c0.c0));
    assert_eq!(v.alpha_beta.h21, dec(m.c1.c2.c1));
    let (_, v2) = convert_from_snarkjs(&snarkjs_proof(), &strs(&["6", "7"]), &snarkjs_vk(2, 3)).unwrap();
    assert_eq!(v.alpha_beta, v2.alpha_beta);
}

#[test]
fn snarkjs_missing_commitment_point_rejected_before_decoding() {
    let mut proof = snarkjs_proof();
    proof.pi_a = strs(&["not a number"]);
    let r = convert_from_snarkjs(&proof, &strs(&["1", "2", "3"]), &snarkjs_vk(3, 3));
    assert_eq!(r, Err(ConversionError::CommitmentCountMismatch { found: 3, public_inputs: 3 }));
}

#[test]
fn snarkjs_declared_count_mismatch_rejected() {
    let r = convert_from_snarkjs(&snarkjs_proof(), &strs(&["1", "2"]), &snarkjs_vk(3, 4));
    assert_eq!(r, Err(ConversionError::PublicInputCountMismatch { declared: 3, supplied: 2 }));
}

#[test]
fn snarkjs_too_many_inputs_rejected() {
    let inputs = strs(&["1", "2", "3", "4", "5", "6"]);
    let r = convert_from_snarkjs(&snarkjs_proof(), &inputs, &snarkjs_vk(6, 7));
    assert_eq!(r, Err(ConversionError::TooManyValues { found: 6, capacity: 5 }));
}

// A key whose points are all generators, with `n` commitment points.
fn vec_vk(n: u32) -> Vec<u8> {
    let g1 = gnark_compressed(&G1Affine::generator());
    let g2 = gnark_compressed(&G2Affine::generator());
    let mut b = Vec::new();
    b.extend_from_slice(&g1);
    b.extend_from_slice(&[0u8; 32]);
    b.extend_from_slice(&g2);
    b.extend_from_slice(&g2);
    b.extend_from_slice(&[0u8; 32]);
    b.extend_from_slice(&g2);
    b.extend_from_slice(&n.to_be_bytes());
    for _ in 0..n {
        b.extend_from_slice(&g1);
    }
    b
}

// With every key point a generator and the input 1, A = 4G and C = G verify.
fn proof_bytes(a_multiple: u64) -> Vec<u8> {
    let g1 = G1Affine::generator();
    let a = (G1Projective::from(g1) * ark_bn254::Fr::from(a_multiple)).into_affine();
    let mut b = vec![0u8; 4];
    b.extend_from_slice(&gnark_g1_uncompressed(&a));
    b.extend_from_slice(&gnark_g2_uncompressed(&G2Affine::generator()));
    b.extend_from_slice(&gnark_g1_uncompressed(&g1));
    b
}

#[test]
fn sp1_valid_proof_converts_with_keyed_fields() {
    let (p, v) = convert_from_sp1_groth16(&proof_bytes(4), &strs(&["1"]), &vec_vk(2)).unwrap();
    let a = (G1Projective::from(G1Affine::generator()) * ark_bn254::Fr::from(4u64)).into_affine();
    assert_eq!(p.neg_a.x, dec(a.x));
    assert_eq!(p.neg_a.y, dec((-a).y));
    assert_eq!(p.c.x, "1");
    assert_eq!(p.b.x_c0, G2_X_C0);
    assert_eq!(p.b.y_c1, G2_Y_C1);
    assert_eq!(p.public_inputs, vec![("pi1".to_string(), "1".to_string())]);
    assert_eq!(v.ic_points.len(), 2);
    assert_eq!(v.ic_points[1].0, "ic1");
    assert_eq!(v.beta.x_c0, G2_X_C0);
    assert_eq!(v.w27, create_default_w27());
}

#[test]
fn sp1_failing_proof_is_verification_failure() {
    let r = convert_from_sp1_groth16(&proof_bytes(5), &strs(&["1"]), &vec_vk(2));
    assert_eq!(r, Err(ConversionError::VerificationFailed));
}

#[test]
fn sp1_non_numeric_input_rejected() {
    let r = convert_from_sp1_groth16(&proof_bytes(4), &strs(&["x1"]), &vec_vk(2));
    assert_eq!(r, Err(ConversionError::InvalidInput));
}

#[test]
fn alpha_beta_from_js_values() {
    let input = AlphaBetaJSInputValue {
        alpha: AlphaBetaPoint {
            x: "1".to_string(),
            y: "2".to_string(),
            x_c0: None,
            x_c1: None,
            y_c0: None,
            y_c1: None,
        },
        beta: AlphaBetaPoint {
            x: String::new(),
            y: String::new(),
            x_c0: Some(G2_X_C0.to_string()),
            x_c1: Some(G2_X_C1.to_string()),
            y_c0: Some(G2_Y_C0.to_string()),
            y_c1: Some(G2_Y_C1.to_string()),
        },
    };
    let out = make_alpha_beta_js(&input).unwrap();
    let m = Bn254::multi_miller_loop([G1Affine::generator()], [G2Affine::generator()]).0;
    assert_eq!(out.g10, dec(m.c0.c1.c0));
    assert_eq!(out.h11, dec(m.c1.c1.c1));
    let mut missing = input.clone();
    missing.beta.y_c1 = None;
    assert_eq!(make_alpha_beta_js(&missing), Err(ConversionError::InvalidInput));
}

#[test]
fn fq12_components_parsed() {
    let mut f = Field12JSValue {
        g00: "1".to_string(),
        g01: "0".to_string(),
        g10: "0".to_string(),
        g11: "0".to_string(),
        g20: "0".to_string(),
        g21: "0".to_string(),
        h00: "0".to_string(),
        h01: "0".to_string(),
        h10: "0".to_string(),
        h11: "0".to_string(),
        h20: "0".to_string(),
        h21: "256".to_string(),
    };
    let c = deserialize_fq12_jsvalue(&f).unwrap();
    assert_eq!(c.len(), 12);
    assert_eq!(c[0][0], 1);
    assert_eq!((c[11][0], c[11][1]), (0, 1));
    f.h00 = MODULUS.to_string();
    assert_eq!(deserialize_fq12_jsvalue(&f), Err(ConversionError::InvalidFieldElement));
}

#[test]
fn json_g1_point_written_canonically() {
    let p = convert_g1_point(&strs(&["0001", "2"])).unwrap();
    assert_eq!((p.x.as_str(), p.y.as_str()), ("1", "2"));
    assert_eq!(convert_g1_point(&strs(&["a", "b"])), Err(ConversionError::InvalidFieldElement));
    assert_eq!(convert_g1_point(&strs(&[MODULUS, "2"])), Err(ConversionError::InvalidFieldElement));
    assert_eq!(convert_g1_point(&strs(&["1", "3"])), Err(ConversionError::G1CompressionError));
}

#[test]
fn json_g2_point_checked() {
    let p = convert_g2_point(&g2_gen_json()).unwrap();
    assert_eq!(p.y_c0, G2_Y_C0);
    let mut bad = g2_gen_json();
    bad[1][1] = "5".to_string();
    assert_eq!(convert_g2_point(&bad), Err(ConversionError::G2CompressionError));
    bad[1][1] = "x".to_string();
    assert_eq!(convert_g2_point(&bad), Err(ConversionError::InvalidFieldElement));
}

#[test]
fn snarkjs_non_numeric_c_rejected() {
    let mut proof = snarkjs_proof();
    proof.pi_c = strs(&["c", "2"]);
    let r = convert_from_snarkjs(&proof, &strs(&["1"]), &snarkjs_vk(1, 2));
    assert_eq!(r, Err(ConversionError::InvalidFieldElement));
}

#[test]
fn sp1_short_proof_is_invalid_length() {
    let r = convert_from_sp1_groth16(&[0u8; 100], &strs(&["1"]), &vec_vk(2));
    assert_eq!(r, Err(ConversionError::InvalidLength));
}
