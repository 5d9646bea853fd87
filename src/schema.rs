//! Field elements and points in the decimal form of the target schema, and the
//! values that the verification key carries for the verifier circuit.
use vstd::prelude::*;
use crate::error::ConversionError;
use crate::field::{field_neg, le_value, field_modulus, is_field_bytes, is_decimal, decimal_value, is_decimal_of, all_zero, pow256, is_decimal_str, is_all_zero, lemma_le_value_append, lemma_all_zero_value, lemma_zero_value_all_zero, lemma_modulus_below_pow256_32};
use crate::points::{G1Coords, G2Coords, G1Point, G2Point, Fp12Element};
use crate::layout::{ark_g1_bytes, ark_g2_bytes, ark_g1_point_bytes, ark_g2_point_bytes};
use crate::curve::{
    decimal_to_le, le_to_decimal, fq_bytes_in_field, g1_negate, miller_loop, miller_loop_value,
};

verus! {

/// Reads a decimal number that fits in 32 bytes, least significant byte first.
pub fn parse_decimal_32(s: &str) -> (r: Option<Vec<u8>>)
    ensures
        r is Some <==> is_decimal(s@) && decimal_value(s@) < pow256(32),
        r matches Some(b) ==> b@.len() == 32 && le_value(b@) == decimal_value(s@),
{
    if !is_decimal_str(s) {
        return None;
    }
    let le = match decimal_to_le(s) {
        Some(b) => b,
        None => return None,
    };
    let n = le.len();
    let mut out: Vec<u8> = Vec::with_capacity(32);
    let mut i: usize = 0;
    while i < 32
        invariant
            n == le@.len(),
            le_value(le@) == decimal_value(s@),
            i <= 32,
            out@.len() == i,
            forall|k: int| 0 <= k < i ==> #[trigger] out@[k] == (if k < n { le@[k] } else { 0u8 }),
        decreases 32 - i,
    {
        if i < n {
            out.push(le[i]);
        } else {
            out.push(0);
        }
        i = i + 1;
    }
    let mut j: usize = 32;
    while j < n
        invariant
            n == le@.len(),
            le_value(le@) == decimal_value(s@),
            32 <= j,
            out@.len() == 32,
            forall|k: int| 0 <= k < 32 ==> #[trigger] out@[k] == (if k < n { le@[k] } else { 0u8 }),
            forall|k: int| 32 <= k < j && k < n ==> #[trigger] le@[k] == 0,
        decreases n - j,
    {
        if le[j] != 0 {
            proof {
                let rest = le@.subrange(32, n as int);
                assert(le@ =~= out@ + rest);
                lemma_le_value_append(out@, rest);
                if le_value(rest) == 0 {
                    lemma_zero_value_all_zero(rest);
                    assert(rest[j - 32] == le@[j as int]);
                }
                assert(pow256(32) * le_value(rest) >= pow256(32)) by (nonlinear_arith)
                    requires le_value(rest) >= 1;
                assert(le_value(le@) >= pow256(32));
            }
            return None;
        }
        j = j + 1;
    }
    proof {
        if n <= 32 {
            let pad = out@.subrange(n as int, 32);
            assert(out@ =~= le@ + pad);
            assert(all_zero(pad));
            lemma_all_zero_value(pad);
            lemma_le_value_append(le@, pad);
        } else {
            let rest = le@.subrange(32, n as int);
            assert(le@ =~= out@ + rest);
            assert(all_zero(rest));
            lemma_all_zero_value(rest);
            lemma_le_value_append(out@, rest);
        }
        crate::field::lemma_le_value_bound(out@);
    }
    Some(out)
}

/// Reads a base-field element from its decimal form: a non-empty string of digits whose
/// value is below the modulus.
pub fn parse_field_element(s: &str) -> (r: Result<Vec<u8>, ConversionError>)
    ensures
        r is Ok <==> is_decimal(s@) && decimal_value(s@) < field_modulus(),
        r matches Ok(b) ==> is_field_bytes(b@) && le_value(b@) == decimal_value(s@),
        r is Err ==> r == Err::<Vec<u8>, ConversionError>(ConversionError::InvalidFieldElement),
{
    proof {
        lemma_modulus_below_pow256_32();
    }
    let out = match parse_decimal_32(s) {
        Some(b) => b,
        None => return Err(ConversionError::InvalidFieldElement),
    };
    if !fq_bytes_in_field(out.as_slice()) {
        return Err(ConversionError::InvalidFieldElement);
    }
    Ok(out)
}

/// The decimal form of a base-field element; zero is written "0".
pub fn field_element_to_decimal(b: &Vec<u8>) -> (r: String)
    ensures
        is_decimal_of(r@, le_value(b@)),
        le_value(b@) == 0 ==> r@ == seq!['0'],
{
    if is_all_zero(b.as_slice()) {
        proof {
            lemma_all_zero_value(b@);
            reveal_strlit("0");
            let z = seq!['0'];
            assert(z.drop_last() =~= Seq::<char>::empty());
            assert(z.last() == '0');
            assert(decimal_value(Seq::<char>::empty()) == 0);
            assert(decimal_value(z) == 0);
            assert(is_decimal(z));
            assert(is_decimal_of(z, 0));
            assert("0"@ == z);
        }
        String::from_str("0")
    } else {
        proof {
            if le_value(b@) == 0 {
                lemma_zero_value_all_zero(b@);
            }
        }
        le_to_decimal(b.as_slice())
    }
}

/// `s` is how the target schema writes the field element `b`.
pub open spec fn writes_element(s: Seq<char>, b: Seq<u8>) -> bool {
    &&& is_decimal_of(s, le_value(b))
    &&& le_value(b) == 0 ==> s == seq!['0']
}

/// `e` writes the twelve components `c`, `g00` first and `h21` last.
pub open spec fn writes_fp12(e: Fp12Element, c: Seq<Seq<u8>>) -> bool {
    &&& c.len() == 12
    &&& forall|i: int| 0 <= i < 12 ==> writes_element(#[trigger] e.components()[i], c[i])
}

/// Writes an element of the degree-12 extension field, given as its twelve base-field
/// components in the order `c0.c0.c0, c0.c0.c1, ..., c1.c2.c1`.
pub fn serialize_fq12(f: &Vec<Vec<u8>>) -> (r: Fp12Element)
    requires
        f@.len() == 12,
    ensures
        writes_fp12(r, f.deep_view()),
{
    let r = Fp12Element {
        g00: field_element_to_decimal(&f[0]),
        g01: field_element_to_decimal(&f[1]),
        g10: field_element_to_decimal(&f[2]),
        g11: field_element_to_decimal(&f[3]),
        g20: field_element_to_decimal(&f[4]),
        g21: field_element_to_decimal(&f[5]),
        h00: field_element_to_decimal(&f[6]),
        h01: field_element_to_decimal(&f[7]),
        h10: field_element_to_decimal(&f[8]),
        h11: field_element_to_decimal(&f[9]),
        h20: field_element_to_decimal(&f[10]),
        h21: field_element_to_decimal(&f[11]),
    };
    assert forall|i: int| 0 <= i < 12 implies writes_element(#[trigger] r.components()[i], f.deep_view()[i]) by {
        assert(f.deep_view()[i] == f@[i]@);
    }
    r
}

/// The fixed value `w27` that every verification key of this curve carries: a
/// primitive 27th root of unity used by the verifier circuit's pairing check.
pub open spec fn w27_components() -> Seq<Seq<char>> {
    seq![
        "0"@, "0"@, "0"@, "0"@,
        "8204864362109909869166472767738877274689483185363591877943943203703805152849"@,
        "17912368812864921115467448876996876278487602260484145953989158612875588124088"@,
        "0"@, "0"@, "0"@, "0"@, "0"@, "0"@,
    ]
}

/// The constant `w27` in the form of the target schema.
pub fn create_default_w27() -> (r: Fp12Element)
    ensures
        r.components() == w27_components(),
{
    let r = Fp12Element {
        g00: String::from_str("0"),
        g01: String::from_str("0"),
        g10: String::from_str("0"),
        g11: String::from_str("0"),
        g20: String::from_str("8204864362109909869166472767738877274689483185363591877943943203703805152849"),
        g21: String::from_str("17912368812864921115467448876996876278487602260484145953989158612875588124088"),
        h00: String::from_str("0"),
        h01: String::from_str("0"),
        h10: String::from_str("0"),
        h11: String::from_str("0"),
        h20: String::from_str("0"),
        h21: String::from_str("0"),
    };
    assert(r.components() =~= w27_components());
    r
}

/// The Miller-loop value `e(alpha, beta)`, before the final exponentiation, in the form
/// of the target schema.
pub fn compute_alpha_beta_pairing(alpha: &G1Coords, beta: &G2Coords) -> (r: Fp12Element)
    requires
        alpha.wf(),
        beta.wf(),
    ensures
        writes_fp12(r, miller_loop_value(ark_g1_bytes(*alpha), ark_g2_bytes(*beta))),
{
    let a = ark_g1_point_bytes(alpha);
    let b = ark_g2_point_bytes(beta);
    let f = miller_loop(a.as_slice(), b.as_slice());
    serialize_fq12(&f)
}

/// A G1 point in the target schema's form.
pub fn convert_g1_to_o1js(p: &G1Coords) -> (r: G1Point)
    ensures
        writes_element(r.x@, p.x@),
        writes_element(r.y@, p.y@),
{
    G1Point { x: field_element_to_decimal(&p.x), y: field_element_to_decimal(&p.y) }
}

/// A G2 point in the target schema's form.
pub fn convert_g2_to_o1js(p: &G2Coords) -> (r: G2Point)
    ensures
        writes_element(r.x_c0@, p.x_c0@),
        writes_element(r.x_c1@, p.x_c1@),
        writes_element(r.y_c0@, p.y_c0@),
        writes_element(r.y_c1@, p.y_c1@),
{
    G2Point {
        x_c0: field_element_to_decimal(&p.x_c0),
        x_c1: field_element_to_decimal(&p.x_c1),
        y_c0: field_element_to_decimal(&p.y_c0),
        y_c1: field_element_to_decimal(&p.y_c1),
    }
}

} // verus!

verus! {

/// A proof in the target schema; the public inputs keyed `pi1, pi2, ...`.
#[derive(Debug, Clone, PartialEq, Eq)]
pub struct O1jsProof {
    pub neg_a: G1Point,
    pub b: G2Point,
    pub c: G1Point,
    pub public_inputs: Vec<(String, String)>,
}

/// A verification key in the target schema; the commitment points keyed `ic0, ic1, ...`.
#[derive(Debug, Clone, PartialEq, Eq)]
pub struct O1jsVK {
    pub alpha: G1Point,
    pub beta: G2Point,
    pub gamma: G2Point,
    pub delta: G2Point,
    pub alpha_beta: Fp12Element,
    pub w27: Fp12Element,
    pub ic_points: Vec<(String, G1Point)>,
}

/// Negates a G1 point: `x` stays, `y` becomes its additive inverse.
pub fn negate_g1(p: &G1Coords) -> (r: G1Coords)
    requires
        p.wf(),
    ensures
        r.wf(),
        r.x@ == p.x@,
        le_value(r.y@) == field_neg(le_value(p.y@)),
{
    g1_negate(p)
}

/// Negating twice gives the point back, and a point is its own negation exactly when its
/// `y` is zero (the point at infinity among the points of the group).
pub proof fn lemma_negation_involution(p: G1Coords, q: G1Coords, r: G1Coords)
    requires
        p.wf(),
        q.wf(),
        r.wf(),
        q.x@ == p.x@,
        le_value(q.y@) == field_neg(le_value(p.y@)),
        r.x@ == q.x@,
        le_value(r.y@) == field_neg(le_value(q.y@)),
    ensures
        r.x@ == p.x@,
        le_value(r.y@) == le_value(p.y@),
        le_value(q.y@) == le_value(p.y@) <==> le_value(p.y@) == 0,
{
    assert(field_modulus() % 2 == 1);
}

} // verus!
