//! The values handed to and from the JavaScript side of the verifier circuit: elements
//! of the degree-12 extension field and the pairing value `e(alpha, beta)`.
use vstd::prelude::*;
use crate::layout::{ark_g1_bytes, ark_g2_bytes};
use crate::error::ConversionError;
use crate::field::{le_value, is_field_bytes, decimal_value};
use crate::points::{G1Coords, G2Coords, Fp12Element};
use crate::curve::{miller_loop_value, on_g1_curve, g2_valid};
use crate::schema::{parse_field_element, compute_alpha_beta_pairing, writes_fp12};
use crate::snarkjs::{parse_g1_point, parse_g2_point, valid_coord};

verus! {

/// An element of the degree-12 extension field as twelve decimal components.
#[derive(Debug, Clone, PartialEq, Eq)]
pub struct Field12JSValue {
    pub g00: String,
    pub g01: String,
    pub g10: String,
    pub g11: String,
    pub g20: String,
    pub g21: String,
    pub h00: String,
    pub h01: String,
    pub h10: String,
    pub h11: String,
    pub h20: String,
    pub h21: String,
}

impl Field12JSValue {
    pub open spec fn components(&self) -> Seq<String> {
        seq![
            self.g00, self.g01, self.g10, self.g11, self.g20, self.g21,
            self.h00, self.h01, self.h10, self.h11, self.h20, self.h21,
        ]
    }
}

/// The auxiliary witness of a Miller-loop value: a cofactor and a shift power.
#[derive(Debug, Clone, PartialEq, Eq)]
pub struct AuxWitnessJSValue {
    pub c: Fp12Element,
    pub shift_power: String,
}

/// Reads the twelve components of an extension-field element, `g00` first; each must be
/// a decimal number below the modulus.
pub fn deserialize_fq12_jsvalue(f12: &Field12JSValue) -> (r: Result<Vec<Vec<u8>>, ConversionError>)
    ensures
        r is Ok <==> forall|i: int| 0 <= i < 12 ==> crate::snarkjs::valid_coord(#[trigger] f12.components()[i]),
        r is Err ==> r == Err::<Vec<Vec<u8>>, ConversionError>(ConversionError::InvalidFieldElement),
        r matches Ok(c) ==> c@.len() == 12 && forall|i: int| 0 <= i < 12 ==> is_field_bytes(#[trigger] c@[i]@)
            && le_value(c@[i]@) == decimal_value(f12.components()[i]@),
{
    let strs: [&String; 12] = [
        &f12.g00, &f12.g01, &f12.g10, &f12.g11, &f12.g20, &f12.g21,
        &f12.h00, &f12.h01, &f12.h10, &f12.h11, &f12.h20, &f12.h21,
    ];
    assert(forall|i: int| 0 <= i < 12 ==> *#[trigger] strs@[i] == f12.components()[i]);
    let mut out: Vec<Vec<u8>> = Vec::new();
    let mut i: usize = 0;
    while i < 12
        invariant
            i <= 12,
            forall|k: int| 0 <= k < 12 ==> *#[trigger] strs@[k] == f12.components()[k],
            out@.len() == i,
            forall|k: int| 0 <= k < i ==> crate::snarkjs::valid_coord(#[trigger] f12.components()[k]),
            forall|k: int| 0 <= k < i ==> is_field_bytes(#[trigger] out@[k]@)
                && le_value(out@[k]@) == decimal_value(f12.components()[k]@),
        decreases 12 - i,
    {
        let b = parse_field_element(strs[i].as_str())?;
        out.push(b);
        i = i + 1;
    }
    Ok(out)
}

/// A point handed over from JavaScript: `x` and `y` for G1, the four components for G2.
#[derive(Debug, Clone, PartialEq, Eq)]
pub struct AlphaBetaPoint {
    pub x: String,
    pub y: String,
    pub x_c0: Option<String>,
    pub x_c1: Option<String>,
    pub y_c0: Option<String>,
    pub y_c1: Option<String>,
}

#[derive(Debug, Clone, PartialEq, Eq)]
pub struct AlphaBetaJSInputValue {
    pub alpha: AlphaBetaPoint,
    pub beta: AlphaBetaPoint,
}

/// The pairing value `e(alpha, beta)` as twelve decimal components.
#[derive(Debug, Clone, PartialEq, Eq)]
pub struct AlphaBetaOutputJSValue {
    pub g00: String,
    pub g01: String,
    pub g10: String,
    pub g11: String,
    pub g20: String,
    pub g21: String,
    pub h00: String,
    pub h01: String,
    pub h10: String,
    pub h11: String,
    pub h20: String,
    pub h21: String,
}

impl AlphaBetaOutputJSValue {
    pub open spec fn as_fp12(&self) -> Fp12Element {
        Fp12Element {
            g00: self.g00, g01: self.g01, g10: self.g10, g11: self.g11, g20: self.g20, g21: self.g21,
            h00: self.h00, h01: self.h01, h10: self.h10, h11: self.h11, h20: self.h20, h21: self.h21,
        }
    }
}

pub open spec fn beta_complete(b: AlphaBetaPoint) -> bool {
    b.x_c0 is Some && b.x_c1 is Some && b.y_c0 is Some && b.y_c1 is Some
}

/// `alpha` holds the canonical decimal coordinates of a point on the G1 curve.
pub open spec fn alpha_valid(alpha: AlphaBetaPoint) -> bool {
    valid_coord(alpha.x) && valid_coord(alpha.y) && on_g1_curve(decimal_value(alpha.x@), decimal_value(alpha.y@))
}

/// `beta` holds the canonical decimal components of a valid G2 point.
pub open spec fn beta_valid(beta: AlphaBetaPoint) -> bool {
    &&& beta_complete(beta)
    &&& valid_coord(beta.x_c0->0) && valid_coord(beta.x_c1->0) && valid_coord(beta.y_c0->0) && valid_coord(beta.y_c1->0)
    &&& g2_valid(decimal_value(beta.x_c0->0@), decimal_value(beta.x_c1->0@), decimal_value(beta.y_c0->0@), decimal_value(beta.y_c1->0@))
}

/// Computes the pairing value `e(alpha, beta)` (the Miller loop, before the final
/// exponentiation) of points given in decimal.
pub fn make_alpha_beta_js(input: &AlphaBetaJSInputValue) -> (r: Result<AlphaBetaOutputJSValue, ConversionError>)
    ensures
        !beta_complete(input.beta) ==> r == Err::<AlphaBetaOutputJSValue, ConversionError>(ConversionError::InvalidInput),
        beta_complete(input.beta) && !(valid_coord(input.alpha.x) && valid_coord(input.alpha.y))
            ==> r == Err::<AlphaBetaOutputJSValue, ConversionError>(ConversionError::InvalidFieldElement),
        beta_complete(input.beta) ==> ((r is Ok) == (alpha_valid(input.alpha) && beta_valid(input.beta))),
        r matches Ok(out) ==> exists|a: G1Coords, b: G2Coords| {
            &&& a.wf() && b.wf()
            &&& on_g1_curve(le_value(a.x@), le_value(a.y@))
            &&& le_value(a.x@) == decimal_value(input.alpha.x@)
            &&& le_value(a.y@) == decimal_value(input.alpha.y@)
            &&& le_value(b.x_c0@) == decimal_value(input.beta.x_c0->0@)
            &&& le_value(b.x_c1@) == decimal_value(input.beta.x_c1->0@)
            &&& le_value(b.y_c0@) == decimal_value(input.beta.y_c0->0@)
            &&& le_value(b.y_c1@) == decimal_value(input.beta.y_c1->0@)
            &&& writes_fp12(out.as_fp12(), miller_loop_value(ark_g1_bytes(a), ark_g2_bytes(b)))
        },
{
    let (bx0, bx1, by0, by1) = match (&input.beta.x_c0, &input.beta.x_c1, &input.beta.y_c0, &input.beta.y_c1) {
        (Some(a), Some(b), Some(c), Some(d)) => (a, b, c, d),
        _ => return Err(ConversionError::InvalidInput),
    };
    let alpha_point = vec![input.alpha.x.clone(), input.alpha.y.clone()];
    let alpha = parse_g1_point(&alpha_point)?;
    let beta_point = vec![vec![bx0.clone(), bx1.clone()], vec![by0.clone(), by1.clone()]];
    let beta = parse_g2_point(&beta_point)?;
    let e = compute_alpha_beta_pairing(&alpha, &beta);
    let out = AlphaBetaOutputJSValue {
        g00: e.g00, g01: e.g01, g10: e.g10, g11: e.g11, g20: e.g20, g21: e.g21,
        h00: e.h00, h01: e.h01, h10: e.h10, h11: e.h11, h20: e.h20, h21: e.h21,
    };
    assert(out.as_fp12().components() == e.components());
    Ok(out)
}

} // verus!
