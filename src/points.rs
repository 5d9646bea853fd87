//! Curve points as the library holds them, and as the target schema writes them.
use vstd::prelude::*;
use crate::field::{is_field_bytes, all_zero};

verus! {

/// A G1 point in affine coordinates, each coordinate 32 bytes, least significant first.
/// The point at infinity has both coordinates zero.
#[derive(Debug, Clone, PartialEq, Eq)]
pub struct G1Coords {
    pub x: Vec<u8>,
    pub y: Vec<u8>,
}

/// A G2 point in affine coordinates over the quadratic extension: `x = x_c0 + x_c1 * u`,
/// likewise `y`. The point at infinity has all four components zero.
#[derive(Debug, Clone, PartialEq, Eq)]
pub struct G2Coords {
    pub x_c0: Vec<u8>,
    pub x_c1: Vec<u8>,
    pub y_c0: Vec<u8>,
    pub y_c1: Vec<u8>,
}

impl G1Coords {
    pub open spec fn wf(&self) -> bool {
        is_field_bytes(self.x@) && is_field_bytes(self.y@)
    }

    pub open spec fn is_identity(&self) -> bool {
        all_zero(self.x@) && all_zero(self.y@)
    }
}

impl G2Coords {
    pub open spec fn wf(&self) -> bool {
        is_field_bytes(self.x_c0@) && is_field_bytes(self.x_c1@) && is_field_bytes(self.y_c0@)
            && is_field_bytes(self.y_c1@)
    }

    pub open spec fn is_identity(&self) -> bool {
        all_zero(self.x_c0@) && all_zero(self.x_c1@) && all_zero(self.y_c0@) && all_zero(
            self.y_c1@,
        )
    }
}

/// A G1 point in the target schema: decimal coordinates.
#[derive(Debug, Clone, PartialEq, Eq)]
pub struct G1Point {
    pub x: String,
    pub y: String,
}

/// A G2 point in the target schema: decimal components of both coordinates.
#[derive(Debug, Clone, PartialEq, Eq)]
pub struct G2Point {
    pub x_c0: String,
    pub x_c1: String,
    pub y_c0: String,
    pub y_c1: String,
}

/// An element of the degree-12 extension field in the target schema: the halves `g` and
/// `h`, each of three quadratic components, each of two base-field values.
#[derive(Debug, Clone, PartialEq, Eq)]
pub struct Fp12Element {
    pub g00: String,
    pub g01: String,
    pub g10: String,
    pub g11: String,
    pub g20: String,
    pub g21: String,
    pub h00: String,
    pub h01: String,
    pub h10: String,
    pub h11: String,
    pub h20: String,
    pub h21: String,
}

impl Fp12Element {
    /// The twelve components, `g00` first and `h21` last.
    pub open spec fn components(&self) -> Seq<Seq<char>> {
        seq![
            self.g00@, self.g01@, self.g10@, self.g11@, self.g20@, self.g21@,
            self.h00@, self.h01@, self.h10@, self.h11@, self.h20@, self.h21@,
        ]
    }
}

} // verus!
