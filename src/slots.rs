//! Public inputs and input-commitment points keyed by position: either a fixed number of
//! named slots, absent ones defaulted to zero, or one key per supplied value.
use vstd::prelude::*;
use crate::error::ConversionError;
use crate::field::is_decimal_of;
use crate::points::G1Point;
use crate::curve::usize_to_decimal;

verus! {

/// The fixed number of public-input slots `pi1..pi5`.
pub const PUBLIC_INPUT_SLOTS: usize = 5;

/// The fixed number of commitment-point slots `ic0..ic5`.
pub const COMMITMENT_SLOTS: usize = 6;

/// `k` is `prefix` followed by `n` in decimal.
pub open spec fn is_key(k: Seq<char>, prefix: Seq<char>, n: nat) -> bool {
    k.len() > prefix.len() && k.subrange(0, prefix.len() as int) == prefix && is_decimal_of(
        k.subrange(prefix.len() as int, k.len() as int),
        n,
    )
}

/// The key of position `n` under `prefix`, such as "pi3" or "ic0".
pub fn slot_key(prefix: &str, n: usize) -> (r: String)
    ensures
        is_key(r@, prefix@, n as nat),
{
    let d = usize_to_decimal(n);
    let r = String::from_str(prefix).concat(d.as_str());
    assert(r@.subrange(0, prefix@.len() as int) =~= prefix@);
    assert(r@.subrange(prefix@.len() as int, r@.len() as int) =~= d@);
    r
}

/// The public inputs keyed `pi1, pi2, ...`: slot `i` holds input `i - 1`.
pub open spec fn keyed_inputs(r: Seq<(String, String)>, inputs: Seq<String>, slots: nat) -> bool {
    &&& r.len() == slots
    &&& forall|i: int| 0 <= i < slots ==> {
        &&& is_key((#[trigger] r[i]).0@, "pi"@, (i + 1) as nat)
        &&& r[i].1@ == if i < inputs.len() { inputs[i]@ } else { "0"@ }
    }
}

/// The commitment points keyed `ic0, ic1, ...`.
pub open spec fn keyed_points(r: Seq<(String, G1Point)>, points: Seq<G1Point>, slots: nat) -> bool {
    &&& r.len() == slots
    &&& forall|i: int| 0 <= i < slots ==> {
        &&& is_key((#[trigger] r[i]).0@, "ic"@, i as nat)
        &&& if i < points.len() {
            r[i].1.x@ == points[i].x@ && r[i].1.y@ == points[i].y@
        } else {
            r[i].1.x@ == "0"@ && r[i].1.y@ == "0"@
        }
    }
}

fn public_input_entries(inputs: &Vec<String>, slots: usize) -> (r: Vec<(String, String)>)
    ensures
        keyed_inputs(r@, inputs@, slots as nat),
{
    let mut r: Vec<(String, String)> = Vec::new();
    let mut i: usize = 0;
    while i < slots
        invariant
            i <= slots,
            r@.len() == i,
            forall|k: int| 0 <= k < i ==> {
                &&& is_key((#[trigger] r@[k]).0@, "pi"@, (k + 1) as nat)
                &&& r@[k].1@ == if k < inputs@.len() { inputs@[k]@ } else { "0"@ }
            },
        decreases slots - i,
    {
        let key = slot_key("pi", i + 1);
        let value = if i < inputs.len() {
            inputs[i].clone()
        } else {
            String::from_str("0")
        };
        r.push((key, value));
        i = i + 1;
    }
    r
}

fn commitment_entries(points: &Vec<G1Point>, slots: usize) -> (r: Vec<(String, G1Point)>)
    ensures
        keyed_points(r@, points@, slots as nat),
{
    let mut r: Vec<(String, G1Point)> = Vec::new();
    let mut i: usize = 0;
    while i < slots
        invariant
            i <= slots,
            r@.len() == i,
            forall|k: int| 0 <= k < i ==> {
                &&& is_key((#[trigger] r@[k]).0@, "ic"@, k as nat)
                &&& if k < points@.len() {
                    r@[k].1.x@ == points@[k].x@ && r@[k].1.y@ == points@[k].y@
                } else {
                    r@[k].1.x@ == "0"@ && r@[k].1.y@ == "0"@
                }
            },
        decreases slots - i,
    {
        let key = slot_key("ic", i);
        let point = if i < points.len() {
            G1Point { x: points[i].x.clone(), y: points[i].y.clone() }
        } else {
            G1Point { x: String::from_str("0"), y: String::from_str("0") }
        };
        r.push((key, point));
        i = i + 1;
    }
    r
}

/// The public inputs in the fixed slots `pi1..pi5`, absent ones "0"; more inputs than
/// slots is an error.
pub fn fixed_public_inputs(inputs: &Vec<String>) -> (r: Result<Vec<(String, String)>, ConversionError>)
    ensures
        inputs@.len() > PUBLIC_INPUT_SLOTS ==> r == Err::<Vec<(String, String)>, ConversionError>(
            ConversionError::TooManyValues { found: inputs@.len() as usize, capacity: PUBLIC_INPUT_SLOTS },
        ),
        inputs@.len() <= PUBLIC_INPUT_SLOTS ==> (r matches Ok(v) && keyed_inputs(v@, inputs@, PUBLIC_INPUT_SLOTS as nat)),
{
    if inputs.len() > PUBLIC_INPUT_SLOTS {
        return Err(ConversionError::TooManyValues { found: inputs.len(), capacity: PUBLIC_INPUT_SLOTS });
    }
    Ok(public_input_entries(inputs, PUBLIC_INPUT_SLOTS))
}

/// One key `pi1..piN` for each of the `N` public inputs.
pub fn keyed_public_inputs(inputs: &Vec<String>) -> (r: Vec<(String, String)>)
    ensures
        keyed_inputs(r@, inputs@, inputs@.len()),
{
    public_input_entries(inputs, inputs.len())
}

/// The commitment points in the fixed slots `ic0..ic5`, absent ones the zero point;
/// more points than slots is an error.
pub fn fixed_commitment_points(points: &Vec<G1Point>) -> (r: Result<Vec<(String, G1Point)>, ConversionError>)
    ensures
        points@.len() > COMMITMENT_SLOTS ==> r == Err::<Vec<(String, G1Point)>, ConversionError>(
            ConversionError::TooManyValues { found: points@.len() as usize, capacity: COMMITMENT_SLOTS },
        ),
        points@.len() <= COMMITMENT_SLOTS ==> (r matches Ok(v) && keyed_points(v@, points@, COMMITMENT_SLOTS as nat)),
{
    if points.len() > COMMITMENT_SLOTS {
        return Err(ConversionError::TooManyValues { found: points.len(), capacity: COMMITMENT_SLOTS });
    }
    Ok(commitment_entries(points, COMMITMENT_SLOTS))
}

/// One key `ic0..ic(N-1)` for each of the `N` commitment points.
pub fn keyed_commitment_points(points: &Vec<G1Point>) -> (r: Vec<(String, G1Point)>)
    ensures
        keyed_points(r@, points@, points@.len()),
{
    commitment_entries(points, points.len())
}

} // verus!
