//! Groth16 proofs and verification keys as the library holds them, and their bytes in
//! the curve library's uncompressed layout.
use vstd::prelude::*;
use crate::field::{pow256, is_all_zero};
use crate::points::{G1Coords, G2Coords};
use crate::decode::zeros;

verus! {

/// A Groth16 proof: the points `a`, `b` and `c`.
#[derive(Debug, Clone, PartialEq, Eq)]
pub struct Groth16Proof {
    pub a: G1Coords,
    pub b: G2Coords,
    pub c: G1Coords,
}

/// A Groth16 verification key; `gamma_abc` holds the input-commitment points, the
/// constant term first.
#[derive(Debug, Clone, PartialEq, Eq)]
pub struct Groth16VerifyingKey {
    pub alpha: G1Coords,
    pub beta: G2Coords,
    pub gamma: G2Coords,
    pub delta: G2Coords,
    pub gamma_abc: Vec<G1Coords>,
}

pub open spec fn proof_wf(p: Groth16Proof) -> bool {
    p.a.wf() && p.b.wf() && p.c.wf()
}

pub open spec fn vk_wf(k: Groth16VerifyingKey) -> bool {
    &&& k.alpha.wf() && k.beta.wf() && k.gamma.wf() && k.delta.wf()
    &&& forall|i: int| 0 <= i < k.gamma_abc@.len() ==> (#[trigger] k.gamma_abc@[i]).wf()
}

/// The bytes of a G1 point in the curve library's uncompressed layout: `x` then `y`,
/// or zeros with the infinity flag.
pub open spec fn ark_g1_bytes(p: G1Coords) -> Seq<u8> {
    if p.is_identity() {
        Seq::new(63, |i: int| 0u8).push(0x40)
    } else {
        p.x@ + p.y@
    }
}

/// The bytes of a G2 point in the curve library's uncompressed layout.
pub open spec fn ark_g2_bytes(p: G2Coords) -> Seq<u8> {
    if p.is_identity() {
        Seq::new(127, |i: int| 0u8).push(0x40)
    } else {
        p.x_c0@ + p.x_c1@ + p.y_c0@ + p.y_c1@
    }
}

pub open spec fn ark_proof_bytes(p: Groth16Proof) -> Seq<u8> {
    ark_g1_bytes(p.a) + ark_g2_bytes(p.b) + ark_g1_bytes(p.c)
}

/// A `u64` in 8 bytes, least significant first.
pub open spec fn u64_le(n: nat) -> Seq<u8> {
    Seq::new(8, |i: int| ((n / pow256(i as nat)) % 256) as u8)
}

pub open spec fn g1_list_bytes(s: Seq<G1Coords>) -> Seq<u8>
    decreases s.len(),
{
    if s.len() == 0 {
        Seq::empty()
    } else {
        g1_list_bytes(s.drop_last()) + ark_g1_bytes(s.last())
    }
}

/// A verification key in the curve library's uncompressed layout; the commitment points
/// are a list: their count as a `u64`, then each point.
pub open spec fn ark_vk_bytes(vk: Groth16VerifyingKey) -> Seq<u8> {
    ark_g1_bytes(vk.alpha) + ark_g2_bytes(vk.beta) + ark_g2_bytes(vk.gamma) + ark_g2_bytes(vk.delta)
        + u64_le(vk.gamma_abc@.len()) + g1_list_bytes(vk.gamma_abc@)
}

fn ark_g1_uncompressed(p: &G1Coords, out: &mut Vec<u8>)
    ensures
        final(out)@ == old(out)@ + ark_g1_bytes(*p),
{
    if is_all_zero(p.x.as_slice()) && is_all_zero(p.y.as_slice()) {
        let mut z = zeros(63);
        z.push(0x40);
        out.extend_from_slice(z.as_slice());
    } else {
        out.extend_from_slice(p.x.as_slice());
        out.extend_from_slice(p.y.as_slice());
    }
    assert(final(out)@ =~= old(out)@ + ark_g1_bytes(*p));
}

fn ark_g2_uncompressed(p: &G2Coords, out: &mut Vec<u8>)
    ensures
        final(out)@ == old(out)@ + ark_g2_bytes(*p),
{
    if is_all_zero(p.x_c0.as_slice()) && is_all_zero(p.x_c1.as_slice()) && is_all_zero(p.y_c0.as_slice())
        && is_all_zero(p.y_c1.as_slice()) {
        let mut z = zeros(127);
        z.push(0x40);
        out.extend_from_slice(z.as_slice());
    } else {
        out.extend_from_slice(p.x_c0.as_slice());
        out.extend_from_slice(p.x_c1.as_slice());
        out.extend_from_slice(p.y_c0.as_slice());
        out.extend_from_slice(p.y_c1.as_slice());
    }
    assert(final(out)@ =~= old(out)@ + ark_g2_bytes(*p));
}

fn u64_le_bytes(n: u64, out: &mut Vec<u8>)
    ensures
        final(out)@ == old(out)@ + u64_le(n as nat),
{
    let ghost start = out@;
    let mut m: u64 = n;
    let mut i: usize = 0;
    assert(pow256(0) == 1);
    while i < 8
        invariant
            i <= 8,
            m as nat == n as nat / pow256(i as nat),
            out@.len() == start.len() + i,
            out@.subrange(0, start.len() as int) == start,
            forall|k: int| 0 <= k < i ==> #[trigger] out@[start.len() + k] == u64_le(n as nat)[k],
        decreases 8 - i,
    {
        out.push((m % 256) as u8);
        proof {
            crate::field::lemma_pow256_positive(i as nat);
            vstd::arithmetic::div_mod::lemma_div_denominator(n as int, pow256(i as nat) as int, 256);
            assert(pow256((i + 1) as nat) == 256 * pow256(i as nat));
            vstd::arithmetic::mul::lemma_mul_is_commutative(256, pow256(i as nat) as int);
        }
        m = m / 256;
        i = i + 1;
    }
    assert forall|k: int| 0 <= k < out@.len() implies #[trigger] out@[k] == (start + u64_le(n as nat))[k] by {
        if k < start.len() {
            assert(out@.subrange(0, start.len() as int)[k] == out@[k]);
        } else {
            assert(out@[start.len() + (k - start.len())] == u64_le(n as nat)[k - start.len()]);
        }
    }
    assert(out@ =~= start + u64_le(n as nat));
}

/// The proof in the curve library's uncompressed layout.
pub fn ark_proof_uncompressed(p: &Groth16Proof) -> (r: Vec<u8>)
    ensures
        r@ == ark_proof_bytes(*p),
{
    let mut out: Vec<u8> = Vec::new();
    ark_g1_uncompressed(&p.a, &mut out);
    ark_g2_uncompressed(&p.b, &mut out);
    ark_g1_uncompressed(&p.c, &mut out);
    assert(out@ =~= ark_proof_bytes(*p));
    out
}

/// The verification key in the curve library's uncompressed layout.
pub fn ark_vk_uncompressed(vk: &Groth16VerifyingKey) -> (r: Vec<u8>)
    requires
        vk.gamma_abc@.len() <= u64::MAX,
    ensures
        r@ == ark_vk_bytes(*vk),
{
    let mut out: Vec<u8> = Vec::new();
    ark_g1_uncompressed(&vk.alpha, &mut out);
    ark_g2_uncompressed(&vk.beta, &mut out);
    ark_g2_uncompressed(&vk.gamma, &mut out);
    ark_g2_uncompressed(&vk.delta, &mut out);
    u64_le_bytes(vk.gamma_abc.len() as u64, &mut out);
    let ghost head = out@;
    let mut i: usize = 0;
    while i < vk.gamma_abc.len()
        invariant
            i <= vk.gamma_abc@.len(),
            out@ == head + g1_list_bytes(vk.gamma_abc@.subrange(0, i as int)),
        decreases vk.gamma_abc@.len() - i,
    {
        ark_g1_uncompressed(&vk.gamma_abc[i], &mut out);
        proof {
            let s = vk.gamma_abc@.subrange(0, i + 1);
            assert(s.drop_last() =~= vk.gamma_abc@.subrange(0, i as int));
        }
        i = i + 1;
    }
    assert(vk.gamma_abc@.subrange(0, i as int) =~= vk.gamma_abc@);
    assert(out@ =~= ark_vk_bytes(*vk));
    out
}

} // verus!

verus! {

/// A G1 point's bytes in the curve library's uncompressed layout.
pub fn ark_g1_point_bytes(p: &G1Coords) -> (r: Vec<u8>)
    ensures
        r@ == ark_g1_bytes(*p),
{
    let mut out: Vec<u8> = Vec::new();
    ark_g1_uncompressed(p, &mut out);
    assert(out@ =~= ark_g1_bytes(*p));
    out
}

/// A G2 point's bytes in the curve library's uncompressed layout.
pub fn ark_g2_point_bytes(p: &G2Coords) -> (r: Vec<u8>)
    ensures
        r@ == ark_g2_bytes(*p),
{
    let mut out: Vec<u8> = Vec::new();
    ark_g2_uncompressed(p, &mut out);
    assert(out@ =~= ark_g2_bytes(*p));
    out
}

} // verus!
