//! Decoding of the binary prover's proofs and verification keys.
use vstd::prelude::*;
use crate::error::ConversionError;
use crate::encoding::{ark_compressed_of, reversed_chunks, convert_endianness, gnark_compressed_x_to_ark_compressed_x};
use crate::field::{all_zero, is_all_zero};
use crate::points::{G1Coords, G2Coords};
use crate::layout::{Groth16Proof, Groth16VerifyingKey};
use crate::curve::{
    g1_compressed_decodes, g1_compressed_point, g2_compressed_decodes, g2_compressed_point,
    g1_uncompressed_decodes, g1_uncompressed_point, g2_uncompressed_decodes, g2_uncompressed_point,
    g1_from_compressed, g2_from_compressed, g1_from_uncompressed, g2_from_uncompressed,
};

verus! {

/// The compressed G1 encoding `b` of the binary prover decodes.
pub open spec fn g1_gnark_compressed_decodes(b: Seq<u8>) -> bool {
    ark_compressed_of(b) matches Some(a) && g1_compressed_decodes(a)
}

/// `p` is what the compressed G1 encoding `b` of the binary prover decodes to.
pub open spec fn g1_from_gnark_compressed(b: Seq<u8>, p: G1Coords) -> bool {
    ark_compressed_of(b) matches Some(a) && g1_compressed_point(a, p)
}

pub open spec fn g2_gnark_compressed_decodes(b: Seq<u8>) -> bool {
    ark_compressed_of(b) matches Some(a) && g2_compressed_decodes(a)
}

/// `p` is what the compressed G2 encoding `b` of the binary prover decodes to.
pub open spec fn g2_from_gnark_compressed(b: Seq<u8>, p: G2Coords) -> bool {
    ark_compressed_of(b) matches Some(a) && g2_compressed_point(a, p)
}

/// The uncompressed G1 encoding `b` of the binary prover decodes: all zero (the point at
/// infinity), or a valid point once each coordinate is reversed.
pub open spec fn g1_gnark_uncompressed_decodes(b: Seq<u8>) -> bool {
    all_zero(reversed_chunks(b, 32)) || g1_uncompressed_decodes(reversed_chunks(b, 32))
}

/// `p` is what the uncompressed G1 encoding `b` of the binary prover decodes to.
pub open spec fn g1_from_gnark_uncompressed(b: Seq<u8>, p: G1Coords) -> bool {
    if all_zero(reversed_chunks(b, 32)) {
        p.wf() && p.is_identity()
    } else {
        g1_uncompressed_point(reversed_chunks(b, 32), p)
    }
}

pub open spec fn g2_gnark_uncompressed_decodes(b: Seq<u8>) -> bool {
    all_zero(reversed_chunks(b, 64)) || g2_uncompressed_decodes(reversed_chunks(b, 64))
}

/// `p` is what the uncompressed G2 encoding `b` of the binary prover decodes to.
pub open spec fn g2_from_gnark_uncompressed(b: Seq<u8>, p: G2Coords) -> bool {
    if all_zero(reversed_chunks(b, 64)) {
        p.wf() && p.is_identity()
    } else {
        g2_uncompressed_point(reversed_chunks(b, 64), p)
    }
}

pub(crate) fn zeros(n: usize) -> (r: Vec<u8>)
    ensures
        r@ == Seq::new(n as nat, |i: int| 0u8),
{
    let mut r: Vec<u8> = Vec::with_capacity(n);
    while r.len() < n
        invariant
            r@.len() <= n,
            forall|i: int| 0 <= i < r@.len() ==> r@[i] == 0,
        decreases n - r@.len(),
    {
        r.push(0);
    }
    assert(r@ =~= Seq::new(n as nat, |i: int| 0u8));
    r
}

proof fn lemma_zeros_field(n: nat)
    ensures
        n == 32 ==> crate::field::is_field_bytes(Seq::new(n, |i: int| 0u8)),
        all_zero(Seq::new(n, |i: int| 0u8)),
{
    let z = Seq::new(n, |i: int| 0u8);
    crate::field::lemma_all_zero_value(z);
    assert(crate::field::field_modulus() > 0);
}

fn g1_identity() -> (r: G1Coords)
    ensures
        r.wf(),
        r.is_identity(),
{
    proof { lemma_zeros_field(32); }
    G1Coords { x: zeros(32), y: zeros(32) }
}

fn g2_identity() -> (r: G2Coords)
    ensures
        r.wf(),
        r.is_identity(),
{
    proof { lemma_zeros_field(32); }
    G2Coords { x_c0: zeros(32), x_c1: zeros(32), y_c0: zeros(32), y_c1: zeros(32) }
}

/// Decodes a compressed G1 point of the binary prover (32 bytes).
pub fn decompress_g1(g1_bytes: &[u8]) -> (r: Result<G1Coords, ConversionError>)
    requires
        g1_bytes@.len() == 32,
    ensures
        (r is Ok) == g1_gnark_compressed_decodes(g1_bytes@),
        ark_compressed_of(g1_bytes@) is None ==> r == Err::<G1Coords, ConversionError>(ConversionError::InvalidInput),
        ark_compressed_of(g1_bytes@) is Some && r is Err ==> r == Err::<G1Coords, ConversionError>(ConversionError::G1CompressionError),
        r matches Ok(p) ==> g1_from_gnark_compressed(g1_bytes@, p),
{
    let ark_bytes = gnark_compressed_x_to_ark_compressed_x(g1_bytes)?;
    match g1_from_compressed(ark_bytes.as_slice()) {
        Ok(p) => Ok(p),
        Err(_) => Err(ConversionError::G1CompressionError),
    }
}

/// Decodes a compressed G2 point of the binary prover (64 bytes).
pub fn decompress_g2(g2_bytes: &[u8]) -> (r: Result<G2Coords, ConversionError>)
    requires
        g2_bytes@.len() == 64,
    ensures
        (r is Ok) == g2_gnark_compressed_decodes(g2_bytes@),
        ark_compressed_of(g2_bytes@) is None ==> r == Err::<G2Coords, ConversionError>(ConversionError::InvalidInput),
        ark_compressed_of(g2_bytes@) is Some && r is Err ==> r == Err::<G2Coords, ConversionError>(ConversionError::G2CompressionError),
        r matches Ok(p) ==> g2_from_gnark_compressed(g2_bytes@, p),
{
    let ark_bytes = gnark_compressed_x_to_ark_compressed_x(g2_bytes)?;
    match g2_from_compressed(ark_bytes.as_slice()) {
        Ok(p) => Ok(p),
        Err(_) => Err(ConversionError::G2CompressionError),
    }
}

/// Decodes an uncompressed G1 point of the binary prover (64 bytes); all zero bytes are
/// the point at infinity.
pub fn gnark_decompressed_g1_to_ark_decompressed_g1(buf: &[u8]) -> (r: Result<G1Coords, ConversionError>)
    requires
        buf@.len() == 64,
    ensures
        (r is Ok) == g1_gnark_uncompressed_decodes(buf@),
        r is Err ==> r == Err::<G1Coords, ConversionError>(ConversionError::G1CompressionError),
        r matches Ok(p) ==> g1_from_gnark_uncompressed(buf@, p),
{
    let b = convert_endianness(buf, 32);
    if is_all_zero(b.as_slice()) {
        return Ok(g1_identity());
    }
    match g1_from_uncompressed(b.as_slice()) {
        Ok(p) => Ok(p),
        Err(_) => Err(ConversionError::G1CompressionError),
    }
}

/// Decodes an uncompressed G2 point of the binary prover (128 bytes); all zero bytes are
/// the point at infinity.
pub fn gnark_decompressed_g2_to_ark_decompressed_g2(buf: &[u8]) -> (r: Result<G2Coords, ConversionError>)
    requires
        buf@.len() == 128,
    ensures
        (r is Ok) == g2_gnark_uncompressed_decodes(buf@),
        r is Err ==> r == Err::<G2Coords, ConversionError>(ConversionError::G2CompressionError),
        r matches Ok(p) ==> g2_from_gnark_uncompressed(buf@, p),
{
    let b = convert_endianness(buf, 64);
    if is_all_zero(b.as_slice()) {
        return Ok(g2_identity());
    }
    match g2_from_uncompressed(b.as_slice()) {
        Ok(p) => Ok(p),
        Err(_) => Err(ConversionError::G2CompressionError),
    }
}

/// The length of a proof in the binary prover's layout: `a`, `b`, `c` uncompressed.
pub const PROOF_LEN: usize = 256;

/// The proof bytes `b` hold three decodable points.
pub open spec fn proof_decodes(b: Seq<u8>) -> bool {
    &&& b.len() >= PROOF_LEN
    &&& g1_gnark_uncompressed_decodes(b.subrange(0, 64))
    &&& g2_gnark_uncompressed_decodes(b.subrange(64, 192))
    &&& g1_gnark_uncompressed_decodes(b.subrange(192, 256))
}

/// `p` is the proof that the bytes `b` decode to.
pub open spec fn proof_decoded(b: Seq<u8>, p: Groth16Proof) -> bool {
    &&& g1_from_gnark_uncompressed(b.subrange(0, 64), p.a)
    &&& g2_from_gnark_uncompressed(b.subrange(64, 192), p.b)
    &&& g1_from_gnark_uncompressed(b.subrange(192, 256), p.c)
}

/// Reads a proof: `a` from bytes 0..64, `b` from 64..192, `c` from 192..256.
pub fn load_ark_proof_from_bytes(buffer: &[u8]) -> (r: Result<Groth16Proof, ConversionError>)
    ensures
        buffer@.len() < PROOF_LEN ==> r == Err::<Groth16Proof, ConversionError>(ConversionError::InvalidLength),
        (r is Ok) == proof_decodes(buffer@),
        r matches Ok(p) ==> proof_decoded(buffer@, p),
{
    if buffer.len() < PROOF_LEN {
        return Err(ConversionError::InvalidLength);
    }
    let a = gnark_decompressed_g1_to_ark_decompressed_g1(&buffer[0..64])?;
    let b = gnark_decompressed_g2_to_ark_decompressed_g2(&buffer[64..192])?;
    let c = gnark_decompressed_g1_to_ark_decompressed_g1(&buffer[192..256])?;
    Ok(Groth16Proof { a, b, c })
}

/// Where the count of input-commitment points stands in a key of the binary prover.
pub const VK_COUNT_OFFSET: usize = 288;

/// The count of input-commitment points of a key, read big-endian.
pub open spec fn vk_point_count(b: Seq<u8>) -> nat {
    b[288] as nat * 0x1000000 + b[289] as nat * 0x10000 + b[290] as nat * 0x100 + b[291] as nat
}

/// The bytes of the `i`-th input-commitment point of a key.
pub open spec fn vk_point_bytes(b: Seq<u8>, i: int) -> Seq<u8> {
    b.subrange(292 + 32 * i, 292 + 32 * i + 32)
}

/// The key bytes `b` are long enough for their points, and every point decodes.
pub open spec fn vk_decodes(b: Seq<u8>) -> bool {
    &&& b.len() >= 292 && b.len() >= 292 + 32 * vk_point_count(b)
    &&& g1_gnark_compressed_decodes(b.subrange(0, 32))
    &&& g2_gnark_compressed_decodes(b.subrange(64, 128))
    &&& g2_gnark_compressed_decodes(b.subrange(128, 192))
    &&& g2_gnark_compressed_decodes(b.subrange(224, 288))
    &&& forall|i: int| 0 <= i < vk_point_count(b) ==> #[trigger] g1_gnark_compressed_decodes(vk_point_bytes(b, i))
}

/// `k` is the key that the bytes `b` decode to.
pub open spec fn vk_decoded(b: Seq<u8>, k: Groth16VerifyingKey) -> bool {
    &&& g1_from_gnark_compressed(b.subrange(0, 32), k.alpha)
    &&& g2_from_gnark_compressed(b.subrange(64, 128), k.beta)
    &&& g2_from_gnark_compressed(b.subrange(128, 192), k.gamma)
    &&& g2_from_gnark_compressed(b.subrange(224, 288), k.delta)
    &&& k.gamma_abc@.len() == vk_point_count(b)
    &&& forall|i: int| 0 <= i < k.gamma_abc@.len()
        ==> g1_from_gnark_compressed(vk_point_bytes(b, i), #[trigger] k.gamma_abc@[i])
}

/// Reads a verification key: `alpha` compressed at 0..32, `beta` at 64..128, `gamma` at
/// 128..192, `delta` at 224..288, the count of input-commitment points as a big-endian
/// `u32` at 288..292, and the points compressed from 292 on, 32 bytes each.
pub fn load_ark_groth16_verifying_key_from_bytes(buffer: &[u8]) -> (r: Result<Groth16VerifyingKey, ConversionError>)
    ensures
        buffer@.len() < 292 ==> r == Err::<Groth16VerifyingKey, ConversionError>(ConversionError::InvalidLength),
        (r is Ok) == vk_decodes(buffer@),
        r matches Ok(vk) ==> vk_decoded(buffer@, vk),
{
    if buffer.len() < 292 {
        return Err(ConversionError::InvalidLength);
    }
    let alpha = decompress_g1(&buffer[0..32])?;
    let beta = decompress_g2(&buffer[64..128])?;
    let gamma = decompress_g2(&buffer[128..192])?;
    let delta = decompress_g2(&buffer[224..288])?;
    let num_k: u64 = (buffer[288] as u64) * 0x1000000 + (buffer[289] as u64) * 0x10000
        + (buffer[290] as u64) * 0x100 + (buffer[291] as u64);
    let available: u64 = ((buffer.len() - 292) / 32) as u64;
    proof {
        let len = buffer@.len() as int - 292;
        vstd::arithmetic::div_mod::lemma_fundamental_div_mod(len, 32);
        assert(available as int == len / 32);
        assert(0 <= len % 32 < 32);
    }
    if num_k > available {
        return Err(ConversionError::InvalidLength);
    }
    let blen = buffer.len();
    let mut k: Vec<G1Coords> = Vec::new();
    let mut offset: usize = 292;
    let mut i: u64 = 0;
    while i < num_k
        invariant
            num_k == vk_point_count(buffer@),
            blen == buffer@.len(),
            292 + 32 * num_k <= buffer@.len(),
            i <= num_k,
            offset == 292 + 32 * i,
            k@.len() == i,
            forall|j: int| 0 <= j < i ==> g1_from_gnark_compressed(vk_point_bytes(buffer@, j), #[trigger] k@[j]),
            forall|j: int| 0 <= j < i ==> #[trigger] g1_gnark_compressed_decodes(vk_point_bytes(buffer@, j)),
        decreases num_k - i,
    {
        assert(32 * i + 32 <= 32 * num_k) by (nonlinear_arith)
            requires
                i < num_k,
        ;
        let end = offset + 32;
        assert(buffer@.subrange(offset as int, end as int) == vk_point_bytes(buffer@, i as int));
        let point = decompress_g1(&buffer[offset..end])?;
        k.push(point);
        offset = end;
        i = i + 1;
    }
    Ok(Groth16VerifyingKey { alpha, beta, gamma, delta, gamma_abc: k })
}

} // verus!
