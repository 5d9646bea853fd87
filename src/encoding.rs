//! The compressed and uncompressed point encodings of the binary prover, and
//! their conversion into the layout that the curve library reads.
use vstd::prelude::*;
use crate::error::ConversionError;

verus! {

/// The two top bits of the first byte of a compressed point, in the binary prover's layout.
pub const GNARK_MASK: u8 = 0xc0;
pub const GNARK_COMPRESSED_POSITIVE: u8 = 0x80;
pub const GNARK_COMPRESSED_NEGATIVE: u8 = 0xc0;
pub const GNARK_COMPRESSED_INFINITY: u8 = 0x40;

/// The two top bits of the most significant byte, in the curve library's layout.
pub const ARK_MASK: u8 = 0xc0;
pub const ARK_COMPRESSED_POSITIVE: u8 = 0x00;
pub const ARK_COMPRESSED_NEGATIVE: u8 = 0x80;
pub const ARK_COMPRESSED_INFINITY: u8 = 0x40;

/// The curve library's flag for a flag of the binary prover, if it is one of the three known.
pub open spec fn ark_flag_for(gnark_flag: u8) -> Option<u8> {
    if gnark_flag == GNARK_COMPRESSED_POSITIVE {
        Some(ARK_COMPRESSED_POSITIVE)
    } else if gnark_flag == GNARK_COMPRESSED_NEGATIVE {
        Some(ARK_COMPRESSED_NEGATIVE)
    } else if gnark_flag == GNARK_COMPRESSED_INFINITY {
        Some(ARK_COMPRESSED_INFINITY)
    } else {
        None
    }
}

/// The byte with its two top bits replaced by `flag`.
pub open spec fn with_flag(msb: u8, flag: u8) -> u8 {
    (msb & !ARK_MASK) | flag
}

/// `b` with the bytes of each `chunk`-sized piece in reverse order; the pieces keep their order.
pub open spec fn reversed_chunks(b: Seq<u8>, chunk: nat) -> Seq<u8>
    recommends chunk > 0,
{
    Seq::new(b.len(), |i: int| b[(i / chunk as int) * chunk as int + (chunk as int - 1 - i % chunk as int)])
}

/// What the binary prover's compressed coordinate becomes in the curve library's layout:
/// the flag of the first byte remapped, then all bytes in reverse order.
pub open spec fn ark_compressed_of(x: Seq<u8>) -> Option<Seq<u8>> {
    if (x.len() == 32 || x.len() == 64) && ark_flag_for(x[0] & GNARK_MASK) is Some {
        Some(x.update(0, with_flag(x[0], ark_flag_for(x[0] & GNARK_MASK)->0)).reverse())
    } else {
        None
    }
}

/// Remaps the flag bits of the first byte of a compressed point; the low six bits stay.
pub fn gnark_flag_to_ark_flag(msb: u8) -> (r: Result<u8, ConversionError>)
    ensures
        ark_flag_for(msb & GNARK_MASK) is None <==> r == Err::<u8, ConversionError>(ConversionError::InvalidInput),
        ark_flag_for(msb & GNARK_MASK) matches Some(f) ==> r == Ok::<u8, ConversionError>(with_flag(msb, f)),
{
    let gnark_flag = msb & GNARK_MASK;
    let ark_flag = if gnark_flag == GNARK_COMPRESSED_POSITIVE {
        ARK_COMPRESSED_POSITIVE
    } else if gnark_flag == GNARK_COMPRESSED_NEGATIVE {
        ARK_COMPRESSED_NEGATIVE
    } else if gnark_flag == GNARK_COMPRESSED_INFINITY {
        ARK_COMPRESSED_INFINITY
    } else {
        return Err(ConversionError::InvalidInput);
    };
    Ok(msb & !ARK_MASK | ark_flag)
}

/// Reverses the bytes within each `chunk_size` piece of `bytes`, keeping the order of the pieces.
pub fn convert_endianness(bytes: &[u8], chunk_size: usize) -> (r: Vec<u8>)
    requires
        chunk_size > 0,
        bytes@.len() % (chunk_size as nat) == 0,
    ensures
        r@ == reversed_chunks(bytes@, chunk_size as nat),
{
    let n = bytes.len();
    let mut r: Vec<u8> = Vec::with_capacity(n);
    let mut start: usize = 0;
    while start < n
        invariant
            n == bytes@.len(),
            chunk_size > 0,
            (n as int) % (chunk_size as int) == 0,
            (start as int) % (chunk_size as int) == 0,
            start <= n,
            r@.len() == start,
            forall|i: int| 0 <= i < start ==> r@[i] == #[trigger] reversed_chunks(bytes@, chunk_size as nat)[i],
        decreases n - start,
    {
        proof {
            assert(start + chunk_size <= n as int) by (nonlinear_arith)
                requires
                    (start as int) % (chunk_size as int) == 0,
                    (n as int) % (chunk_size as int) == 0,
                    start < n,
                    chunk_size > 0,
            {
                vstd::arithmetic::div_mod::lemma_fundamental_div_mod(start as int, chunk_size as int);
                vstd::arithmetic::div_mod::lemma_fundamental_div_mod(n as int, chunk_size as int);
                let qs = start as int / chunk_size as int;
                let qn = n as int / chunk_size as int;
                if qs >= qn {
                    vstd::arithmetic::mul::lemma_mul_inequality(qn, qs, chunk_size as int);
                }
                assert(qs + 1 <= qn);
                vstd::arithmetic::mul::lemma_mul_inequality(qs + 1, qn, chunk_size as int);
                vstd::arithmetic::mul::lemma_mul_is_distributive_add_other_way(chunk_size as int, qs, 1);
            }
        }
        let mut j: usize = 0;
        while j < chunk_size
            invariant
                n == bytes@.len(),
                chunk_size > 0,
                (start as int) % (chunk_size as int) == 0,
                start + chunk_size <= n as int,
                j <= chunk_size,
                r@.len() == start + j,
                forall|i: int| 0 <= i < start + j ==> r@[i] == #[trigger] reversed_chunks(bytes@, chunk_size as nat)[i],
            decreases chunk_size - j,
        {
            let k = start + chunk_size - 1 - j;
            proof {
                let i = start + j;
                vstd::arithmetic::div_mod::lemma_fundamental_div_mod(start as int, chunk_size as int);
                let q = start as int / chunk_size as int;
                assert(start as int == q * chunk_size as int);
                vstd::arithmetic::div_mod::lemma_div_multiples_vanish_fancy(q, j as int, chunk_size as int);
                vstd::arithmetic::div_mod::lemma_mod_multiples_vanish(q, j as int, chunk_size as int);
                vstd::arithmetic::div_mod::lemma_small_mod(j as nat, chunk_size as nat);
                vstd::arithmetic::mul::lemma_mul_is_commutative(q, chunk_size as int);
                assert(i as int / chunk_size as int == q);
                assert(i as int % chunk_size as int == j);
            }
            r.push(bytes[k]);
            j = j + 1;
        }
        start = start + chunk_size;
        proof {
            vstd::arithmetic::div_mod::lemma_mod_adds(start - chunk_size, chunk_size as int, chunk_size as int);
            vstd::arithmetic::div_mod::lemma_mod_self_0(chunk_size as int);
        }
    }
    r
}

/// Turns a compressed coordinate of the binary prover (32 bytes for G1, 64 for G2) into
/// the curve library's layout: the flag remapped, then the whole buffer reversed.
pub fn gnark_compressed_x_to_ark_compressed_x(x: &[u8]) -> (r: Result<Vec<u8>, ConversionError>)
    ensures
        ark_compressed_of(x@) matches Some(y) ==> r matches Ok(v) && v@ == y,
        x@.len() != 32 && x@.len() != 64 ==> r == Err::<Vec<u8>, ConversionError>(ConversionError::InvalidLength),
        (x@.len() == 32 || x@.len() == 64) && ark_compressed_of(x@) is None
            ==> r == Err::<Vec<u8>, ConversionError>(ConversionError::InvalidInput),
{
    if x.len() != 32 && x.len() != 64 {
        return Err(ConversionError::InvalidLength);
    }
    let msb = gnark_flag_to_ark_flag(x[0])?;
    let n = x.len();
    let mut out: Vec<u8> = Vec::with_capacity(n);
    let mut i: usize = 0;
    while i < n
        invariant
            n == x@.len(),
            n > 0,
            i <= n,
            out@.len() == i,
            forall|k: int| 0 <= k < i ==> out@[k] == #[trigger] x@.update(0, msb).reverse()[k],
        decreases n - i,
    {
        let j = n - 1 - i;
        if j == 0 {
            out.push(msb);
        } else {
            out.push(x[j]);
        }
        i = i + 1;
    }
    assert(out@ =~= x@.update(0, msb).reverse());
    Ok(out)
}

} // verus!
