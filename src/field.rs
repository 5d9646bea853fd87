//! Base-field elements as the library holds them: 32 bytes, least significant first,
//! and the decimal strings of the target schema.
use vstd::prelude::*;

verus! {

/// The number that `b` holds, least significant byte first.
pub open spec fn le_value(b: Seq<u8>) -> nat
    decreases b.len(),
{
    if b.len() == 0 {
        0
    } else {
        b[0] as nat + 256 * le_value(b.drop_first())
    }
}

/// The modulus of BN254's base field.
pub open spec fn field_modulus() -> nat {
    let w: nat = 0x1_0000_0000_0000_0000nat;
    0x3c208c16d87cfd47nat + w * (0x97816a916871ca8dnat + w * (0xb85045b68181585dnat + w
        * 0x30644e72e131a029nat))
}

/// 32 bytes that hold a canonical base-field element.
pub open spec fn is_field_bytes(b: Seq<u8>) -> bool {
    b.len() == 32 && le_value(b) < field_modulus()
}

/// The additive inverse in the base field of a canonical element.
pub open spec fn field_neg(v: nat) -> nat {
    if v == 0 {
        0
    } else {
        (field_modulus() - v) as nat
    }
}

pub open spec fn is_digit(c: char) -> bool {
    '0' <= c <= '9'
}

/// A non-empty string of decimal digits.
pub open spec fn is_decimal(s: Seq<char>) -> bool {
    s.len() > 0 && forall|i: int| 0 <= i < s.len() ==> is_digit(#[trigger] s[i])
}

/// The number that a string of decimal digits denotes.
pub open spec fn decimal_value(s: Seq<char>) -> nat
    decreases s.len(),
{
    if s.len() == 0 {
        0
    } else {
        decimal_value(s.drop_last()) * 10 + ((s.last() as u32) - ('0' as u32)) as nat
    }
}

/// The decimal form of a number without leading zeros ("0" for zero).
pub open spec fn is_canonical_decimal(s: Seq<char>) -> bool {
    is_decimal(s) && (s.len() == 1 || s[0] != '0')
}

/// `s` is the canonical decimal form of `n`.
pub open spec fn is_decimal_of(s: Seq<char>, n: nat) -> bool {
    is_canonical_decimal(s) && decimal_value(s) == n
}

/// Bytes that are all zero.
pub open spec fn all_zero(b: Seq<u8>) -> bool {
    forall|i: int| 0 <= i < b.len() ==> #[trigger] b[i] == 0
}

pub proof fn lemma_all_zero_value(b: Seq<u8>)
    requires
        all_zero(b),
    ensures
        le_value(b) == 0,
    decreases b.len(),
{
    if b.len() > 0 {
        assert(all_zero(b.drop_first()));
        lemma_all_zero_value(b.drop_first());
    }
}

pub proof fn lemma_zero_value_all_zero(b: Seq<u8>)
    requires
        le_value(b) == 0,
    ensures
        all_zero(b),
    decreases b.len(),
{
    if b.len() > 0 {
        lemma_zero_value_all_zero(b.drop_first());
        assert forall|i: int| 0 <= i < b.len() implies #[trigger] b[i] == 0 by {
            if i > 0 {
                assert(b[i] == b.drop_first()[i - 1]);
            }
        }
    }
}

/// Tells whether every byte is zero.
pub fn is_all_zero(b: &[u8]) -> (r: bool)
    ensures
        r == all_zero(b@),
{
    let mut i: usize = 0;
    while i < b.len()
        invariant
            i <= b@.len(),
            forall|k: int| 0 <= k < i ==> #[trigger] b@[k] == 0,
        decreases b@.len() - i,
    {
        if b[i] != 0 {
            return false;
        }
        i = i + 1;
    }
    true
}

/// Tells whether `s` is a non-empty string of decimal digits.
pub fn is_decimal_str(s: &str) -> (r: bool)
    ensures
        r == is_decimal(s@),
{
    let n = s.unicode_len();
    if n == 0 {
        return false;
    }
    let mut i: usize = 0;
    while i < n
        invariant
            n == s@.len(),
            i <= n,
            forall|k: int| 0 <= k < i ==> is_digit(#[trigger] s@[k]),
        decreases n - i,
    {
        let c = s.get_char(i);
        if !('0' <= c && c <= '9') {
            return false;
        }
        i = i + 1;
    }
    true
}

} // verus!

verus! {

pub open spec fn pow256(n: nat) -> nat
    decreases n,
{
    if n == 0 {
        1
    } else {
        256 * pow256((n - 1) as nat)
    }
}

pub proof fn lemma_le_value_append(a: Seq<u8>, b: Seq<u8>)
    ensures
        le_value(a + b) == le_value(a) + pow256(a.len()) * le_value(b),
    decreases a.len(),
{
    if a.len() > 0 {
        assert((a + b).drop_first() =~= a.drop_first() + b);
        lemma_le_value_append(a.drop_first(), b);
        let p = pow256((a.len() - 1) as nat);
        assert(256 * (p * le_value(b)) == (256 * p) * le_value(b)) by (nonlinear_arith);
        assert((a + b)[0] == a[0]);
        assert(pow256(a.len()) == 256 * p);
        assert(le_value(a + b) == a[0] as nat + 256 * le_value(a.drop_first() + b));
        let x = le_value(a.drop_first());
        let y = le_value(b);
        let a0 = a[0] as nat;
        assert(le_value(a) == a0 + 256 * x);
        assert(le_value(a.drop_first() + b) == x + p * y);
        assert(a0 + 256 * (x + p * y) == (a0 + 256 * x) + (256 * p) * y) by (nonlinear_arith);
    } else {
        assert(a + b =~= b);
        assert(pow256(0) == 1);
        assert(le_value(a) == 0);
    }
}

pub proof fn lemma_pow256_positive(n: nat)
    ensures
        pow256(n) >= 1,
    decreases n,
{
    if n > 0 {
        lemma_pow256_positive((n - 1) as nat);
    }
}

pub proof fn lemma_modulus_below_pow256_32()
    ensures
        field_modulus() < pow256(32),
{
    reveal_with_fuel(pow256, 33);
}

} // verus!

verus! {

/// A canonical field element leaves the two top bits of its last byte clear.
pub proof fn lemma_field_bytes_top_bits(b: Seq<u8>)
    requires
        is_field_bytes(b),
    ensures
        b[31] < 64,
        b[31] & 0xc0 == 0,
{
    let lo = b.subrange(0, 31);
    let hi = b.subrange(31, 32);
    assert(b =~= lo + hi);
    lemma_le_value_append(lo, hi);
    assert(hi.drop_first() =~= Seq::<u8>::empty());
    assert(le_value(Seq::<u8>::empty()) == 0);
    assert(hi[0] == b[31]);
    assert(le_value(hi) == hi[0] as nat + 256 * le_value(hi.drop_first()));
    assert(le_value(hi) == b[31] as nat);
    reveal_with_fuel(pow256, 32);
    if b[31] >= 64 {
        assert(pow256(31) * le_value(hi) >= pow256(31) * 64) by (nonlinear_arith)
            requires le_value(hi) >= 64;
    }
    let x = b[31];
    assert(x < 64 ==> x & 0xc0 == 0) by (bit_vector);
}

} // verus!

verus! {

pub proof fn lemma_le_value_bound(b: Seq<u8>)
    ensures
        le_value(b) < pow256(b.len()),
    decreases b.len(),
{
    if b.len() > 0 {
        lemma_le_value_bound(b.drop_first());
        let p = pow256((b.len() - 1) as nat);
        let x = le_value(b.drop_first());
        let d = b[0] as nat;
        assert(d + 256 * x < 256 * p) by (nonlinear_arith)
            requires x < p, d < 256;
    }
}

} // verus!

verus! {

/// Two byte strings of one length that hold the same number are equal.
pub proof fn lemma_le_value_injective(a: Seq<u8>, b: Seq<u8>)
    requires
        a.len() == b.len(),
        le_value(a) == le_value(b),
    ensures
        a == b,
    decreases a.len(),
{
    if a.len() > 0 {
        let x = le_value(a.drop_first());
        let y = le_value(b.drop_first());
        let a0 = a[0] as nat;
        let b0 = b[0] as nat;
        assert(a0 == b0 && x == y) by (nonlinear_arith)
            requires a0 + 256 * x == b0 + 256 * y, a0 < 256, b0 < 256;
        lemma_le_value_injective(a.drop_first(), b.drop_first());
        assert(a =~= b) by {
            assert forall|i: int| 0 <= i < a.len() implies a[i] == b[i] by {
                if i > 0 {
                    assert(a[i] == a.drop_first()[i - 1]);
                    assert(b[i] == b.drop_first()[i - 1]);
                }
            }
        }
    } else {
        assert(a =~= b);
    }
}

proof fn lemma_leading_digit_positive(s: Seq<char>)
    requires
        is_decimal(s),
        s[0] != '0',
    ensures
        decimal_value(s) >= 1,
    decreases s.len(),
{
    if s.len() > 1 {
        let t = s.drop_last();
        assert(is_decimal(t)) by {
            assert forall|i: int| 0 <= i < t.len() implies is_digit(#[trigger] t[i]) by {
                assert(t[i] == s[i]);
            }
        }
        lemma_leading_digit_positive(t);
    } else {
        assert(s.drop_last().len() == 0);
    }
}

/// A number has one canonical decimal form.
pub proof fn lemma_decimal_unique(s: Seq<char>, t: Seq<char>)
    requires
        is_canonical_decimal(s),
        is_canonical_decimal(t),
        decimal_value(s) == decimal_value(t),
    ensures
        s == t,
    decreases s.len(),
{
    let ds = ((s.last() as u32) - ('0' as u32)) as nat;
    let dt = ((t.last() as u32) - ('0' as u32)) as nat;
    let vs = decimal_value(s.drop_last());
    let vt = decimal_value(t.drop_last());
    assert(is_digit(s[s.len() - 1]) && is_digit(t[t.len() - 1]));
    assert(ds < 10 && dt < 10);
    assert(ds == dt && vs == vt) by (nonlinear_arith)
        requires vs * 10 + ds == vt * 10 + dt, ds < 10, dt < 10;
    if s.len() == 1 && t.len() == 1 {
        assert(s =~= t);
    } else if s.len() == 1 {
        assert(s.drop_last().len() == 0);
        assert(t.drop_last()[0] == t[0]);
        assert(is_decimal(t.drop_last())) by {
            assert forall|i: int| 0 <= i < t.drop_last().len() implies is_digit(#[trigger] t.drop_last()[i]) by {
                assert(t.drop_last()[i] == t[i]);
            }
        }
        lemma_leading_digit_positive(t.drop_last());
    } else if t.len() == 1 {
        assert(t.drop_last().len() == 0);
        assert(s.drop_last()[0] == s[0]);
        assert(is_decimal(s.drop_last())) by {
            assert forall|i: int| 0 <= i < s.drop_last().len() implies is_digit(#[trigger] s.drop_last()[i]) by {
                assert(s.drop_last()[i] == s[i]);
            }
        }
        lemma_leading_digit_positive(s.drop_last());
    } else {
        let s2 = s.drop_last();
        let t2 = t.drop_last();
        assert(s2[0] == s[0] && t2[0] == t[0]);
        assert(is_canonical_decimal(s2)) by {
            assert forall|i: int| 0 <= i < s2.len() implies is_digit(#[trigger] s2[i]) by {
                assert(s2[i] == s[i]);
            }
        }
        assert(is_canonical_decimal(t2)) by {
            assert forall|i: int| 0 <= i < t2.len() implies is_digit(#[trigger] t2[i]) by {
                assert(t2[i] == t[i]);
            }
        }
        lemma_decimal_unique(s2, t2);
        assert(s.last() == t.last()) by {
            assert((s.last() as u32) == (t.last() as u32));
        }
        assert(s =~= s2.push(s.last()));
        assert(t =~= t2.push(t.last()));
    }
}

} // verus!
