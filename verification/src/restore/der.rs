//! The small part of ASN.1 DER that IMG4 personalization writes: lengths,
//! tag-length-value elements, unsigned integers, booleans and high tag
//! numbers.

use der::Encode;
use vstd::prelude::*;

use crate::error::IdeviceError;
use crate::restore::errors::RestoreError;
use crate::bytes::append_bytes;

verus! {

/// The largest length the DER encoder accepts (256 MiB - 1).
pub const DER_MAX_LEN: usize = 0x0fff_ffff;

/// [`DER_MAX_LEN`] as a number.
pub open spec fn der_max_len() -> nat {
    DER_MAX_LEN as nat
}

/// The DER length octets of `n`: short form below 0x80, otherwise `0x8k`
/// followed by the `k` big-endian octets of `n` without leading zeros.
pub open spec fn der_length_encoding(n: nat) -> Seq<u8> {
    if n < 0x80 {
        seq![n as u8]
    } else if n < 0x100 {
        seq![0x81u8, n as u8]
    } else if n < 0x10000 {
        seq![0x82u8, (n / 0x100) as u8, (n % 0x100) as u8]
    } else if n < 0x1000000 {
        seq![0x83u8, (n / 0x10000) as u8, ((n / 0x100) % 0x100) as u8, (n % 0x100) as u8]
    } else {
        seq![
            0x84u8,
            (n / 0x1000000) as u8,
            ((n / 0x10000) % 0x100) as u8,
            ((n / 0x100) % 0x100) as u8,
            (n % 0x100) as u8,
        ]
    }
}

/// A tag-length-value element.
pub open spec fn der_tlv(tag: u8, content: Seq<u8>) -> Seq<u8> {
    seq![tag] + der_length_encoding(content.len()) + content
}

/// A tag-length-value element, when its content length can be encoded.
pub open spec fn tlv_opt(tag: u8, content: Option<Seq<u8>>) -> Option<Seq<u8>> {
    match content {
        Some(c) => if c.len() <= der_max_len() {
            Some(der_tlv(tag, c))
        } else {
            None
        },
        None => None,
    }
}

/// Concatenation of two optional byte strings.
pub open spec fn cat_opt(a: Option<Seq<u8>>, b: Option<Seq<u8>>) -> Option<Seq<u8>> {
    match (a, b) {
        (Some(x), Some(y)) => Some(x + y),
        _ => None,
    }
}

/// The error an encoding failure is reported as.
pub open spec fn is_img4_error(e: IdeviceError) -> bool {
    e matches IdeviceError::Restore(r) && r is Img4
}

/// `res` is the encoding `expected` describes: the bytes when it is some,
/// an IMG4 error when it is none.
pub open spec fn encoded_as(res: Result<Vec<u8>, IdeviceError>, expected: Option<Seq<u8>>) -> bool {
    match expected {
        Some(b) => res matches Ok(v) && v@ == b,
        None => res matches Err(e) && is_img4_error(e),
    }
}

/// Encodes `len` as DER length octets with `der::Length`.
///
/// The contract is read from the crate: `Length::try_from` accepts lengths up
/// to `Length::MAX` (0x0FFF_FFFF) and refuses larger ones; `to_der` writes
/// the initial octet 0x81..0x84 for long forms followed by the big-endian
/// octets without leading zeros, or the single short-form octet (at most
/// five octets, so the five-byte buffer always suffices). The error message
/// text is not stated.
#[verifier::external_body]
fn der_length_octets(len: usize) -> (r: Result<Vec<u8>, String>)
    ensures
        match r {
            Ok(v) => len <= der_max_len() && v@ == der_length_encoding(len as nat),
            Err(_) => len > der_max_len(),
        },
{
    let mut buf = [0u8; 5];
    match der::Length::try_from(len) {
        Ok(l) => match l.encode_to_slice(&mut buf) {
            Ok(octets) => Ok(octets.to_vec()),
            Err(e) => Err(format!("length {len}: {e}")),
        },
        Err(e) => Err(format!("length {len}: {e}")),
    }
}

/// Encodes an ASN.1 DER length field for `len` bytes.
pub fn encode_len(len: usize) -> (res: Result<Vec<u8>, IdeviceError>)
    ensures
        match res {
            Ok(v) => len <= der_max_len() && v@ == der_length_encoding(len as nat),
            Err(e) => len > der_max_len() && is_img4_error(e),
        },
{
    match der_length_octets(len) {
        Ok(v) => Ok(v),
        Err(msg) => Err(IdeviceError::Restore(RestoreError::Img4(msg))),
    }
}

/// Builds a tag-length-value element with the given identifier octet.
pub fn tlv(tag: u8, content: &[u8]) -> (res: Result<Vec<u8>, IdeviceError>)
    ensures
        match tlv_opt(tag, Some(content@)) {
            Some(b) => res matches Ok(v) && v@ == b,
            None => res matches Err(e) && is_img4_error(e),
        },
{
    let len_octets = match encode_len(content.len()) {
        Ok(v) => v,
        Err(e) => return Err(e),
    };
    let mut out: Vec<u8> = Vec::new();
    out.push(tag);
    append_bytes(&mut out, len_octets.as_slice());
    append_bytes(&mut out, content);
    assert(out@ =~= der_tlv(tag, content@));
    Ok(out)
}

// ---------------------------------------------------------------------------
// Digits in a base
// ---------------------------------------------------------------------------

/// `b` to the power `k`.
pub open spec fn pow_nat(b: nat, k: nat) -> nat
    decreases k,
{
    if k == 0 {
        1
    } else {
        b * pow_nat(b, (k - 1) as nat)
    }
}

/// The digits of `n` in base `b`, most significant first, with no leading
/// zero digit (zero has the single digit 0).
pub open spec fn base_digits(n: nat, b: nat) -> Seq<u8>
    decreases n,
{
    if b < 2 || b > 256 || n < b {
        seq![n as u8]
    } else {
        proof {
            assert(n / b < n) by (nonlinear_arith)
                requires
                    b >= 2,
                    n >= b,
            ;
        }
        base_digits(n / b, b).push((n % b) as u8)
    }
}

/// The value of big-endian digits in base `b`.
pub open spec fn digits_value(s: Seq<u8>, b: nat) -> nat
    decreases s.len(),
{
    if s.len() == 0 {
        0
    } else {
        digits_value(s.drop_last(), b) * b + s.last() as nat
    }
}

proof fn lemma_pow_step(m: nat, k: nat, n: nat, b: nat, cap: nat)
    requires
        m > 0,
        b >= 2,
        m * pow_nat(b, k) <= n,
        pow_nat(b, cap) > n,
    ensures
        k < cap,
        (m / b) * pow_nat(b, k + 1) <= n,
        m / b > 0 ==> k + 1 < cap,
{
    lemma_pow_monotone(b, cap, k);
    lemma_pow_monotone(b, cap, k + 1);
    lemma_pow_positive(b, k);
    assert(m * pow_nat(b, k) >= pow_nat(b, k)) by (nonlinear_arith)
        requires
            m > 0,
    ;
    assert(pow_nat(b, k + 1) == b * pow_nat(b, k));
    assert((m / b) * pow_nat(b, k + 1) == ((m / b) * b) * pow_nat(b, k)) by (nonlinear_arith)
        requires
            pow_nat(b, k + 1) == b * pow_nat(b, k),
    ;
    assert((m / b) * b <= m) by (nonlinear_arith)
        requires
            b >= 2,
    ;
    assert(((m / b) * b) * pow_nat(b, k) <= m * pow_nat(b, k)) by (nonlinear_arith)
        requires
            (m / b) * b <= m,
    ;
    lemma_pow_positive(b, k + 1);
    assert(m / b > 0 ==> (m / b) * pow_nat(b, k + 1) >= pow_nat(b, k + 1)) by (nonlinear_arith);
}

pub proof fn lemma_pow_positive(b: nat, k: nat)
    requires
        b >= 1,
    ensures
        pow_nat(b, k) >= 1,
    decreases k,
{
    if k > 0 {
        lemma_pow_positive(b, (k - 1) as nat);
        assert(b * pow_nat(b, (k - 1) as nat) >= 1) by (nonlinear_arith)
            requires
                b >= 1,
                pow_nat(b, (k - 1) as nat) >= 1,
        ;
    }
}

/// `pow_nat(b, big) <= pow_nat(b, small)` fails only when `big > small`.
pub proof fn lemma_pow_monotone(b: nat, big: nat, small: nat)
    requires
        b >= 2,
    ensures
        small >= big ==> pow_nat(b, small) >= pow_nat(b, big),
    decreases small,
{
    if small > big {
        lemma_pow_monotone(b, big, (small - 1) as nat);
        lemma_pow_positive(b, (small - 1) as nat);
        assert(b * pow_nat(b, (small - 1) as nat) >= pow_nat(b, (small - 1) as nat)) by (nonlinear_arith)
            requires
                b >= 2,
        ;
    }
}

/// The digits of `n` in base `base`, most significant first.
pub fn base_digits_exec(n: u64, base: u64, cap: usize) -> (r: Vec<u8>)
    requires
        2 <= base <= 256,
        1 <= cap <= 64,
        pow_nat(base as nat, cap as nat) > n,
    ensures
        r@ == base_digits(n as nat, base as nat),
        r@.len() <= cap,
{
    let mut rev: Vec<u8> = Vec::new();
    let mut m: u64 = n;
    assert(pow_nat(base as nat, 0) == 1);
    assert(m as nat * pow_nat(base as nat, 0) == m as nat);
    loop
        invariant_except_break
            2 <= base <= 256,
            pow_nat(base as nat, cap as nat) > n,
            rev@.len() < cap,
            m > 0 || rev@.len() == 0,
            rev@.len() == 0 ==> m == n,
            rev@.len() > 0 ==> base_digits(n as nat, base as nat) == base_digits(m as nat, base as nat)
                + rev@.reverse(),
            m as nat * pow_nat(base as nat, rev@.len() as nat) <= n as nat,
        ensures
            rev@.len() <= cap,
            base_digits(n as nat, base as nat) == rev@.reverse(),
        decreases m,
    {
        let d = (m % base) as u8;
        proof {
            if m > 0 {
                lemma_pow_step(m as nat, rev@.len() as nat, n as nat, base as nat, cap as nat);
            }
        }
        let ghost old_rev = rev@;
        let ghost old_m = m;
        rev.push(d);
        m = m / base;
        assert(old_m > 0 ==> m < old_m) by (nonlinear_arith)
            requires
                m == old_m / base,
                base >= 2,
        ;
        proof {
            assert(rev@.reverse() =~= seq![d] + old_rev.reverse());
            if old_rev.len() == 0 {
                assert(old_rev.reverse() =~= Seq::<u8>::empty());
                assert(base_digits(old_m as nat, base as nat) + old_rev.reverse() =~= base_digits(
                    old_m as nat,
                    base as nat,
                ));
            }
            assert(base_digits(n as nat, base as nat) == base_digits(old_m as nat, base as nat)
                + old_rev.reverse());
            if old_m >= base {
                assert(base_digits(old_m as nat, base as nat) == base_digits(m as nat, base as nat).push(d));
                assert(base_digits(m as nat, base as nat).push(d) + old_rev.reverse() =~= base_digits(
                    m as nat,
                    base as nat,
                ) + rev@.reverse());
            } else {
                assert(old_m % base == old_m && old_m / base == 0) by (nonlinear_arith)
                    requires
                        old_m < base,
                ;
                assert(base_digits(old_m as nat, base as nat) =~= seq![d]);
            }
        }
        if m == 0 {
            proof {
                assert(old_m < base) by (nonlinear_arith)
                    requires
                        old_m / base == 0,
                        base >= 2,
                ;
                assert(seq![d] + old_rev.reverse() =~= rev@.reverse());
            }
            break;
        }
    }
    let mut out: Vec<u8> = Vec::new();
    let mut j: usize = rev.len();
    let ghost rv = rev@;
    while j > 0
        invariant
            j <= rv.len(),
            rev@ == rv,
            out@ == rv.reverse().take((rv.len() - j) as int),
        decreases j,
    {
        out.push(rev[j - 1]);
        j = j - 1;
        assert(out@ =~= rv.reverse().take((rv.len() - j) as int));
    }
    assert(rv.reverse().take(rv.len() as int) =~= rv.reverse());
    out
}

pub proof fn lemma_base_digits_value(n: nat, b: nat)
    requires
        2 <= b <= 256,
    ensures
        digits_value(base_digits(n, b), b) == n,
        base_digits(n, b).len() >= 1,
        base_digits(n, b).len() > 1 ==> base_digits(n, b)[0] != 0,
        forall|i: int| 0 <= i < base_digits(n, b).len() ==> (#[trigger] base_digits(n, b)[i]) < b,
    decreases n,
{
    if n < b {
        let s = base_digits(n, b);
        assert(s.drop_last() =~= Seq::<u8>::empty());
        assert(digits_value(Seq::<u8>::empty(), b) == 0);
        assert(0 * b == 0) by (nonlinear_arith);
        assert(n < 256);
    } else {
        assert(n / b < n) by (nonlinear_arith)
            requires
                b >= 2,
                n >= b,
        ;
        lemma_base_digits_value(n / b, b);
        let s = base_digits(n, b);
        let p = base_digits(n / b, b);
        assert(s.drop_last() =~= p);
        assert((n / b) * b + n % b == n) by (nonlinear_arith)
            requires
                b >= 2,
        ;
        assert(n % b < b) by (nonlinear_arith)
            requires
                b >= 2,
        ;
        assert(n / b >= 1) by (nonlinear_arith)
            requires
                b >= 2,
                n >= b,
        ;
        if n / b >= b {
            assert((n / b) / b < n / b) by (nonlinear_arith)
                requires
                    b >= 2,
                    n / b >= b,
            ;
            lemma_base_digits_value((n / b) / b, b);
            assert(p.len() >= 2);
        } else {
            assert(p =~= seq![(n / b) as u8]);
            assert(p[0] == (n / b) as u8);
        }
        assert(s[0] == p[0]);
        assert forall|i: int| 0 <= i < s.len() implies (#[trigger] s[i]) < b by {
            if i < p.len() {
                assert(s[i] == p[i]);
            }
        }
    }
}

// ---------------------------------------------------------------------------
// Integers, booleans and tag numbers
// ---------------------------------------------------------------------------

/// DER INTEGER content octets of a non-negative value: minimal big-endian,
/// with a leading zero octet when the top bit would otherwise be set.
pub open spec fn der_uint_bytes(value: u64) -> Seq<u8> {
    let d = base_digits(value as nat, 256);
    if d[0] >= 0x80 {
        seq![0u8] + d
    } else {
        d
    }
}

pub proof fn lemma_pow256_8()
    ensures
        pow_nat(256, 8) == 0x1_0000_0000_0000_0000nat,
        pow_nat(256, 8) > u64::MAX,
{
    reveal_with_fuel(pow_nat, 9);
    assert(pow_nat(256, 8) == 0x10000000000000000nat);
}

pub proof fn lemma_pow128_5()
    ensures
        pow_nat(128, 5) > u32::MAX,
{
    reveal_with_fuel(pow_nat, 6);
    assert(pow_nat(128, 5) == 0x800000000nat);
}

/// Encodes a non-negative integer as DER INTEGER content octets.
pub fn der_uint(value: u64) -> (r: Vec<u8>)
    ensures
        r@ == der_uint_bytes(value),
{
    proof {
        lemma_pow256_8();
    }
    let d = base_digits_exec(value, 256, 8);
    proof {
        lemma_base_digits_value(value as nat, 256);
    }
    if d[0] >= 0x80 {
        let mut out: Vec<u8> = Vec::new();
        out.push(0u8);
        append_bytes(&mut out, d.as_slice());
        assert(out@ =~= seq![0u8] + d@);
        out
    } else {
        d
    }
}

/// Encodes a DER BOOLEAN content octet (0xFF true, 0x00 false).
pub fn der_bool(value: bool) -> (r: Vec<u8>)
    ensures
        r@ == seq![if value { 0xFFu8 } else { 0x00u8 }],
{
    let r = vec![if value { 0xFFu8 } else { 0x00u8 }];
    assert(r@ =~= seq![if value { 0xFFu8 } else { 0x00u8 }]);
    r
}

/// The ASN.1 high-tag-number form of a tag number: base-128 digits, most
/// significant first, with the top bit set on every octet but the last.
pub open spec fn base128_bytes(value: u32) -> Seq<u8> {
    let d = base_digits(value as nat, 128);
    Seq::new(d.len(), |i: int| if i < d.len() - 1 { (d[i] + 0x80) as u8 } else { d[i] })
}

/// Encodes `value` as an ASN.1 high-tag-number (base-128) tag number body.
pub fn base128(value: u32) -> (r: Vec<u8>)
    ensures
        r@ == base128_bytes(value),
{
    proof {
        lemma_pow128_5();
        lemma_base_digits_value(value as nat, 128);
    }
    let d = base_digits_exec(value as u64, 128, 5);
    let n = d.len();
    let mut out: Vec<u8> = Vec::new();
    let mut i: usize = 0;
    while i < n
        invariant
            n == d@.len(),
            n >= 1,
            d@ == base_digits(value as nat, 128),
            forall|k: int| 0 <= k < d@.len() ==> (#[trigger] d@[k]) < 128,
            i <= n,
            out@ == base128_bytes(value).take(i as int),
        decreases n - i,
    {
        let b = if i != n - 1 {
            d[i] | 0x80u8
        } else {
            d[i]
        };
        proof {
            let x = d@[i as int];
            assert(x < 128);
            assert(x < 128 ==> x | 0x80u8 == (x + 0x80) as u8) by (bit_vector);
        }
        out.push(b);
        i = i + 1;
        assert(out@ =~= base128_bytes(value).take(i as int));
    }
    assert(base128_bytes(value).take(n as int) =~= base128_bytes(value));
    out
}

/// Law: every encoded tag number decodes back to itself: the low seven bits
/// of the octets are its base-128 digits, and only the last octet has the
/// top bit clear.
pub proof fn law_base128_decodes(value: u32)
    ensures
        ({
            let s = base128_bytes(value);
            &&& s.len() >= 1
            &&& digits_value(Seq::new(s.len(), |i: int| (s[i] % 128) as u8), 128) == value
            &&& forall|i: int| 0 <= i < s.len() ==> (#[trigger] s[i] >= 0x80) == (i < s.len() - 1)
        }),
{
    lemma_base_digits_value(value as nat, 128);
    let d = base_digits(value as nat, 128);
    let s = base128_bytes(value);
    assert(Seq::new(s.len(), |i: int| (s[i] % 128) as u8) =~= d);
}

/// Law: DER INTEGER content octets read back, big-endian, as the value,
/// and they are minimal and non-negative: no redundant leading zero octet,
/// and the first octet has its top bit clear.
pub proof fn law_der_uint_decodes(value: u64)
    ensures
        ({
            let s = der_uint_bytes(value);
            &&& 1 <= s.len() <= 9
            &&& digits_value(s, 256) == value
            &&& s[0] < 0x80
            &&& s.len() > 1 ==> (s[0] != 0 || s[1] >= 0x80)
        }),
{
    lemma_base_digits_value(value as nat, 256);
    lemma_pow256_8();
    let d = base_digits(value as nat, 256);
    lemma_digits_len_bound(value as nat, 256, 8);
    if d[0] >= 0x80 {
        lemma_digits_value_leading_zero(d, 256);
    }
}

proof fn lemma_digits_value_leading_zero(d: Seq<u8>, b: nat)
    ensures
        digits_value(seq![0u8] + d, b) == digits_value(d, b),
    decreases d.len(),
{
    if d.len() == 0 {
        assert(seq![0u8] + d =~= seq![0u8]);
        assert(seq![0u8].drop_last() =~= Seq::<u8>::empty());
        assert(digits_value(Seq::<u8>::empty(), b) == 0);
        assert(0 * b == 0) by (nonlinear_arith);
        assert(digits_value(seq![0u8], b) == 0);
        assert(d =~= Seq::<u8>::empty());
    } else {
        lemma_digits_value_leading_zero(d.drop_last(), b);
        assert((seq![0u8] + d).drop_last() =~= seq![0u8] + d.drop_last());
        assert((seq![0u8] + d).last() == d.last());
    }
}

pub proof fn lemma_digits_len_bound(n: nat, b: nat, cap: nat)
    requires
        2 <= b <= 256,
        cap >= 1,
        pow_nat(b, cap) > n,
    ensures
        base_digits(n, b).len() <= cap,
    decreases n,
{
    if n >= b {
        assert(n / b < n) by (nonlinear_arith)
            requires
                b >= 2,
                n >= b,
        ;
        if cap == 1 {
            assert(pow_nat(b, 0) == 1);
            assert(pow_nat(b, 1) == b * pow_nat(b, 0));
            assert(b * 1 == b) by (nonlinear_arith);
        } else {
            assert(pow_nat(b, cap) == b * pow_nat(b, (cap - 1) as nat));
            assert(pow_nat(b, (cap - 1) as nat) > n / b) by (nonlinear_arith)
                requires
                    pow_nat(b, cap) == b * pow_nat(b, (cap - 1) as nat),
                    pow_nat(b, cap) > n,
                    b >= 2,
            ;
            lemma_digits_len_bound(n / b, b, (cap - 1) as nat);
        }
    }
}

} // verus!
