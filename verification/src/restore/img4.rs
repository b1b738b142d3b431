//! IMG4 personalization (stitching).
//!
//! An IPSW firmware component is stored as an `IM4P` (payload) DER structure
//! and the TSS server returns an `IM4M` manifest (the `ApImg4Ticket`). To make
//! a component the device accepts, the two are combined, along with an
//! optional `IM4R` restore-info element, into an outer `IMG4` container:
//!
//! ```text
//! IMG4 ::= SEQUENCE {
//!     "IMG4"  (IA5String),
//!     im4p    IM4P,             -- embedded verbatim from the IPSW
//!     im4m    [0] EXPLICIT,     -- the ApImg4Ticket, embedded verbatim
//!     im4r    [1] EXPLICIT      -- optional restore info (nonce slot / TBM)
//! }
//! ```
//!
//! Both the `IM4P` and `IM4M` are embedded byte for byte; only the outer
//! container, the optional fourcc patch and the `IM4R` element are built here.

use vstd::prelude::*;

use crate::bytes::{append_bytes, bytes_equal};
use vstd::string::StringSliceAdditionalSpecFns;
use crate::error::IdeviceError;
use crate::restore::der::{
    base128, base128_bytes, base_digits, cat_opt, der_bool, der_length_encoding, der_max_len, der_uint,
    der_uint_bytes, der_tlv, digits_value, encode_len, law_der_uint_decodes, encoded_as, is_img4_error, lemma_digits_len_bound,
    lemma_pow128_5, lemma_pow256_8, lemma_pow_monotone, pow_nat, tlv, tlv_opt, DER_MAX_LEN,
};
use crate::restore::errors::RestoreError;
use vstd::slice::slice_to_vec;
use crate::plist::{lookup, removed, view_bool, view_data, view_dict, view_string, view_values, PlistDict, PlistValue, PlistView};
use crate::text::{str_equal, utf8_bytes, utf8_encode};
use crate::tss::{apply_restore_request_rules, rules_applied};
use vstd::string::StringExecFns;

verus! {

/// ASN.1 identifier octet of a BOOLEAN.
pub const TAG_BOOLEAN: u8 = 0x01;
/// ASN.1 identifier octet of an INTEGER.
pub const TAG_INTEGER: u8 = 0x02;
/// ASN.1 identifier octet of an OCTET STRING.
pub const TAG_OCTET_STRING: u8 = 0x04;
/// ASN.1 identifier octet of an IA5String.
pub const TAG_IA5_STRING: u8 = 0x16;
/// SEQUENCE, constructed.
pub const TAG_SEQUENCE: u8 = 0x30;
/// SET, constructed.
pub const TAG_SET: u8 = 0x31;
/// Context-specific `[0]`, constructed.
pub const TAG_CONTEXT_0: u8 = 0xA0;
/// Context-specific `[1]`, constructed.
pub const TAG_CONTEXT_1: u8 = 0xA1;
/// Private, constructed, high-tag-number form (0xC0 | 0x20 | 0x1F).
pub const TAG_PRIVATE_HIGH: u8 = 0xFF;

/// A property placed in the `IM4R` restore-info element.
///
/// Each property is keyed by a four-character code (such as `snid`, `anid`,
/// `ucon`, `ucer`) and carried under a private-class ASN.1 tag whose number is
/// the big-endian fourcc.
#[derive(Debug, Clone)]
pub enum RestoreProperty {
    /// An integer-valued property (nonce slot IDs `snid`/`anid`).
    Integer { fourcc: [u8; 4], value: u64 },
    /// An octet-string-valued property (`*-TBM` `ucon`/`ucer` blobs).
    OctetString { fourcc: [u8; 4], value: Vec<u8> },
}

// ---------------------------------------------------------------------------
// What the encoders produce
// ---------------------------------------------------------------------------

/// The big-endian value of four bytes.
pub open spec fn tag_number(tag4: Seq<u8>) -> u32 {
    (tag4[0] as nat * 0x100_0000 + tag4[1] as nat * 0x1_0000 + tag4[2] as nat * 0x100
        + tag4[3] as nat) as u32
}

/// The first four bytes of `name`, padded with zero bytes.
pub open spec fn name_tag(name: Seq<u8>) -> Seq<u8> {
    Seq::new(4, |i: int| if i < name.len() { name[i] } else { 0u8 })
}

/// A private, constructed, high-tag-number element numbered by `tag4`.
pub open spec fn private_element_bytes(tag4: Seq<u8>, body: Seq<u8>) -> Option<Seq<u8>> {
    if body.len() <= der_max_len() {
        Some(seq![TAG_PRIVATE_HIGH] + base128_bytes(tag_number(tag4)) + der_length_encoding(
            body.len(),
        ) + body)
    } else {
        None
    }
}

/// `name`'s element: a private tag numbered by the first four bytes of the
/// name, wrapping `SEQUENCE { IA5String name, value }`.
pub open spec fn named_element_bytes(name: Seq<u8>, value: Seq<u8>) -> Option<Seq<u8>> {
    match tlv_opt(TAG_SEQUENCE, cat_opt(tlv_opt(TAG_IA5_STRING, Some(name)), Some(value))) {
        Some(s) => private_element_bytes(name_tag(name), s),
        None => None,
    }
}

/// The DER value element of a restore property.
pub open spec fn property_value_bytes(p: RestoreProperty) -> Option<Seq<u8>> {
    match p {
        RestoreProperty::Integer { value, .. } => tlv_opt(
            TAG_INTEGER,
            Some(der_uint_bytes(value)),
        ),
        RestoreProperty::OctetString { value, .. } => tlv_opt(TAG_OCTET_STRING, Some(value@)),
    }
}

/// The fourcc of a restore property.
pub open spec fn property_fourcc(p: RestoreProperty) -> Seq<u8> {
    match p {
        RestoreProperty::Integer { fourcc, .. } => fourcc@,
        RestoreProperty::OctetString { fourcc, .. } => fourcc@,
    }
}

/// One `IM4R` property element.
pub open spec fn property_bytes(p: RestoreProperty) -> Option<Seq<u8>> {
    match property_value_bytes(p) {
        Some(v) => named_element_bytes(property_fourcc(p), v),
        None => None,
    }
}

/// The concatenated property elements, in order.
pub open spec fn properties_bytes(ps: Seq<RestoreProperty>) -> Option<Seq<u8>>
    decreases ps.len(),
{
    if ps.len() == 0 {
        Some(Seq::empty())
    } else {
        cat_opt(properties_bytes(ps.drop_last()), property_bytes(ps.last()))
    }
}

/// The ASCII bytes `IM4R`.
pub open spec fn im4r_magic() -> Seq<u8> {
    seq![0x49u8, 0x4D, 0x34, 0x52]
}

/// The ASCII bytes `IMG4`.
pub open spec fn img4_magic() -> Seq<u8> {
    seq![0x49u8, 0x4D, 0x47, 0x34]
}

/// `[1] EXPLICIT { SEQUENCE { IA5String "IM4R", SET { properties } } }`.
pub open spec fn im4r_bytes(ps: Seq<RestoreProperty>) -> Option<Seq<u8>> {
    tlv_opt(
        TAG_CONTEXT_1,
        tlv_opt(
            TAG_SEQUENCE,
            cat_opt(
                tlv_opt(TAG_IA5_STRING, Some(im4r_magic())),
                tlv_opt(TAG_SET, properties_bytes(ps)),
            ),
        ),
    )
}


/// The length octets at `at`: the content length and where the content
/// starts. Long forms carry one to eight big-endian octets.
pub open spec fn der_length_field(buf: Seq<u8>, at: nat) -> Option<(nat, nat)> {
    if at >= buf.len() {
        None
    } else if buf[at as int] < 0x80 {
        Some((buf[at as int] as nat, at + 1))
    } else {
        let n = (buf[at as int] - 0x80) as nat;
        if n == 0 || n > 8 || at + 1 + n > buf.len() {
            None
        } else {
            Some((digits_value(buf.subrange((at + 1) as int, (at + 1 + n) as int), 256), at + 1 + n))
        }
    }
}

/// The element header at `off`: its tag, content length and content start,
/// when the whole content lies inside `buf`.
pub open spec fn der_header(buf: Seq<u8>, off: nat) -> Option<(u8, nat, nat)> {
    if off >= buf.len() {
        None
    } else {
        match der_length_field(buf, off + 1) {
            Some((len, start)) => if start + len <= buf.len() {
                Some((buf[off as int], len, start))
            } else {
                None
            },
            None => None,
        }
    }
}

/// The `IM4P` with the four bytes of its type string replaced by `fourcc`:
/// the payload must be a SEQUENCE that starts with an IA5String magic
/// followed by a four-byte IA5String type.
pub open spec fn patched_im4p(im4p: Seq<u8>, fourcc: Seq<u8>) -> Option<Seq<u8>> {
    match der_header(im4p, 0) {
        Some((t, _l, s)) => if t != TAG_SEQUENCE {
            None
        } else {
            match der_header(im4p, s) {
                Some((t0, l0, s0)) => if t0 != TAG_IA5_STRING {
                    None
                } else {
                    match der_header(im4p, s0 + l0) {
                        Some((t1, l1, s1)) => if t1 != TAG_IA5_STRING || l1 != 4 {
                            None
                        } else {
                            Some(
                                im4p.subrange(0, s1 as int) + fourcc + im4p.subrange(
                                    (s1 + 4) as int,
                                    im4p.len() as int,
                                ),
                            )
                        },
                        None => None,
                    }
                },
                None => None,
            }
        },
        None => None,
    }
}

/// The personalized `IMG4`: `SEQUENCE { IA5String "IMG4", im4p, [0] ticket,
/// [1] im4r }`, the restore info present only when there are properties and
/// the payload re-tagged when an override is given.
pub open spec fn stitched_bytes(
    im4p: Seq<u8>,
    ticket: Seq<u8>,
    fourcc_override: Option<[u8; 4]>,
    props: Seq<RestoreProperty>,
) -> Option<Seq<u8>> {
    let payload = match fourcc_override {
        Some(f) => patched_im4p(im4p, f@),
        None => Some(im4p),
    };
    let head = cat_opt(
        cat_opt(tlv_opt(TAG_IA5_STRING, Some(img4_magic())), payload),
        tlv_opt(TAG_CONTEXT_0, Some(ticket)),
    );
    let content = if props.len() == 0 {
        head
    } else {
        cat_opt(head, im4r_bytes(props))
    };
    tlv_opt(TAG_SEQUENCE, content)
}

// ---------------------------------------------------------------------------
// Encoders
// ---------------------------------------------------------------------------

/// The big-endian value of a fourcc.
fn tag_number_of(tag4: [u8; 4]) -> (r: u32)
    ensures
        r == tag_number(tag4@),
{
    let r = (tag4[0] as u32) * 0x100_0000 + (tag4[1] as u32) * 0x1_0000 + (tag4[2] as u32) * 0x100
        + (tag4[3] as u32);
    r
}

proof fn lemma_base128_len(value: u32)
    ensures
        1 <= base128_bytes(value).len() <= 5,
{
    lemma_pow128_5();
    lemma_digits_len_bound(value as nat, 128, 5);
    assert(base_digits(value as nat, 128).len() >= 1) by {
        reveal_with_fuel(base_digits, 1);
        if value as nat >= 128 {
            assert(base_digits(value as nat, 128) == base_digits(value as nat / 128, 128).push(
                (value as nat % 128) as u8,
            ));
        }
    }
}

/// Builds a private, constructed, high-tag-number element numbered by `tag4`.
fn private_element(tag4: [u8; 4], body: &[u8]) -> (res: Result<Vec<u8>, IdeviceError>)
    ensures
        encoded_as(res, private_element_bytes(tag4@, body@)),
{
    let len_octets = match encode_len(body.len()) {
        Ok(v) => v,
        Err(e) => return Err(e),
    };
    let number = base128(tag_number_of(tag4));
    proof {
        lemma_base128_len(tag_number(tag4@));
    }
    let mut out: Vec<u8> = Vec::new();
    out.push(TAG_PRIVATE_HIGH);
    append_bytes(&mut out, number.as_slice());
    append_bytes(&mut out, len_octets.as_slice());
    append_bytes(&mut out, body);
    Ok(out)
}

/// The first four bytes of `name`, padded with zero bytes.
fn tag_of(name: &[u8]) -> (r: [u8; 4])
    ensures
        r@ == name_tag(name@),
{
    let mut tag4 = [0u8; 4];
    let mut i: usize = 0;
    while i < 4 && i < name.len()
        invariant
            i <= 4,
            forall|k: int| 0 <= k < 4 ==> (#[trigger] tag4@[k]) == if k < i && k < name@.len() {
                name@[k]
            } else {
                0u8
            },
        decreases 4 - i,
    {
        tag4[i] = name[i];
        i = i + 1;
    }
    assert(tag4@ =~= name_tag(name@));
    tag4
}

/// Builds `name`'s element: a private tag numbered by the first four bytes of
/// the name (zero-padded), wrapping `SEQUENCE { IA5String name, value }`.
fn named_element(name: &[u8], value: &[u8]) -> (res: Result<Vec<u8>, IdeviceError>)
    ensures
        encoded_as(res, named_element_bytes(name@, value@)),
{
    let tag4 = tag_of(name);
    let mut inner = match tlv(TAG_IA5_STRING, name) {
        Ok(v) => v,
        Err(e) => return Err(e),
    };
    if value.len() > DER_MAX_LEN {
        return Err(IdeviceError::Restore(RestoreError::Img4("element too long".to_owned())));
    }
    append_bytes(&mut inner, value);
    let seq = match tlv(TAG_SEQUENCE, inner.as_slice()) {
        Ok(v) => v,
        Err(e) => return Err(e),
    };
    private_element(tag4, seq.as_slice())
}

/// Builds one `IM4R` property: a private-tagged element wrapping a
/// `SEQUENCE { IA5String fourcc, <value> }`.
fn build_property(prop: &RestoreProperty) -> (res: Result<Vec<u8>, IdeviceError>)
    ensures
        encoded_as(res, property_bytes(*prop)),
{
    let (fourcc, value) = match prop {
        RestoreProperty::Integer { fourcc, value } => {
            let content = der_uint(*value);
            (*fourcc, tlv(TAG_INTEGER, content.as_slice()))
        },
        RestoreProperty::OctetString { fourcc, value } => (*fourcc, tlv(
            TAG_OCTET_STRING,
            value.as_slice(),
        )),
    };
    let value = match value {
        Ok(v) => v,
        Err(e) => return Err(e),
    };
    named_element(&fourcc, value.as_slice())
}

proof fn lemma_properties_prefix(ps: Seq<RestoreProperty>, i: int)
    requires
        0 <= i <= ps.len(),
        properties_bytes(ps) is Some,
    ensures
        properties_bytes(ps.take(i)) is Some,
        properties_bytes(ps.take(i))->0.len() <= properties_bytes(ps)->0.len(),
    decreases ps.len(),
{
    if i < ps.len() {
        lemma_properties_prefix(ps.drop_last(), i);
        assert(ps.drop_last().take(i) =~= ps.take(i));
    } else {
        assert(ps.take(i) =~= ps);
    }
}

fn img4_error(msg: &str) -> (e: IdeviceError)
    ensures
        is_img4_error(e),
{
    IdeviceError::Restore(RestoreError::Img4(msg.to_owned()))
}

/// Builds the `[1] EXPLICIT { SEQUENCE { IA5String "IM4R", SET { props } } }`
/// restore-info element.
fn build_im4r(props: &[RestoreProperty]) -> (res: Result<Vec<u8>, IdeviceError>)
    ensures
        encoded_as(res, im4r_bytes(props@)),
{
    let mut set_content: Vec<u8> = Vec::new();
    let mut i: usize = 0;
    assert(props@.take(0) =~= Seq::<RestoreProperty>::empty());
    while i < props.len()
        invariant
            i <= props@.len(),
            properties_bytes(props@.take(i as int)) == Some(set_content@),
            set_content@.len() <= der_max_len(),
        decreases props.len() - i,
    {
        let p = build_property(&props[i]);
        assert(props@.take(i + 1).drop_last() =~= props@.take(i as int));
        let p = match p {
            Ok(v) => v,
            Err(e) => {
                proof {
                    if properties_bytes(props@) is Some {
                        lemma_properties_prefix(props@, i + 1);
                    }
                }
                return Err(e);
            },
        };
        if p.len() > DER_MAX_LEN - set_content.len() {
            proof {
                if properties_bytes(props@) is Some {
                    lemma_properties_prefix(props@, i + 1);
                }
            }
            return Err(img4_error("IM4R properties too long"));
        }
        append_bytes(&mut set_content, p.as_slice());
        i = i + 1;
    }
    assert(props@.take(i as int) =~= props@);
    let magic: [u8; 4] = [0x49u8, 0x4D, 0x34, 0x52];
    assert(magic@ =~= im4r_magic());
    let mut seq_content = match tlv(TAG_IA5_STRING, &magic) {
        Ok(v) => v,
        Err(e) => return Err(e),
    };
    let set = match tlv(TAG_SET, set_content.as_slice()) {
        Ok(v) => v,
        Err(e) => return Err(e),
    };
    append_bytes(&mut seq_content, set.as_slice());
    let seq = match tlv(TAG_SEQUENCE, seq_content.as_slice()) {
        Ok(v) => v,
        Err(e) => return Err(e),
    };
    tlv(TAG_CONTEXT_1, seq.as_slice())
}

proof fn lemma_digits_value_bound(s: Seq<u8>)
    ensures
        digits_value(s, 256) < pow_nat(256, s.len()),
    decreases s.len(),
{
    if s.len() > 0 {
        lemma_digits_value_bound(s.drop_last());
        let a = digits_value(s.drop_last(), 256);
        let p = pow_nat(256, (s.len() - 1) as nat);
        let d = s.last() as nat;
        assert(a * 256 + d < p * 256) by (nonlinear_arith)
            requires
                a < p,
                d < 256,
        ;
    }
}

/// Reads a single-octet-tag element header at `off`: its tag, content length
/// and content start.
fn read_tlv(buf: &[u8], off: usize) -> (res: Result<(u8, usize, usize), IdeviceError>)
    ensures
        match der_header(buf@, off as nat) {
            Some((t, l, s)) => res matches Ok((t2, l2, s2)) && t2 == t && l2 == l && s2 == s,
            None => res matches Err(e) && is_img4_error(e),
        },
        res matches Ok((_t, l, s)) ==> s + l <= buf.len(),
{
    if off >= buf.len() || buf.len() - off < 2 {
        return Err(img4_error("truncated IM4P while locating fourcc"));
    }
    let tag = buf[off];
    let first = buf[off + 1];
    let mut start: usize = off + 2;
    let len: usize;
    if first < 0x80 {
        len = first as usize;
    } else {
        let n: usize = (first - 0x80) as usize;
        if n == 0 || n > 8 {
            return Err(img4_error("invalid IM4P length field"));
        }
        if n > buf.len() - start {
            return Err(img4_error("truncated IM4P while locating fourcc"));
        }
        let mut l: u64 = 0;
        let mut k: usize = 0;
        while k < n
            invariant
                n <= 8,
                start + n <= buf.len(),
                k <= n,
                l == digits_value(buf@.subrange(start as int, start + k), 256),
            decreases n - k,
        {
            let ghost prefix = buf@.subrange(start as int, start + k);
            proof {
                lemma_digits_value_bound(prefix);
                lemma_pow256_8();
                lemma_pow_monotone(256, (k + 1) as nat, 8);
                assert(pow_nat(256, (k + 1) as nat) == 256 * pow_nat(256, k as nat));
                assert(l * 256 + buf@[start + k] < 256 * pow_nat(256, k as nat)) by (nonlinear_arith)
                    requires
                        l < pow_nat(256, k as nat),
                        buf@[start + k] < 256,
                ;
                assert(buf@.subrange(start as int, start + k + 1).drop_last() =~= prefix);
            }
            l = l * 256 + buf[start + k] as u64;
            k = k + 1;
        }
        start = start + n;
        if l > (buf.len() - start) as u64 {
            return Err(img4_error("truncated IM4P while locating fourcc"));
        }
        len = l as usize;
    }
    if len > buf.len() - start {
        return Err(img4_error("truncated IM4P while locating fourcc"));
    }
    Ok((tag, len, start))
}

/// Replaces the four-byte type string of an `IM4P` with `fourcc`.
fn patch_im4p_fourcc(im4p: &[u8], fourcc: [u8; 4]) -> (res: Result<Vec<u8>, IdeviceError>)
    ensures
        encoded_as(res, patched_im4p(im4p@, fourcc@)),
{
    let (t, _len, seq_start) = match read_tlv(im4p, 0) {
        Ok(h) => h,
        Err(e) => return Err(e),
    };
    if t != TAG_SEQUENCE {
        return Err(img4_error("IM4P is not a SEQUENCE"));
    }
    let (t0, l0, s0) = match read_tlv(im4p, seq_start) {
        Ok(h) => h,
        Err(e) => return Err(e),
    };
    if t0 != TAG_IA5_STRING {
        return Err(img4_error("IM4P magic is not an IA5String"));
    }
    let (t1, l1, s1) = match read_tlv(im4p, s0 + l0) {
        Ok(h) => h,
        Err(e) => return Err(e),
    };
    if t1 != TAG_IA5_STRING || l1 != 4 {
        return Err(img4_error("IM4P type is not a 4-byte IA5String"));
    }
    let mut out = slice_to_vec(im4p);
    let mut k: usize = 0;
    while k < 4
        invariant
            s1 + 4 <= im4p.len(),
            k <= 4,
            out@.len() == im4p@.len(),
            forall|j: int|
                0 <= j < im4p@.len() ==> (#[trigger] out@[j]) == if s1 <= j < s1 + k {
                    fourcc@[j - s1]
                } else {
                    im4p@[j]
                },
        decreases 4 - k,
    {
        out.set(s1 + k, fourcc[k]);
        k = k + 1;
    }
    assert(out@ =~= im4p@.subrange(0, s1 as int) + fourcc@ + im4p@.subrange(
        s1 + 4,
        im4p@.len() as int,
    ));
    Ok(out)
}

/// Stitches an IPSW component into a personalized `IMG4`.
///
/// The payload is re-tagged with `fourcc_override` when one is given, and the
/// `IM4R` element is added only when there are restore properties. Fails with
/// an IMG4 error when the `IM4P` is malformed or a field is too long to encode.
pub fn stitch_component(
    im4p: &[u8],
    ap_img4_ticket: &[u8],
    fourcc_override: Option<[u8; 4]>,
    restore_properties: &[RestoreProperty],
) -> (res: Result<Vec<u8>, IdeviceError>)
    ensures
        encoded_as(res, stitched_bytes(im4p@, ap_img4_ticket@, fourcc_override, restore_properties@)),
{
    let payload = match fourcc_override {
        Some(f) => match patch_im4p_fourcc(im4p, f) {
            Ok(v) => v,
            Err(e) => return Err(e),
        },
        None => slice_to_vec(im4p),
    };
    let magic: [u8; 4] = [0x49u8, 0x4D, 0x47, 0x34];
    assert(magic@ =~= img4_magic());
    let mut content = match tlv(TAG_IA5_STRING, &magic) {
        Ok(v) => v,
        Err(e) => return Err(e),
    };
    if payload.len() > DER_MAX_LEN - content.len() {
        return Err(img4_error("IMG4 payload too long"));
    }
    append_bytes(&mut content, payload.as_slice());
    let ticket = match tlv(TAG_CONTEXT_0, ap_img4_ticket) {
        Ok(v) => v,
        Err(e) => return Err(e),
    };
    if ticket.len() > DER_MAX_LEN - content.len() {
        return Err(img4_error("IMG4 ticket too long"));
    }
    append_bytes(&mut content, ticket.as_slice());
    if restore_properties.len() != 0 {
        let im4r = match build_im4r(restore_properties) {
            Ok(v) => v,
            Err(e) => return Err(e),
        };
        if im4r.len() > DER_MAX_LEN - content.len() {
            return Err(img4_error("IM4R too long"));
        }
        append_bytes(&mut content, im4r.as_slice());
    }
    tlv(TAG_SEQUENCE, content.as_slice())
}

// ---------------------------------------------------------------------------
// Component fourccs
// ---------------------------------------------------------------------------

/// `r` is the fourcc that `expected` names, or none when it names none.
pub open spec fn fourcc_result(r: Option<[u8; 4]>, expected: Option<Seq<u8>>) -> bool {
    match expected {
        Some(c) => r matches Some(a) && a@ == c,
        None => r is None,
    }
}

/// The IMG4 fourcc of a build-manifest component name, when the name is in
/// the known table. Codes shorter than four characters are zero-padded.
pub open spec fn component_fourcc(name: Seq<u8>) -> Option<Seq<u8>> {
    component_fourcc_a(name)
}

/// The fourcc table, names starting with `A`.
pub open spec fn component_fourcc_a(name: Seq<u8>) -> Option<Seq<u8>> {
    if name == "ACIBT".spec_bytes() {
        Some(name_tag("acib".spec_bytes()))
    } else if name == "ACIBTLPEM".spec_bytes() {
        Some(name_tag("lpbt".spec_bytes()))
    } else if name == "ACIWIFI".spec_bytes() {
        Some(name_tag("aciw".spec_bytes()))
    } else if name == "ANE".spec_bytes() {
        Some(name_tag("anef".spec_bytes()))
    } else if name == "ANS".spec_bytes() {
        Some(name_tag("ansf".spec_bytes()))
    } else if name == "AOP".spec_bytes() {
        Some(name_tag("aopf".spec_bytes()))
    } else if name == "AVE".spec_bytes() {
        Some(name_tag("avef".spec_bytes()))
    } else if name == "Alamo".spec_bytes() {
        Some(name_tag("almo".spec_bytes()))
    } else if name == "Ap,ANE1".spec_bytes() {
        Some(name_tag("ane1".spec_bytes()))
    } else if name == "Ap,ANE2".spec_bytes() {
        Some(name_tag("ane2".spec_bytes()))
    } else if name == "Ap,ANE3".spec_bytes() {
        Some(name_tag("ane3".spec_bytes()))
    } else if name == "Ap,AudioAccessibilityBootChime".spec_bytes() {
        Some(name_tag("auac".spec_bytes()))
    } else if name == "Ap,AudioBootChime".spec_bytes() {
        Some(name_tag("aubt".spec_bytes()))
    } else if name == "Ap,AudioPowerAttachChime".spec_bytes() {
        Some(name_tag("aupr".spec_bytes()))
    } else if name == "Ap,BootabilityBrainTrustCache".spec_bytes() {
        Some(name_tag("trbb".spec_bytes()))
    } else if name == "Ap,CIO".spec_bytes() {
        Some(name_tag("ciof".spec_bytes()))
    } else if name == "Ap,HapticAssets".spec_bytes() {
        Some(name_tag("hpas".spec_bytes()))
    } else if name == "Ap,LocalBoot".spec_bytes() {
        Some(name_tag("lobo".spec_bytes()))
    } else if name == "Ap,LocalPolicy".spec_bytes() {
        Some(name_tag("lpol".spec_bytes()))
    } else if name == "Ap,NextStageIM4MHash".spec_bytes() {
        Some(name_tag("nsih".spec_bytes()))
    } else if name == "Ap,RecoveryOSPolicyNonceHash".spec_bytes() {
        Some(name_tag("ronh".spec_bytes()))
    } else if name == "Ap,RestoreANE1".spec_bytes() {
        Some(name_tag("ran1".spec_bytes()))
    } else if name == "Ap,RestoreANE2".spec_bytes() {
        Some(name_tag("ran2".spec_bytes()))
    } else if name == "Ap,RestoreANE3".spec_bytes() {
        Some(name_tag("ran3".spec_bytes()))
    } else if name == "Ap,RestoreCIO".spec_bytes() {
        Some(name_tag("rcio".spec_bytes()))
    } else if name == "Ap,RestoreDCP2".spec_bytes() {
        Some(name_tag("rdc2".spec_bytes()))
    } else if name == "Ap,RestoreTMU".spec_bytes() {
        Some(name_tag("rtmu".spec_bytes()))
    } else if name == "Ap,Scorpius".spec_bytes() {
        Some(name_tag("scpf".spec_bytes()))
    } else if name == "Ap,SystemVolumeCanonicalMetadata".spec_bytes() {
        Some(name_tag("msys".spec_bytes()))
    } else if name == "Ap,TMU".spec_bytes() {
        Some(name_tag("tmuf".spec_bytes()))
    } else if name == "Ap,VolumeUUID".spec_bytes() {
        Some(name_tag("vuid".spec_bytes()))
    } else if name == "Ap,rOSLogo1".spec_bytes() {
        Some(name_tag("rlg1".spec_bytes()))
    } else if name == "Ap,rOSLogo2".spec_bytes() {
        Some(name_tag("rlg2".spec_bytes()))
    } else if name == "AppleLogo".spec_bytes() {
        Some(name_tag("logo".spec_bytes()))
    } else if name == "AudioCodecFirmware".spec_bytes() {
        Some(name_tag("acfw".spec_bytes()))
    } else if name == "Ap,DCP2".spec_bytes() {
        Some(name_tag("dcp2".spec_bytes()))
    } else if name == "Ap,RestoreSecureM3Firmware".spec_bytes() {
        Some(name_tag("rsm3".spec_bytes()))
    } else if name == "Ap,RestoreSecurePageTableMonitor".spec_bytes() {
        Some(name_tag("rspt".spec_bytes()))
    } else if name == "Ap,RestoreTrustedExecutionMonitor".spec_bytes() {
        Some(name_tag("rtrx".spec_bytes()))
    } else if name == "Ap,RestorecL4".spec_bytes() {
        Some(name_tag("rxcl".spec_bytes()))
    } else {
        component_fourcc_b_to_l(name)
    }
}

fn fourcc_a(name: &[u8]) -> (r: Option<[u8; 4]>)
    ensures
        fourcc_result(r, component_fourcc_a(name@)),
{
    if bytes_equal(name, "ACIBT".as_bytes()) {
        return Some(tag_of("acib".as_bytes()));
    }
    if bytes_equal(name, "ACIBTLPEM".as_bytes()) {
        return Some(tag_of("lpbt".as_bytes()));
    }
    if bytes_equal(name, "ACIWIFI".as_bytes()) {
        return Some(tag_of("aciw".as_bytes()));
    }
    if bytes_equal(name, "ANE".as_bytes()) {
        return Some(tag_of("anef".as_bytes()));
    }
    if bytes_equal(name, "ANS".as_bytes()) {
        return Some(tag_of("ansf".as_bytes()));
    }
    if bytes_equal(name, "AOP".as_bytes()) {
        return Some(tag_of("aopf".as_bytes()));
    }
    if bytes_equal(name, "AVE".as_bytes()) {
        return Some(tag_of("avef".as_bytes()));
    }
    if bytes_equal(name, "Alamo".as_bytes()) {
        return Some(tag_of("almo".as_bytes()));
    }
    if bytes_equal(name, "Ap,ANE1".as_bytes()) {
        return Some(tag_of("ane1".as_bytes()));
    }
    if bytes_equal(name, "Ap,ANE2".as_bytes()) {
        return Some(tag_of("ane2".as_bytes()));
    }
    if bytes_equal(name, "Ap,ANE3".as_bytes()) {
        return Some(tag_of("ane3".as_bytes()));
    }
    if bytes_equal(name, "Ap,AudioAccessibilityBootChime".as_bytes()) {
        return Some(tag_of("auac".as_bytes()));
    }
    if bytes_equal(name, "Ap,AudioBootChime".as_bytes()) {
        return Some(tag_of("aubt".as_bytes()));
    }
    if bytes_equal(name, "Ap,AudioPowerAttachChime".as_bytes()) {
        return Some(tag_of("aupr".as_bytes()));
    }
    if bytes_equal(name, "Ap,BootabilityBrainTrustCache".as_bytes()) {
        return Some(tag_of("trbb".as_bytes()));
    }
    if bytes_equal(name, "Ap,CIO".as_bytes()) {
        return Some(tag_of("ciof".as_bytes()));
    }
    if bytes_equal(name, "Ap,HapticAssets".as_bytes()) {
        return Some(tag_of("hpas".as_bytes()));
    }
    if bytes_equal(name, "Ap,LocalBoot".as_bytes()) {
        return Some(tag_of("lobo".as_bytes()));
    }
    if bytes_equal(name, "Ap,LocalPolicy".as_bytes()) {
        return Some(tag_of("lpol".as_bytes()));
    }
    if bytes_equal(name, "Ap,NextStageIM4MHash".as_bytes()) {
        return Some(tag_of("nsih".as_bytes()));
    }
    if bytes_equal(name, "Ap,RecoveryOSPolicyNonceHash".as_bytes()) {
        return Some(tag_of("ronh".as_bytes()));
    }
    if bytes_equal(name, "Ap,RestoreANE1".as_bytes()) {
        return Some(tag_of("ran1".as_bytes()));
    }
    if bytes_equal(name, "Ap,RestoreANE2".as_bytes()) {
        return Some(tag_of("ran2".as_bytes()));
    }
    if bytes_equal(name, "Ap,RestoreANE3".as_bytes()) {
        return Some(tag_of("ran3".as_bytes()));
    }
    if bytes_equal(name, "Ap,RestoreCIO".as_bytes()) {
        return Some(tag_of("rcio".as_bytes()));
    }
    if bytes_equal(name, "Ap,RestoreDCP2".as_bytes()) {
        return Some(tag_of("rdc2".as_bytes()));
    }
    if bytes_equal(name, "Ap,RestoreTMU".as_bytes()) {
        return Some(tag_of("rtmu".as_bytes()));
    }
    if bytes_equal(name, "Ap,Scorpius".as_bytes()) {
        return Some(tag_of("scpf".as_bytes()));
    }
    if bytes_equal(name, "Ap,SystemVolumeCanonicalMetadata".as_bytes()) {
        return Some(tag_of("msys".as_bytes()));
    }
    if bytes_equal(name, "Ap,TMU".as_bytes()) {
        return Some(tag_of("tmuf".as_bytes()));
    }
    if bytes_equal(name, "Ap,VolumeUUID".as_bytes()) {
        return Some(tag_of("vuid".as_bytes()));
    }
    if bytes_equal(name, "Ap,rOSLogo1".as_bytes()) {
        return Some(tag_of("rlg1".as_bytes()));
    }
    if bytes_equal(name, "Ap,rOSLogo2".as_bytes()) {
        return Some(tag_of("rlg2".as_bytes()));
    }
    if bytes_equal(name, "AppleLogo".as_bytes()) {
        return Some(tag_of("logo".as_bytes()));
    }
    if bytes_equal(name, "AudioCodecFirmware".as_bytes()) {
        return Some(tag_of("acfw".as_bytes()));
    }
    if bytes_equal(name, "Ap,DCP2".as_bytes()) {
        return Some(tag_of("dcp2".as_bytes()));
    }
    if bytes_equal(name, "Ap,RestoreSecureM3Firmware".as_bytes()) {
        return Some(tag_of("rsm3".as_bytes()));
    }
    if bytes_equal(name, "Ap,RestoreSecurePageTableMonitor".as_bytes()) {
        return Some(tag_of("rspt".as_bytes()));
    }
    if bytes_equal(name, "Ap,RestoreTrustedExecutionMonitor".as_bytes()) {
        return Some(tag_of("rtrx".as_bytes()));
    }
    if bytes_equal(name, "Ap,RestorecL4".as_bytes()) {
        return Some(tag_of("rxcl".as_bytes()));
    }
    fourcc_b_to_l(name)
}

/// The fourcc table, names starting with `B` to `L`.
pub open spec fn component_fourcc_b_to_l(name: Seq<u8>) -> Option<Seq<u8>> {
    if name == "BatteryCharging".spec_bytes() {
        Some(name_tag("glyC".spec_bytes()))
    } else if name == "BatteryCharging0".spec_bytes() {
        Some(name_tag("chg0".spec_bytes()))
    } else if name == "BatteryCharging1".spec_bytes() {
        Some(name_tag("chg1".spec_bytes()))
    } else if name == "BatteryFull".spec_bytes() {
        Some(name_tag("batF".spec_bytes()))
    } else if name == "BatteryLow0".spec_bytes() {
        Some(name_tag("bat0".spec_bytes()))
    } else if name == "BatteryLow1".spec_bytes() {
        Some(name_tag("bat1".spec_bytes()))
    } else if name == "BatteryPlugin".spec_bytes() {
        Some(name_tag("glyP".spec_bytes()))
    } else if name == "CFELoader".spec_bytes() {
        Some(name_tag("cfel".spec_bytes()))
    } else if name == "CrownFirmware".spec_bytes() {
        Some(name_tag("crwn".spec_bytes()))
    } else if name == "DCP".spec_bytes() {
        Some(name_tag("dcpf".spec_bytes()))
    } else if name == "Dali".spec_bytes() {
        Some(name_tag("dali".spec_bytes()))
    } else if name == "DeviceTree".spec_bytes() {
        Some(name_tag("dtre".spec_bytes()))
    } else if name == "Diags".spec_bytes() {
        Some(name_tag("diag".spec_bytes()))
    } else if name == "EngineeringTrustCache".spec_bytes() {
        Some(name_tag("dtrs".spec_bytes()))
    } else if name == "ExtDCP".spec_bytes() {
        Some(name_tag("edcp".spec_bytes()))
    } else if name == "GFX".spec_bytes() {
        Some(name_tag("gfxf".spec_bytes()))
    } else if name == "Hamm".spec_bytes() {
        Some(name_tag("hamf".spec_bytes()))
    } else if name == "Homer".spec_bytes() {
        Some(name_tag("homr".spec_bytes()))
    } else if name == "ISP".spec_bytes() {
        Some(name_tag("ispf".spec_bytes()))
    } else if name == "InputDevice".spec_bytes() {
        Some(name_tag("ipdf".spec_bytes()))
    } else if name == "KernelCache".spec_bytes() {
        Some(name_tag("krnl".spec_bytes()))
    } else if name == "LLB".spec_bytes() {
        Some(name_tag("illb".spec_bytes()))
    } else if name == "LeapHaptics".spec_bytes() {
        Some(name_tag("lphp".spec_bytes()))
    } else if name == "Liquid".spec_bytes() {
        Some(name_tag("liqd".spec_bytes()))
    } else if name == "LoadableTrustCache".spec_bytes() {
        Some(name_tag("ltrs".spec_bytes()))
    } else if name == "LowPowerWallet0".spec_bytes() {
        Some(name_tag("lpw0".spec_bytes()))
    } else if name == "LowPowerWallet1".spec_bytes() {
        Some(name_tag("lpw1".spec_bytes()))
    } else if name == "LowPowerWallet2".spec_bytes() {
        Some(name_tag("lpw2".spec_bytes()))
    } else {
        component_fourcc_m_to_r(name)
    }
}

fn fourcc_b_to_l(name: &[u8]) -> (r: Option<[u8; 4]>)
    ensures
        fourcc_result(r, component_fourcc_b_to_l(name@)),
{
    if bytes_equal(name, "BatteryCharging".as_bytes()) {
        return Some(tag_of("glyC".as_bytes()));
    }
    if bytes_equal(name, "BatteryCharging0".as_bytes()) {
        return Some(tag_of("chg0".as_bytes()));
    }
    if bytes_equal(name, "BatteryCharging1".as_bytes()) {
        return Some(tag_of("chg1".as_bytes()));
    }
    if bytes_equal(name, "BatteryFull".as_bytes()) {
        return Some(tag_of("batF".as_bytes()));
    }
    if bytes_equal(name, "BatteryLow0".as_bytes()) {
        return Some(tag_of("bat0".as_bytes()));
    }
    if bytes_equal(name, "BatteryLow1".as_bytes()) {
        return Some(tag_of("bat1".as_bytes()));
    }
    if bytes_equal(name, "BatteryPlugin".as_bytes()) {
        return Some(tag_of("glyP".as_bytes()));
    }
    if bytes_equal(name, "CFELoader".as_bytes()) {
        return Some(tag_of("cfel".as_bytes()));
    }
    if bytes_equal(name, "CrownFirmware".as_bytes()) {
        return Some(tag_of("crwn".as_bytes()));
    }
    if bytes_equal(name, "DCP".as_bytes()) {
        return Some(tag_of("dcpf".as_bytes()));
    }
    if bytes_equal(name, "Dali".as_bytes()) {
        return Some(tag_of("dali".as_bytes()));
    }
    if bytes_equal(name, "DeviceTree".as_bytes()) {
        return Some(tag_of("dtre".as_bytes()));
    }
    if bytes_equal(name, "Diags".as_bytes()) {
        return Some(tag_of("diag".as_bytes()));
    }
    if bytes_equal(name, "EngineeringTrustCache".as_bytes()) {
        return Some(tag_of("dtrs".as_bytes()));
    }
    if bytes_equal(name, "ExtDCP".as_bytes()) {
        return Some(tag_of("edcp".as_bytes()));
    }
    if bytes_equal(name, "GFX".as_bytes()) {
        return Some(tag_of("gfxf".as_bytes()));
    }
    if bytes_equal(name, "Hamm".as_bytes()) {
        return Some(tag_of("hamf".as_bytes()));
    }
    if bytes_equal(name, "Homer".as_bytes()) {
        return Some(tag_of("homr".as_bytes()));
    }
    if bytes_equal(name, "ISP".as_bytes()) {
        return Some(tag_of("ispf".as_bytes()));
    }
    if bytes_equal(name, "InputDevice".as_bytes()) {
        return Some(tag_of("ipdf".as_bytes()));
    }
    if bytes_equal(name, "KernelCache".as_bytes()) {
        return Some(tag_of("krnl".as_bytes()));
    }
    if bytes_equal(name, "LLB".as_bytes()) {
        return Some(tag_of("illb".as_bytes()));
    }
    if bytes_equal(name, "LeapHaptics".as_bytes()) {
        return Some(tag_of("lphp".as_bytes()));
    }
    if bytes_equal(name, "Liquid".as_bytes()) {
        return Some(tag_of("liqd".as_bytes()));
    }
    if bytes_equal(name, "LoadableTrustCache".as_bytes()) {
        return Some(tag_of("ltrs".as_bytes()));
    }
    if bytes_equal(name, "LowPowerWallet0".as_bytes()) {
        return Some(tag_of("lpw0".as_bytes()));
    }
    if bytes_equal(name, "LowPowerWallet1".as_bytes()) {
        return Some(tag_of("lpw1".as_bytes()));
    }
    if bytes_equal(name, "LowPowerWallet2".as_bytes()) {
        return Some(tag_of("lpw2".as_bytes()));
    }
    fourcc_m_to_r(name)
}

/// The fourcc table, names starting with `M` to `R`.
pub open spec fn component_fourcc_m_to_r(name: Seq<u8>) -> Option<Seq<u8>> {
    if name == "MacEFI".spec_bytes() {
        Some(name_tag("mefi".spec_bytes()))
    } else if name == "MtpFirmware".spec_bytes() {
        Some(name_tag("mtpf".spec_bytes()))
    } else if name == "Multitouch".spec_bytes() {
        Some(name_tag("mtfw".spec_bytes()))
    } else if name == "NeedService".spec_bytes() {
        Some(name_tag("nsrv".spec_bytes()))
    } else if name == "OS".spec_bytes() {
        Some(name_tag("OS".spec_bytes()))
    } else if name == "OSRamdisk".spec_bytes() {
        Some(name_tag("osrd".spec_bytes()))
    } else if name == "PEHammer".spec_bytes() {
        Some(name_tag("hmmr".spec_bytes()))
    } else if name == "PERTOS".spec_bytes() {
        Some(name_tag("pert".spec_bytes()))
    } else if name == "PHLEET".spec_bytes() {
        Some(name_tag("phlt".spec_bytes()))
    } else if name == "PMP".spec_bytes() {
        Some(name_tag("pmpf".spec_bytes()))
    } else if name == "PersonalizedDMG".spec_bytes() {
        Some(name_tag("pdmg".spec_bytes()))
    } else if name == "RBM".spec_bytes() {
        Some(name_tag("rmbt".spec_bytes()))
    } else if name == "RTP".spec_bytes() {
        Some(name_tag("rtpf".spec_bytes()))
    } else if name == "Rap,SoftwareBinaryDsp1".spec_bytes() {
        Some(name_tag("sbd1".spec_bytes()))
    } else if name == "Rap,RTKitOS".spec_bytes() {
        Some(name_tag("rkos".spec_bytes()))
    } else if name == "Rap,RestoreRTKitOS".spec_bytes() {
        Some(name_tag("rrko".spec_bytes()))
    } else if name == "RecoveryMode".spec_bytes() {
        Some(name_tag("recm".spec_bytes()))
    } else if name == "RestoreANS".spec_bytes() {
        Some(name_tag("rans".spec_bytes()))
    } else if name == "RestoreDCP".spec_bytes() {
        Some(name_tag("rdcp".spec_bytes()))
    } else if name == "RestoreDeviceTree".spec_bytes() {
        Some(name_tag("rdtr".spec_bytes()))
    } else if name == "RestoreExtDCP".spec_bytes() {
        Some(name_tag("recp".spec_bytes()))
    } else if name == "RestoreKernelCache".spec_bytes() {
        Some(name_tag("rkrn".spec_bytes()))
    } else if name == "RestoreLogo".spec_bytes() {
        Some(name_tag("rlgo".spec_bytes()))
    } else if name == "RestoreRTP".spec_bytes() {
        Some(name_tag("rrtp".spec_bytes()))
    } else if name == "RestoreRamDisk".spec_bytes() {
        Some(name_tag("rdsk".spec_bytes()))
    } else if name == "RestoreSEP".spec_bytes() {
        Some(name_tag("rsep".spec_bytes()))
    } else if name == "RestoreTrustCache".spec_bytes() {
        Some(name_tag("rtsc".spec_bytes()))
    } else {
        component_fourcc_rest(name)
    }
}

fn fourcc_m_to_r(name: &[u8]) -> (r: Option<[u8; 4]>)
    ensures
        fourcc_result(r, component_fourcc_m_to_r(name@)),
{
    if bytes_equal(name, "MacEFI".as_bytes()) {
        return Some(tag_of("mefi".as_bytes()));
    }
    if bytes_equal(name, "MtpFirmware".as_bytes()) {
        return Some(tag_of("mtpf".as_bytes()));
    }
    if bytes_equal(name, "Multitouch".as_bytes()) {
        return Some(tag_of("mtfw".as_bytes()));
    }
    if bytes_equal(name, "NeedService".as_bytes()) {
        return Some(tag_of("nsrv".as_bytes()));
    }
    if bytes_equal(name, "OS".as_bytes()) {
        return Some(tag_of("OS".as_bytes()));
    }
    if bytes_equal(name, "OSRamdisk".as_bytes()) {
        return Some(tag_of("osrd".as_bytes()));
    }
    if bytes_equal(name, "PEHammer".as_bytes()) {
        return Some(tag_of("hmmr".as_bytes()));
    }
    if bytes_equal(name, "PERTOS".as_bytes()) {
        return Some(tag_of("pert".as_bytes()));
    }
    if bytes_equal(name, "PHLEET".as_bytes()) {
        return Some(tag_of("phlt".as_bytes()));
    }
    if bytes_equal(name, "PMP".as_bytes()) {
        return Some(tag_of("pmpf".as_bytes()));
    }
    if bytes_equal(name, "PersonalizedDMG".as_bytes()) {
        return Some(tag_of("pdmg".as_bytes()));
    }
    if bytes_equal(name, "RBM".as_bytes()) {
        return Some(tag_of("rmbt".as_bytes()));
    }
    if bytes_equal(name, "RTP".as_bytes()) {
        return Some(tag_of("rtpf".as_bytes()));
    }
    if bytes_equal(name, "Rap,SoftwareBinaryDsp1".as_bytes()) {
        return Some(tag_of("sbd1".as_bytes()));
    }
    if bytes_equal(name, "Rap,RTKitOS".as_bytes()) {
        return Some(tag_of("rkos".as_bytes()));
    }
    if bytes_equal(name, "Rap,RestoreRTKitOS".as_bytes()) {
        return Some(tag_of("rrko".as_bytes()));
    }
    if bytes_equal(name, "RecoveryMode".as_bytes()) {
        return Some(tag_of("recm".as_bytes()));
    }
    if bytes_equal(name, "RestoreANS".as_bytes()) {
        return Some(tag_of("rans".as_bytes()));
    }
    if bytes_equal(name, "RestoreDCP".as_bytes()) {
        return Some(tag_of("rdcp".as_bytes()));
    }
    if bytes_equal(name, "RestoreDeviceTree".as_bytes()) {
        return Some(tag_of("rdtr".as_bytes()));
    }
    if bytes_equal(name, "RestoreExtDCP".as_bytes()) {
        return Some(tag_of("recp".as_bytes()));
    }
    if bytes_equal(name, "RestoreKernelCache".as_bytes()) {
        return Some(tag_of("rkrn".as_bytes()));
    }
    if bytes_equal(name, "RestoreLogo".as_bytes()) {
        return Some(tag_of("rlgo".as_bytes()));
    }
    if bytes_equal(name, "RestoreRTP".as_bytes()) {
        return Some(tag_of("rrtp".as_bytes()));
    }
    if bytes_equal(name, "RestoreRamDisk".as_bytes()) {
        return Some(tag_of("rdsk".as_bytes()));
    }
    if bytes_equal(name, "RestoreSEP".as_bytes()) {
        return Some(tag_of("rsep".as_bytes()));
    }
    if bytes_equal(name, "RestoreTrustCache".as_bytes()) {
        return Some(tag_of("rtsc".as_bytes()));
    }
    fourcc_rest(name)
}

/// The fourcc table, the remaining names.
pub open spec fn component_fourcc_rest(name: Seq<u8>) -> Option<Seq<u8>> {
    if name == "SCE".spec_bytes() {
        Some(name_tag("scef".spec_bytes()))
    } else if name == "SCE1Firmware".spec_bytes() {
        Some(name_tag("sc1f".spec_bytes()))
    } else if name == "SEP".spec_bytes() {
        Some(name_tag("sepi".spec_bytes()))
    } else if name == "SIO".spec_bytes() {
        Some(name_tag("siof".spec_bytes()))
    } else if name == "StaticTrustCache".spec_bytes() {
        Some(name_tag("trst".spec_bytes()))
    } else if name == "SystemLocker".spec_bytes() {
        Some(name_tag("lckr".spec_bytes()))
    } else if name == "SystemVolume".spec_bytes() {
        Some(name_tag("isys".spec_bytes()))
    } else if name == "WCHFirmwareUpdater".spec_bytes() {
        Some(name_tag("wchf".spec_bytes()))
    } else if name == "ftap".spec_bytes() {
        Some(name_tag("ftap".spec_bytes()))
    } else if name == "ftsp".spec_bytes() {
        Some(name_tag("ftsp".spec_bytes()))
    } else if name == "iBEC".spec_bytes() {
        Some(name_tag("ibec".spec_bytes()))
    } else if name == "iBSS".spec_bytes() {
        Some(name_tag("ibss".spec_bytes()))
    } else if name == "iBoot".spec_bytes() {
        Some(name_tag("ibot".spec_bytes()))
    } else if name == "iBootData".spec_bytes() {
        Some(name_tag("ibdt".spec_bytes()))
    } else if name == "iBootDataStage1".spec_bytes() {
        Some(name_tag("ibd1".spec_bytes()))
    } else if name == "iBootTest".spec_bytes() {
        Some(name_tag("itst".spec_bytes()))
    } else if name == "rfta".spec_bytes() {
        Some(name_tag("rfta".spec_bytes()))
    } else if name == "rfts".spec_bytes() {
        Some(name_tag("rfts".spec_bytes()))
    } else {
        None
    }
}

fn fourcc_rest(name: &[u8]) -> (r: Option<[u8; 4]>)
    ensures
        fourcc_result(r, component_fourcc_rest(name@)),
{
    if bytes_equal(name, "SCE".as_bytes()) {
        return Some(tag_of("scef".as_bytes()));
    }
    if bytes_equal(name, "SCE1Firmware".as_bytes()) {
        return Some(tag_of("sc1f".as_bytes()));
    }
    if bytes_equal(name, "SEP".as_bytes()) {
        return Some(tag_of("sepi".as_bytes()));
    }
    if bytes_equal(name, "SIO".as_bytes()) {
        return Some(tag_of("siof".as_bytes()));
    }
    if bytes_equal(name, "StaticTrustCache".as_bytes()) {
        return Some(tag_of("trst".as_bytes()));
    }
    if bytes_equal(name, "SystemLocker".as_bytes()) {
        return Some(tag_of("lckr".as_bytes()));
    }
    if bytes_equal(name, "SystemVolume".as_bytes()) {
        return Some(tag_of("isys".as_bytes()));
    }
    if bytes_equal(name, "WCHFirmwareUpdater".as_bytes()) {
        return Some(tag_of("wchf".as_bytes()));
    }
    if bytes_equal(name, "ftap".as_bytes()) {
        return Some(tag_of("ftap".as_bytes()));
    }
    if bytes_equal(name, "ftsp".as_bytes()) {
        return Some(tag_of("ftsp".as_bytes()));
    }
    if bytes_equal(name, "iBEC".as_bytes()) {
        return Some(tag_of("ibec".as_bytes()));
    }
    if bytes_equal(name, "iBSS".as_bytes()) {
        return Some(tag_of("ibss".as_bytes()));
    }
    if bytes_equal(name, "iBoot".as_bytes()) {
        return Some(tag_of("ibot".as_bytes()));
    }
    if bytes_equal(name, "iBootData".as_bytes()) {
        return Some(tag_of("ibdt".as_bytes()));
    }
    if bytes_equal(name, "iBootDataStage1".as_bytes()) {
        return Some(tag_of("ibd1".as_bytes()));
    }
    if bytes_equal(name, "iBootTest".as_bytes()) {
        return Some(tag_of("itst".as_bytes()));
    }
    if bytes_equal(name, "rfta".as_bytes()) {
        return Some(tag_of("rfta".as_bytes()));
    }
    if bytes_equal(name, "rfts".as_bytes()) {
        return Some(tag_of("rfts".as_bytes()));
    }
    None
}

/// Returns the IMG4 four-character code for a build-manifest component name,
/// if known.
pub fn fourcc_for(component_name: &str) -> (r: Option<[u8; 4]>)
    ensures
        fourcc_result(r, component_fourcc(component_name.spec_bytes())),
{
    fourcc_a(component_name.as_bytes())
}

/// The `Restore` components that must be re-tagged with their own fourcc.
pub open spec fn is_retagged_component(name: Seq<u8>) -> bool {
    name == "RestoreKernelCache".spec_bytes()
    || name == "RestoreDeviceTree".spec_bytes()
    || name == "RestoreSEP".spec_bytes()
    || name == "RestoreLogo".spec_bytes()
    || name == "RestoreTrustCache".spec_bytes()
    || name == "RestoreDCP".spec_bytes()
    || name == "Ap,RestoreDCP2".spec_bytes()
    || name == "Ap,RestoreTMU".spec_bytes()
    || name == "Ap,RestoreCIO".spec_bytes()
    || name == "Ap,DCP2".spec_bytes()
    || name == "Ap,RestoreSecureM3Firmware".spec_bytes()
    || name == "Ap,RestoreSecurePageTableMonitor".spec_bytes()
    || name == "Ap,RestoreTrustedExecutionMonitor".spec_bytes()
    || name == "Ap,RestorecL4".spec_bytes()
}

/// Returns the fourcc a `Restore` component must be re-tagged with, if any.
pub fn restore_fourcc_override(component_name: &str) -> (r: Option<[u8; 4]>)
    ensures
        fourcc_result(
            r,
            if is_retagged_component(component_name.spec_bytes()) {
                component_fourcc(component_name.spec_bytes())
            } else {
                None
            },
        ),
{
    let name = component_name.as_bytes();
    let retagged = bytes_equal(name, "RestoreKernelCache".as_bytes())
        || bytes_equal(name, "RestoreDeviceTree".as_bytes())
        || bytes_equal(name, "RestoreSEP".as_bytes())
        || bytes_equal(name, "RestoreLogo".as_bytes())
        || bytes_equal(name, "RestoreTrustCache".as_bytes())
        || bytes_equal(name, "RestoreDCP".as_bytes())
        || bytes_equal(name, "Ap,RestoreDCP2".as_bytes())
        || bytes_equal(name, "Ap,RestoreTMU".as_bytes())
        || bytes_equal(name, "Ap,RestoreCIO".as_bytes())
        || bytes_equal(name, "Ap,DCP2".as_bytes())
        || bytes_equal(name, "Ap,RestoreSecureM3Firmware".as_bytes())
        || bytes_equal(name, "Ap,RestoreSecurePageTableMonitor".as_bytes())
        || bytes_equal(name, "Ap,RestoreTrustedExecutionMonitor".as_bytes())
        || bytes_equal(name, "Ap,RestorecL4".as_bytes());
    if retagged {
        fourcc_for(component_name)
    } else {
        None
    }
}

// ---------------------------------------------------------------------------
// Local (unsigned) IM4M manifests
// ---------------------------------------------------------------------------

/// One component entry of a local `IM4M` manifest.
#[derive(Debug, Clone)]
pub struct LocalManifestComponent {
    /// The element name: a fourcc for mapped components, or the full
    /// manifest key for unmapped ones (the full key is written as the IA5
    /// string; only the tag number is cut to four bytes).
    pub name: Vec<u8>,
    /// `DGST`, written when present and not empty.
    pub digest: Option<Vec<u8>>,
    /// `EKEY`.
    pub ekey: Option<bool>,
    /// `EPRO`.
    pub epro: Option<bool>,
    /// `ESEC`.
    pub esec: Option<bool>,
    /// SEP trust boot manifest digests, written as `tbms` for `sepi` and as
    /// `tbmr` for `rsep` (and left out for other components).
    pub tbm_digests: Option<Vec<u8>>,
}

/// The four bytes of a fourcc.
pub open spec fn four(a: u8, b: u8, c: u8, d: u8) -> Seq<u8> {
    seq![a, b, c, d]
}

/// A fourcc element around an encoded value, when the value could be
/// encoded.
pub open spec fn fourcc_elem(f: Seq<u8>, value: Option<Seq<u8>>) -> Option<Seq<u8>> {
    match value {
        Some(v) => named_element_bytes(f, v),
        None => None,
    }
}

/// A fourcc element holding an INTEGER.
pub open spec fn int_elem(f: Seq<u8>, x: u64) -> Option<Seq<u8>> {
    fourcc_elem(f, tlv_opt(TAG_INTEGER, Some(der_uint_bytes(x))))
}

/// A fourcc element holding a BOOLEAN.
pub open spec fn bool_elem(f: Seq<u8>, b: bool) -> Option<Seq<u8>> {
    fourcc_elem(f, tlv_opt(TAG_BOOLEAN, Some(seq![if b { 0xFFu8 } else { 0x00u8 }])))
}

/// A fourcc element holding an OCTET STRING.
pub open spec fn octets_elem(f: Seq<u8>, d: Seq<u8>) -> Option<Seq<u8>> {
    fourcc_elem(f, tlv_opt(TAG_OCTET_STRING, Some(d)))
}

/// An optional boolean property: nothing when absent.
pub open spec fn opt_bool_elem(f: Seq<u8>, b: Option<bool>) -> Option<Seq<u8>> {
    match b {
        Some(v) => bool_elem(f, v),
        None => Some(Seq::empty()),
    }
}

/// The properties of one manifest component, in order: `DGST`, `EKEY`,
/// `EPRO`, `ESEC`, then the trust boot manifest digests.
pub open spec fn component_body(c: LocalManifestComponent) -> Option<Seq<u8>> {
    cat_opt(
        cat_opt(
            cat_opt(
                cat_opt(digest_part(c), opt_bool_elem(four(0x45, 0x4B, 0x45, 0x59), c.ekey)),
                opt_bool_elem(four(0x45, 0x50, 0x52, 0x4F), c.epro),
            ),
            opt_bool_elem(four(0x45, 0x53, 0x45, 0x43), c.esec),
        ),
        tbm_part(c),
    )
}

/// The `DGST` property: present when the digest is present and not empty.
pub open spec fn digest_part(c: LocalManifestComponent) -> Option<Seq<u8>> {
    match c.digest {
        Some(d) => if d@.len() > 0 {
            octets_elem(four(0x44, 0x47, 0x53, 0x54), d@)
        } else {
            Some(Seq::empty())
        },
        None => Some(Seq::empty()),
    }
}

/// The trust boot manifest digests: `tbms` for `sepi`, `tbmr` for `rsep`,
/// nothing for other components.
pub open spec fn tbm_part(c: LocalManifestComponent) -> Option<Seq<u8>> {
    match c.tbm_digests {
        Some(t) => if c.name@ == four(0x73, 0x65, 0x70, 0x69) {
            octets_elem(four(0x74, 0x62, 0x6D, 0x73), t@)
        } else if c.name@ == four(0x72, 0x73, 0x65, 0x70) {
            octets_elem(four(0x74, 0x62, 0x6D, 0x72), t@)
        } else {
            Some(Seq::empty())
        },
        None => Some(Seq::empty()),
    }
}

/// One component's element: its name around the SET of its properties.
#[verifier::opaque]
pub open spec fn component_elem(c: LocalManifestComponent) -> Option<Seq<u8>> {
    match tlv_opt(TAG_SET, component_body(c)) {
        Some(s) => named_element_bytes(c.name@, s),
        None => None,
    }
}

/// The components' elements, in order.
pub open spec fn components_bytes(cs: Seq<LocalManifestComponent>) -> Option<Seq<u8>>
    decreases cs.len(),
{
    if cs.len() == 0 {
        Some(Seq::empty())
    } else {
        cat_opt(components_bytes(cs.drop_last()), component_elem(cs.last()))
    }
}

/// The `MANP` properties: `BORD`, `CEPO` (0), `CHIP`, `CPRO`, `CSEC`
/// (false), `SDOM`.
pub open spec fn manifest_properties(board_id: u64, chip_id: u64, production_mode: bool, security_domain: u64) -> Option<Seq<u8>> {
    cat_opt(
        cat_opt(
            cat_opt(
                cat_opt(
                    cat_opt(int_elem(four(0x42, 0x4F, 0x52, 0x44), board_id), int_elem(four(0x43, 0x45, 0x50, 0x4F), 0)),
                    int_elem(four(0x43, 0x48, 0x49, 0x50), chip_id),
                ),
                bool_elem(four(0x43, 0x50, 0x52, 0x4F), production_mode),
            ),
            bool_elem(four(0x43, 0x53, 0x45, 0x43), false),
        ),
        int_elem(four(0x53, 0x44, 0x4F, 0x4D), security_domain),
    )
}

/// Whether `e` is the element named `f` that holds an INTEGER whose
/// content octets read back, big-endian, as `x`.
pub open spec fn reads_as_int_property(e: Seq<u8>, f: Seq<u8>, x: u64) -> bool {
    exists|c: Seq<u8>| digits_value(c, 256) == x && named_element_bytes(f, der_tlv(TAG_INTEGER, c)) == Some(e)
}

/// Whether `e` is the element named `f` that holds a BOOLEAN whose one
/// content octet is nonzero exactly when `b` is true.
pub open spec fn reads_as_bool_property(e: Seq<u8>, f: Seq<u8>, b: bool) -> bool {
    exists|o: u8| (o != 0) == b && named_element_bytes(f, der_tlv(TAG_BOOLEAN, seq![o])) == Some(e)
}

/// An integer property element reads back as its value.
proof fn lemma_int_elem_reads(f: Seq<u8>, x: u64)
    ensures
        int_elem(f, x) matches Some(e) ==> reads_as_int_property(e, f, x),
{
    law_der_uint_decodes(x);
    let c = der_uint_bytes(x);
    assert(c.len() <= der_max_len());
}

/// The `MANP` properties name the device as given: they start with the
/// `BORD` element, whose INTEGER reads back as the board ID, and hold the
/// `CHIP` element, whose INTEGER reads back as the chip ID, and the `SDOM`
/// element, whose INTEGER reads back as the security domain.
pub proof fn law_manifest_properties_identity(
    board_id: u64,
    chip_id: u64,
    production_mode: bool,
    security_domain: u64,
)
    ensures
        manifest_properties(board_id, chip_id, production_mode, security_domain) matches Some(x) ==> {
            &&& exists|n: int| 0 <= n <= x.len() && #[trigger] reads_as_int_property(
                x.subrange(0, n),
                four(0x42, 0x4F, 0x52, 0x44),
                board_id,
            )
            &&& exists|i: int, j: int| 0 <= i <= j <= x.len() && #[trigger] reads_as_int_property(
                x.subrange(i, j),
                four(0x43, 0x48, 0x49, 0x50),
                chip_id,
            )
            &&& exists|i: int, j: int| 0 <= i <= j <= x.len() && #[trigger] reads_as_int_property(
                x.subrange(i, j),
                four(0x53, 0x44, 0x4F, 0x4D),
                security_domain,
            )
            &&& exists|i: int, j: int| 0 <= i <= j <= x.len() && #[trigger] reads_as_int_property(
                x.subrange(i, j),
                four(0x43, 0x45, 0x50, 0x4F),
                0,
            )
            &&& exists|i: int, j: int| 0 <= i <= j <= x.len() && #[trigger] reads_as_bool_property(
                x.subrange(i, j),
                four(0x43, 0x50, 0x52, 0x4F),
                production_mode,
            )
            &&& exists|i: int, j: int| 0 <= i <= j <= x.len() && #[trigger] reads_as_bool_property(
                x.subrange(i, j),
                four(0x43, 0x53, 0x45, 0x43),
                false,
            )
        },
{
    let bord = int_elem(four(0x42, 0x4F, 0x52, 0x44), board_id);
    let cepo = int_elem(four(0x43, 0x45, 0x50, 0x4F), 0);
    let chip = int_elem(four(0x43, 0x48, 0x49, 0x50), chip_id);
    let cpro = bool_elem(four(0x43, 0x50, 0x52, 0x4F), production_mode);
    let csec = bool_elem(four(0x43, 0x53, 0x45, 0x43), false);
    let sdom = int_elem(four(0x53, 0x44, 0x4F, 0x4D), security_domain);
    if let Some(x) = manifest_properties(board_id, chip_id, production_mode, security_domain) {
        lemma_int_elem_reads(four(0x42, 0x4F, 0x52, 0x44), board_id);
        lemma_int_elem_reads(four(0x43, 0x48, 0x49, 0x50), chip_id);
        lemma_int_elem_reads(four(0x53, 0x44, 0x4F, 0x4D), security_domain);
        let b = bord.unwrap();
        let e2 = cepo.unwrap();
        let c = chip.unwrap();
        let e4 = cpro.unwrap();
        let e5 = csec.unwrap();
        let d = sdom.unwrap();
        assert(x == b + e2 + c + e4 + e5 + d);
        assert(x.subrange(0, b.len() as int) =~= b);
        let i: int = (b.len() + e2.len()) as int;
        assert(x.subrange(i, i + c.len()) =~= c);
        let k: int = x.len() - d.len();
        assert(x.subrange(k, x.len() as int) =~= d);
        lemma_int_elem_reads(four(0x43, 0x45, 0x50, 0x4F), 0);
        assert(x.subrange(b.len() as int, i) =~= e2);
        let i4: int = i + c.len();
        assert(x.subrange(i4, i4 + e4.len()) =~= e4);
        assert(reads_as_bool_property(e4, four(0x43, 0x50, 0x52, 0x4F), production_mode)) by {
            let o: u8 = if production_mode { 0xFFu8 } else { 0x00u8 };
            assert(named_element_bytes(four(0x43, 0x50, 0x52, 0x4F), der_tlv(TAG_BOOLEAN, seq![o])) == Some(e4));
        }
        let i5: int = i4 + e4.len();
        assert(x.subrange(i5, i5 + e5.len()) =~= e5);
        assert(reads_as_bool_property(e5, four(0x43, 0x53, 0x45, 0x43), false)) by {
            assert(named_element_bytes(four(0x43, 0x53, 0x45, 0x43), der_tlv(TAG_BOOLEAN, seq![0x00u8])) == Some(e5));
        }
    }
}

/// An unsigned `IM4M`: `SEQUENCE { IA5String "IM4M", INTEGER 0, SET { MANB } }`,
/// where `MANB` wraps `MANP` and then one element per component.
pub open spec fn local_manifest_bytes(
    board_id: u64,
    chip_id: u64,
    production_mode: bool,
    security_domain: u64,
    cs: Seq<LocalManifestComponent>,
) -> Option<Seq<u8>> {
    let manp = fourcc_elem(
        four(0x4D, 0x41, 0x4E, 0x50),
        tlv_opt(TAG_SET, manifest_properties(board_id, chip_id, production_mode, security_domain)),
    );
    let manb = fourcc_elem(four(0x4D, 0x41, 0x4E, 0x42), tlv_opt(TAG_SET, cat_opt(manp, components_bytes(cs))));
    tlv_opt(
        TAG_SEQUENCE,
        cat_opt(
            cat_opt(
                tlv_opt(TAG_IA5_STRING, Some(four(0x49, 0x4D, 0x34, 0x4D))),
                tlv_opt(TAG_INTEGER, Some(der_uint_bytes(0))),
            ),
            tlv_opt(TAG_SET, manb),
        ),
    )
}

/// Whether `inner` occurs in `outer` as a run of consecutive bytes.
pub open spec fn holds_bytes(outer: Seq<u8>, inner: Seq<u8>) -> bool {
    exists|i: int| 0 <= i && i + inner.len() <= outer.len() && #[trigger] outer.subrange(i, i + inner.len()) == inner
}

/// A run of bytes occurs in what wraps it.
proof fn lemma_holds_wrapped(a: Seq<u8>, x: Seq<u8>, b: Seq<u8>)
    ensures
        holds_bytes(a + x + b, x),
{
    let o = a + x + b;
    assert(o.subrange(a.len() as int, (a.len() + x.len()) as int) =~= x);
}

/// Occurring in a run that occurs in `outer` is occurring in `outer`.
proof fn lemma_holds_trans(outer: Seq<u8>, mid: Seq<u8>, inner: Seq<u8>)
    requires
        holds_bytes(outer, mid),
        holds_bytes(mid, inner),
    ensures
        holds_bytes(outer, inner),
{
    let i = choose|i: int| 0 <= i && i + mid.len() <= outer.len() && #[trigger] outer.subrange(i, i + mid.len()) == mid;
    let j = choose|j: int| 0 <= j && j + inner.len() <= mid.len() && #[trigger] mid.subrange(j, j + inner.len()) == inner;
    assert(outer.subrange(i + j, i + j + inner.len()) =~= inner) by {
        assert forall|k: int| 0 <= k < inner.len() implies outer.subrange(i + j, i + j + inner.len())[k] == inner[k] by {
            assert(inner[k] == mid.subrange(j, j + inner.len())[k]);
            assert(mid[j + k] == outer.subrange(i, i + mid.len())[j + k]);
        }
    }
}

/// A named element holds its value's bytes.
proof fn lemma_named_holds(f: Seq<u8>, v: Seq<u8>)
    ensures
        named_element_bytes(f, v) matches Some(e) ==> holds_bytes(e, v),
{
    if let Some(e) = named_element_bytes(f, v) {
        let ia5 = der_tlv(TAG_IA5_STRING, f);
        let q = der_tlv(TAG_SEQUENCE, ia5 + v);
        lemma_holds_wrapped(ia5, v, Seq::empty());
        assert(ia5 + v + Seq::<u8>::empty() =~= ia5 + v);
        lemma_holds_wrapped(seq![TAG_SEQUENCE] + der_length_encoding((ia5 + v).len()), ia5 + v, Seq::empty());
        assert(seq![TAG_SEQUENCE] + der_length_encoding((ia5 + v).len()) + (ia5 + v) + Seq::<u8>::empty() =~= q);
        let h = seq![TAG_PRIVATE_HIGH] + base128_bytes(tag_number(name_tag(f))) + der_length_encoding(q.len());
        lemma_holds_wrapped(h, q, Seq::empty());
        assert(h + q + Seq::<u8>::empty() =~= e);
        lemma_holds_trans(e, q, ia5 + v);
        lemma_holds_trans(e, ia5 + v, v);
    }
}

/// A tag-length-value element holds its content's bytes.
proof fn lemma_tlv_holds(tag: u8, c: Seq<u8>)
    ensures
        holds_bytes(der_tlv(tag, c), c),
{
    lemma_holds_wrapped(seq![tag] + der_length_encoding(c.len()), c, Seq::empty());
    assert(seq![tag] + der_length_encoding(c.len()) + c + Seq::<u8>::empty() =~= der_tlv(tag, c));
}

/// An unsigned manifest holds its `MANP` properties' bytes.
#[verifier::spinoff_prover]
#[verifier::rlimit(40)]
proof fn lemma_manifest_holds_properties(
    board_id: u64,
    chip_id: u64,
    production_mode: bool,
    security_domain: u64,
    cs: Seq<LocalManifestComponent>,
)
    ensures
        local_manifest_bytes(board_id, chip_id, production_mode, security_domain, cs) matches Some(m) ==> (
        manifest_properties(board_id, chip_id, production_mode, security_domain) matches Some(x)
            && holds_bytes(m, x)),
{
    if let Some(m) = local_manifest_bytes(board_id, chip_id, production_mode, security_domain, cs) {
        let x = manifest_properties(board_id, chip_id, production_mode, security_domain).unwrap();
        let comps = components_bytes(cs).unwrap();
        let s1 = der_tlv(TAG_SET, x);
        let manp = named_element_bytes(four(0x4D, 0x41, 0x4E, 0x50), s1).unwrap();
        let s2 = der_tlv(TAG_SET, manp + comps);
        let manb = named_element_bytes(four(0x4D, 0x41, 0x4E, 0x42), s2).unwrap();
        let s3 = der_tlv(TAG_SET, manb);
        let head = der_tlv(TAG_IA5_STRING, four(0x49, 0x4D, 0x34, 0x4D)) + der_tlv(TAG_INTEGER, der_uint_bytes(0));
        assert(m == der_tlv(TAG_SEQUENCE, head + s3));
        lemma_tlv_holds(TAG_SEQUENCE, head + s3);
        lemma_holds_wrapped(head, s3, Seq::empty());
        assert(head + s3 + Seq::<u8>::empty() =~= head + s3);
        lemma_holds_trans(m, head + s3, s3);
        lemma_tlv_holds(TAG_SET, manb);
        lemma_holds_trans(m, s3, manb);
        lemma_named_holds(four(0x4D, 0x41, 0x4E, 0x42), s2);
        lemma_holds_trans(m, manb, s2);
        lemma_tlv_holds(TAG_SET, manp + comps);
        lemma_holds_trans(m, s2, manp + comps);
        lemma_holds_wrapped(Seq::empty(), manp, comps);
        assert(Seq::<u8>::empty() + manp + comps =~= manp + comps);
        lemma_holds_trans(m, manp + comps, manp);
        lemma_named_holds(four(0x4D, 0x41, 0x4E, 0x50), s1);
        lemma_holds_trans(m, manp, s1);
        lemma_tlv_holds(TAG_SET, x);
        lemma_holds_trans(m, s1, x);
    }
}

/// A property element found in bytes is found in whatever holds them.
proof fn lemma_reads_lift(m: Seq<u8>, x: Seq<u8>, i: int, j: int, f: Seq<u8>, v: u64)
    requires
        holds_bytes(m, x),
        0 <= i <= j <= x.len(),
        reads_as_int_property(x.subrange(i, j), f, v),
    ensures
        exists|a: int, b: int| 0 <= a <= b <= m.len() && #[trigger] reads_as_int_property(m.subrange(a, b), f, v),
{
    let e = x.subrange(i, j);
    lemma_holds_wrapped(x.subrange(0, i), e, x.subrange(j, x.len() as int));
    assert(x.subrange(0, i) + e + x.subrange(j, x.len() as int) =~= x);
    lemma_holds_trans(m, x, e);
    let p = choose|p: int| 0 <= p && p + e.len() <= m.len() && #[trigger] m.subrange(p, p + e.len()) == e;
    assert(reads_as_int_property(m.subrange(p, p + e.len()), f, v));
}

/// An unsigned manifest names the device as given: it holds a `BORD`
/// element whose INTEGER reads back as the board ID and a `CHIP` element
/// whose INTEGER reads back as the chip ID.
pub proof fn law_local_manifest_identity(
    board_id: u64,
    chip_id: u64,
    production_mode: bool,
    security_domain: u64,
    cs: Seq<LocalManifestComponent>,
)
    ensures
        local_manifest_bytes(board_id, chip_id, production_mode, security_domain, cs) matches Some(m) ==> {
            &&& exists|i: int, j: int| 0 <= i <= j <= m.len() && #[trigger] reads_as_int_property(
                m.subrange(i, j),
                four(0x42, 0x4F, 0x52, 0x44),
                board_id,
            )
            &&& exists|i: int, j: int| 0 <= i <= j <= m.len() && #[trigger] reads_as_int_property(
                m.subrange(i, j),
                four(0x43, 0x48, 0x49, 0x50),
                chip_id,
            )
        },
{
    lemma_manifest_holds_properties(board_id, chip_id, production_mode, security_domain, cs);
    if let Some(m) = local_manifest_bytes(board_id, chip_id, production_mode, security_domain, cs) {
        let x = manifest_properties(board_id, chip_id, production_mode, security_domain).unwrap();
        law_manifest_properties_identity(board_id, chip_id, production_mode, security_domain);
        let n = choose|n: int| 0 <= n <= x.len() && #[trigger] reads_as_int_property(
            x.subrange(0, n),
            four(0x42, 0x4F, 0x52, 0x44),
            board_id,
        );
        lemma_reads_lift(m, x, 0, n, four(0x42, 0x4F, 0x52, 0x44), board_id);
        let (ci, cj) = choose|i: int, j: int| 0 <= i <= j <= x.len() && #[trigger] reads_as_int_property(
            x.subrange(i, j),
            four(0x43, 0x48, 0x49, 0x50),
            chip_id,
        );
        lemma_reads_lift(m, x, ci, cj, four(0x43, 0x48, 0x49, 0x50), chip_id);
    }
}

/// Appends an encoded part, or passes its error on.
fn push_part(out: &mut Vec<u8>, part: Result<Vec<u8>, IdeviceError>) -> (r: Result<(), IdeviceError>)
    ensures
        match part {
            Ok(v) => r is Ok && final(out)@ == old(out)@ + v@,
            Err(e) => r == Err::<(), IdeviceError>(e) && final(out)@ == old(out)@,
        },
{
    match part {
        Ok(v) => {
            append_bytes(out, v.as_slice());
            Ok(())
        },
        Err(e) => Err(e),
    }
}

/// A fourcc element around an encoded value.
fn fourcc_element(f: [u8; 4], value: Result<Vec<u8>, IdeviceError>) -> (r: Result<Vec<u8>, IdeviceError>)
    ensures
        match value {
            Ok(v) => encoded_as(r, named_element_bytes(f@, v@)),
            Err(e) => r == Err::<Vec<u8>, IdeviceError>(e),
        },
{
    match value {
        Ok(v) => named_element(&f, v.as_slice()),
        Err(e) => Err(e),
    }
}

fn int_element(f: [u8; 4], x: u64) -> (r: Result<Vec<u8>, IdeviceError>)
    ensures
        encoded_as(r, int_elem(f@, x)),
{
    let content = der_uint(x);
    fourcc_element(f, tlv(TAG_INTEGER, content.as_slice()))
}

fn bool_element(f: [u8; 4], b: bool) -> (r: Result<Vec<u8>, IdeviceError>)
    ensures
        encoded_as(r, bool_elem(f@, b)),
{
    let content = der_bool(b);
    fourcc_element(f, tlv(TAG_BOOLEAN, content.as_slice()))
}

fn octets_element(f: [u8; 4], d: &[u8]) -> (r: Result<Vec<u8>, IdeviceError>)
    ensures
        encoded_as(r, octets_elem(f@, d@)),
{
    fourcc_element(f, tlv(TAG_OCTET_STRING, d))
}

/// Appends an encoded part described by `expected` to `out`, whose bytes
/// `acc` describes; the result describes `cat_opt(acc, expected)`.
fn append_encoded(out: &mut Vec<u8>, part: Result<Vec<u8>, IdeviceError>, Ghost(expected): Ghost<Option<Seq<u8>>>) -> (r: Result<(), IdeviceError>)
    requires
        encoded_as(part, expected),
    ensures
        r is Ok <==> expected is Some,
        r is Ok ==> final(out)@ == old(out)@ + expected->0,
        r matches Err(e) ==> is_img4_error(e),
{
    match part {
        Ok(v) => {
            append_bytes(out, v.as_slice());
            Ok(())
        },
        Err(e) => Err(e),
    }
}

/// Appends an optional boolean property to `body`.
fn append_opt_bool(body: &mut Vec<u8>, f: [u8; 4], b: Option<bool>) -> (r: Result<(), IdeviceError>)
    ensures
        r is Ok <==> opt_bool_elem(f@, b) is Some,
        r is Ok ==> final(body)@ == old(body)@ + opt_bool_elem(f@, b)->0,
{
    match b {
        Some(v) => {
            if append_encoded(body, bool_element(f, v), Ghost(bool_elem(f@, v))).is_err() {
                return Err(img4_error("manifest property too long"));
            }
            Ok(())
        },
        None => {
            assert(body@ + Seq::<u8>::empty() =~= body@);
            Ok(())
        },
    }
}

/// Encodes the properties of one manifest component.
#[verifier::spinoff_prover]
#[verifier::rlimit(40)]
fn component_body_bytes(c: &LocalManifestComponent) -> (r: Result<Vec<u8>, IdeviceError>)
    ensures
        encoded_as(r, component_body(*c)),
{
    let ghost dgst = digest_part(*c);
    let mut body: Vec<u8> = Vec::new();
    match &c.digest {
        Some(d) => {
            if d.len() > 0 {
                let dg: [u8; 4] = [0x44, 0x47, 0x53, 0x54];
                assert(dg@ =~= four(0x44, 0x47, 0x53, 0x54));
                if append_encoded(&mut body, octets_element(dg, d.as_slice()), Ghost(dgst)).is_err() {
                    return Err(img4_error("manifest digest too long"));
                }
            }
        },
        None => {},
    }
    assert(body@ =~= dgst->0);
    let f1: [u8; 4] = [0x45, 0x4B, 0x45, 0x59];
    let f2: [u8; 4] = [0x45, 0x50, 0x52, 0x4F];
    let f3: [u8; 4] = [0x45, 0x53, 0x45, 0x43];
    assert(f1@ =~= four(0x45, 0x4B, 0x45, 0x59));
    assert(f2@ =~= four(0x45, 0x50, 0x52, 0x4F));
    assert(f3@ =~= four(0x45, 0x53, 0x45, 0x43));
    if append_opt_bool(&mut body, f1, c.ekey).is_err() {
        return Err(img4_error("manifest property too long"));
    }
    if append_opt_bool(&mut body, f2, c.epro).is_err() {
        return Err(img4_error("manifest property too long"));
    }
    if append_opt_bool(&mut body, f3, c.esec).is_err() {
        return Err(img4_error("manifest property too long"));
    }
    let ghost before_tbm = body@;
    let sepi: [u8; 4] = [0x73, 0x65, 0x70, 0x69];
    let rsep: [u8; 4] = [0x72, 0x73, 0x65, 0x70];
    assert(sepi@ =~= four(0x73, 0x65, 0x70, 0x69));
    assert(rsep@ =~= four(0x72, 0x73, 0x65, 0x70));
    match &c.tbm_digests {
        Some(t) => {
            if bytes_equal(c.name.as_slice(), &sepi) {
                let f: [u8; 4] = [0x74, 0x62, 0x6D, 0x73];
                assert(f@ =~= four(0x74, 0x62, 0x6D, 0x73));
                if append_encoded(&mut body, octets_element(f, t.as_slice()), Ghost(octets_elem(f@, t@))).is_err() {
                    return Err(img4_error("manifest digests too long"));
                }
            } else if bytes_equal(c.name.as_slice(), &rsep) {
                let f: [u8; 4] = [0x74, 0x62, 0x6D, 0x72];
                assert(f@ =~= four(0x74, 0x62, 0x6D, 0x72));
                if append_encoded(&mut body, octets_element(f, t.as_slice()), Ghost(octets_elem(f@, t@))).is_err() {
                    return Err(img4_error("manifest digests too long"));
                }
            } else {
                assert(body@ + Seq::<u8>::empty() =~= body@);
            }
        },
        None => {
            assert(body@ + Seq::<u8>::empty() =~= body@);
        },
    }
    assert(body@ == before_tbm + tbm_part(*c)->0);
    Ok(body)
}

fn component_element(c: &LocalManifestComponent) -> (r: Result<Vec<u8>, IdeviceError>)
    ensures
        encoded_as(r, component_elem(*c)),
{
    reveal(component_elem);
    let body = match component_body_bytes(c) {
        Ok(v) => v,
        Err(e) => return Err(e),
    };
    let set = match tlv(TAG_SET, body.as_slice()) {
        Ok(v) => v,
        Err(e) => return Err(e),
    };
    named_element(c.name.as_slice(), set.as_slice())
}

/// Encodes the `MANP` properties.
fn manifest_properties_bytes(board_id: u64, chip_id: u64, production_mode: bool, security_domain: u64) -> (r: Result<Vec<u8>, IdeviceError>)
    ensures
        encoded_as(r, manifest_properties(board_id, chip_id, production_mode, security_domain)),
{
    let bord: [u8; 4] = [0x42, 0x4F, 0x52, 0x44];
    let cepo: [u8; 4] = [0x43, 0x45, 0x50, 0x4F];
    let chip: [u8; 4] = [0x43, 0x48, 0x49, 0x50];
    let cpro: [u8; 4] = [0x43, 0x50, 0x52, 0x4F];
    let csec: [u8; 4] = [0x43, 0x53, 0x45, 0x43];
    let sdom: [u8; 4] = [0x53, 0x44, 0x4F, 0x4D];
    assert(bord@ =~= four(0x42, 0x4F, 0x52, 0x44));
    assert(cepo@ =~= four(0x43, 0x45, 0x50, 0x4F));
    assert(chip@ =~= four(0x43, 0x48, 0x49, 0x50));
    assert(cpro@ =~= four(0x43, 0x50, 0x52, 0x4F));
    assert(csec@ =~= four(0x43, 0x53, 0x45, 0x43));
    assert(sdom@ =~= four(0x53, 0x44, 0x4F, 0x4D));
    let ghost props_spec = manifest_properties(board_id, chip_id, production_mode, security_domain);
    let mut props: Vec<u8> = Vec::new();
    let ghost p1 = int_elem(bord@, board_id);
    if append_encoded(&mut props, int_element(bord, board_id), Ghost(p1)).is_err() {
        return Err(img4_error("manifest property too long"));
    }
    let ghost p2 = cat_opt(p1, int_elem(cepo@, 0));
    if append_encoded(&mut props, int_element(cepo, 0), Ghost(int_elem(cepo@, 0))).is_err() {
        return Err(img4_error("manifest property too long"));
    }
    let ghost p3 = cat_opt(p2, int_elem(chip@, chip_id));
    if append_encoded(&mut props, int_element(chip, chip_id), Ghost(int_elem(chip@, chip_id))).is_err() {
        return Err(img4_error("manifest property too long"));
    }
    let ghost p4 = cat_opt(p3, bool_elem(cpro@, production_mode));
    if append_encoded(&mut props, bool_element(cpro, production_mode), Ghost(bool_elem(cpro@, production_mode))).is_err() {
        return Err(img4_error("manifest property too long"));
    }
    let ghost p5 = cat_opt(p4, bool_elem(csec@, false));
    if append_encoded(&mut props, bool_element(csec, false), Ghost(bool_elem(csec@, false))).is_err() {
        return Err(img4_error("manifest property too long"));
    }
    if append_encoded(&mut props, int_element(sdom, security_domain), Ghost(int_elem(sdom@, security_domain))).is_err() {
        return Err(img4_error("manifest property too long"));
    }
    assert(Some(props@) == props_spec);
    Ok(props)
}

/// Builds an unsigned ("local") `IM4M` manifest.
///
/// `IM4M ::= SEQUENCE { IA5String "IM4M", INTEGER 0, SET { MANB } }`, where
/// `MANB` wraps `MANP` (the board and chip properties) followed by one
/// element per component.
#[verifier::spinoff_prover]
#[verifier::rlimit(60)]
pub fn build_local_manifest(
    board_id: u64,
    chip_id: u64,
    production_mode: bool,
    security_domain: u64,
    components: &[LocalManifestComponent],
) -> (r: Result<Vec<u8>, IdeviceError>)
    ensures
        encoded_as(r, local_manifest_bytes(board_id, chip_id, production_mode, security_domain, components@)),
{
    let manp_tag: [u8; 4] = [0x4D, 0x41, 0x4E, 0x50];
    let manb_tag: [u8; 4] = [0x4D, 0x41, 0x4E, 0x42];
    let im4m: [u8; 4] = [0x49, 0x4D, 0x34, 0x4D];
    assert(manp_tag@ =~= four(0x4D, 0x41, 0x4E, 0x50));
    assert(manb_tag@ =~= four(0x4D, 0x41, 0x4E, 0x42));
    assert(im4m@ =~= four(0x49, 0x4D, 0x34, 0x4D));
    let ghost props_spec = manifest_properties(board_id, chip_id, production_mode, security_domain);
    let props = match manifest_properties_bytes(board_id, chip_id, production_mode, security_domain) {
        Ok(v) => v,
        Err(e) => return Err(e),
    };
    let ghost manp_spec = fourcc_elem(manp_tag@, tlv_opt(TAG_SET, props_spec));
    let mut manb_content = match fourcc_element(manp_tag, tlv(TAG_SET, props.as_slice())) {
        Ok(v) => v,
        Err(e) => return Err(e),
    };
    assert(Some(manb_content@) == manp_spec);
    let mut i: usize = 0;
    assert(components@.take(0) =~= Seq::<LocalManifestComponent>::empty());
    while i < components.len()
        invariant
            i <= components@.len(),
            manp_spec is Some,
            manb_content@ == manp_spec->0 + components_bytes(components@.take(i as int))->0,
            components_bytes(components@.take(i as int)) is Some,
        decreases components.len() - i,
    {
        let e = component_element(&components[i]);
        assert(components@.take(i + 1).drop_last() =~= components@.take(i as int));
        let ghost before = components_bytes(components@.take(i as int))->0;
        match e {
            Ok(v) => {
                append_bytes(&mut manb_content, v.as_slice());
                assert(manb_content@ =~= manp_spec->0 + (before + v@));
            },
            Err(err) => {
                proof {
                    lemma_components_prefix_none(components@, i + 1);
                }
                return Err(err);
            },
        }
        i = i + 1;
    }
    assert(components@.take(i as int) =~= components@);
    assert(Some(manb_content@) == cat_opt(manp_spec, components_bytes(components@)));
    let manb = match fourcc_element(manb_tag, tlv(TAG_SET, manb_content.as_slice())) {
        Ok(v) => v,
        Err(e) => return Err(e),
    };
    let mut content = match tlv(TAG_IA5_STRING, &im4m) {
        Ok(v) => v,
        Err(e) => return Err(e),
    };
    let zero = der_uint(0);
    match tlv(TAG_INTEGER, zero.as_slice()) {
        Ok(v) => append_bytes(&mut content, v.as_slice()),
        Err(e) => return Err(e),
    }
    match tlv(TAG_SET, manb.as_slice()) {
        Ok(v) => append_bytes(&mut content, v.as_slice()),
        Err(e) => return Err(e),
    }
    tlv(TAG_SEQUENCE, content.as_slice())
}

proof fn lemma_components_prefix_none(cs: Seq<LocalManifestComponent>, i: int)
    requires
        0 < i <= cs.len(),
        components_bytes(cs.take(i)) is None,
    ensures
        components_bytes(cs) is None,
    decreases cs.len() - i,
{
    if i < cs.len() {
        assert(cs.take(i + 1).drop_last() =~= cs.take(i));
        lemma_components_prefix_none(cs, i + 1);
    } else {
        assert(cs.take(i) =~= cs);
    }
}


// ---------------------------------------------------------------------------
// Preboard manifest
// ---------------------------------------------------------------------------

/// What a manifest component holds, by value.
pub struct ComponentView {
    /// The element name.
    pub name: Seq<u8>,
    /// The digest.
    pub digest: Option<Seq<u8>>,
    /// `EKEY`.
    pub ekey: Option<bool>,
    /// `EPRO`.
    pub epro: Option<bool>,
    /// `ESEC`.
    pub esec: Option<bool>,
    /// The trust boot manifest digests.
    pub tbm_digests: Option<Seq<u8>>,
}

/// The view of a manifest component.
pub open spec fn component_view(c: LocalManifestComponent) -> ComponentView {
    ComponentView {
        name: c.name@,
        digest: match c.digest {
            Some(d) => Some(d@),
            None => None,
        },
        ekey: c.ekey,
        epro: c.epro,
        esec: c.esec,
        tbm_digests: match c.tbm_digests {
            Some(t) => Some(t@),
            None => None,
        },
    }
}

/// The views of manifest components.
pub open spec fn component_views(cs: Seq<LocalManifestComponent>) -> Seq<ComponentView> {
    cs.map_values(|c: LocalManifestComponent| component_view(c))
}

/// The parameters a preboard manifest's rules are checked against:
/// production and security modes off, IMG4 supported.
pub open spec fn preboard_params() -> Seq<(Seq<char>, PlistView)> {
    seq![
        ("ApProductionMode"@, PlistView::Boolean(false)),
        ("ApSecurityMode"@, PlistView::Boolean(false)),
        ("ApSupportsImg4"@, PlistView::Boolean(true)),
    ]
}

/// Components a preboard manifest leaves out.
pub open spec fn preboard_key_skipped(key: Seq<char>) -> bool {
    key == "BasebandFirmware"@ || key == "SE,UpdatePayload"@ || key == "BaseSystem"@ || key
        == "Diags"@ || key == "Ap,ExclaveOS"@
}

/// The `Info` flags that mark a firmware payload.
pub open spec fn firmware_flags() -> Seq<Seq<char>> {
    seq![
        "IsFirmwarePayload"@,
        "IsSecondaryFirmwarePayload"@,
        "IsFUDFirmware"@,
        "IsLoadedByiBoot"@,
        "IsEarlyAccessFirmware"@,
        "IsiBootEANFirmware"@,
        "IsiBootNonEssentialFirmware"@,
    ]
}

/// Whether a component's `Info` sets one of the firmware flags.
pub open spec fn is_firmware_payload(info: Seq<(Seq<char>, PlistView)>) -> bool {
    exists|i: int| 0 <= i < 7 && view_bool(lookup(info, #[trigger] firmware_flags()[i])) == Some(true)
}

/// A component's element name: its `Img4PayloadType`, else the fourcc of
/// its key, else the key itself (as UTF-8).
pub open spec fn preboard_name(key: Seq<char>, info: Seq<(Seq<char>, PlistView)>) -> Seq<u8> {
    match view_string(lookup(info, "Img4PayloadType"@)) {
        Some(t) => utf8_bytes(t),
        None => match component_fourcc(utf8_bytes(key)) {
            Some(f) => f,
            None => utf8_bytes(key),
        },
    }
}

/// A manifest component's preboard entry: trusted firmware payloads that
/// are not skipped or FTAB, with the rules applied to them; their digest
/// (empty when they have none), `EKEY`, `EPRO`, `ESEC` and trust boot
/// manifest digests.
pub open spec fn preboard_component(key: Seq<char>, item: PlistView) -> Option<ComponentView> {
    if preboard_key_skipped(key) {
        None
    } else {
        match item {
            PlistView::Dictionary(e) => match lookup(e, "Info"@) {
                Some(PlistView::Dictionary(info)) => if view_bool(lookup(e, "Trusted"@)) != Some(true) {
                    None
                } else if !is_firmware_payload(info) {
                    None
                } else if view_bool(lookup(info, "IsFTAB"@)) == Some(true) {
                    None
                } else {
                    let node = removed(e, "Info"@);
                    let node = match lookup(info, "RestoreRequestRules"@) {
                        Some(PlistView::Array(rules)) => rules_applied(node, preboard_params(), rules),
                        _ => node,
                    };
                    Some(
                        ComponentView {
                            name: preboard_name(key, info),
                            digest: Some(
                                match lookup(node, "Digest"@) {
                                    Some(PlistView::Data(d)) => d,
                                    _ => Seq::empty(),
                                },
                            ),
                            ekey: Some(true),
                            epro: view_bool(lookup(node, "EPRO"@)),
                            esec: view_bool(lookup(node, "ESEC"@)),
                            tbm_digests: view_data(lookup(node, "TBMDigests"@)),
                        },
                    )
                },
                _ => None,
            },
            _ => None,
        }
    }
}

/// The preboard entries of the manifest's components, in order.
pub open spec fn preboard_components(manifest: Seq<(Seq<char>, PlistView)>) -> Seq<ComponentView>
    decreases manifest.len(),
{
    if manifest.len() == 0 {
        Seq::empty()
    } else {
        let prev = preboard_components(manifest.drop_last());
        match preboard_component(manifest.last().0, manifest.last().1) {
            Some(c) => prev.push(c),
            None => prev,
        }
    }
}

/// The parameters a preboard manifest's rules are checked against.
fn preboard_parameter_dict() -> (r: PlistDict)
    ensures
        r@ == preboard_params(),
{
    let mut d = PlistDict::new();
    proof {
        reveal_strlit("ApProductionMode");
        reveal_strlit("ApSecurityMode");
        reveal_strlit("ApSupportsImg4");
    }
    d.insert(String::from_str("ApProductionMode"), PlistValue::Boolean(false));
    let ghost e1 = d@;
    assert(e1.drop_last() =~= Seq::<(Seq<char>, PlistView)>::empty());
    assert("ApProductionMode"@.len() == 16 && "ApSecurityMode"@.len() == 14 && "ApSupportsImg4"@.len()
        == 14);
    assert("ApSecurityMode"@[5] != "ApSupportsImg4"@[5]);
    proof {
        crate::plist::lemma_key_index(e1, "ApSecurityMode"@);
    }
    d.insert(String::from_str("ApSecurityMode"), PlistValue::Boolean(false));
    let ghost e2 = d@;
    proof {
        crate::plist::lemma_key_index(e2, "ApSupportsImg4"@);
    }
    d.insert(String::from_str("ApSupportsImg4"), PlistValue::Boolean(true));
    assert(d@ =~= preboard_params());
    d
}

/// Whether a component's `Info` sets one of the firmware flags.
fn has_firmware_flag(info: &PlistDict) -> (r: bool)
    ensures
        r == is_firmware_payload(info@),
{
    let flags = vec![
        "IsFirmwarePayload",
        "IsSecondaryFirmwarePayload",
        "IsFUDFirmware",
        "IsLoadedByiBoot",
        "IsEarlyAccessFirmware",
        "IsiBootEANFirmware",
        "IsiBootNonEssentialFirmware",
    ];
    assert(flags@.map_values(|f: &str| f@) =~= firmware_flags());
    let mut i: usize = 0;
    while i < flags.len()
        invariant
            flags@.map_values(|f: &str| f@) == firmware_flags(),
            flags@.len() == 7,
            i <= 7,
            forall|k: int| 0 <= k < i ==> view_bool(lookup(info@, #[trigger] firmware_flags()[k])) != Some(true),
        decreases 7 - i,
    {
        let f = flags[i];
        assert(firmware_flags()[i as int] == f@);
        if let Some(PlistValue::Boolean(true)) = info.get(f) {
            return true;
        }
        i = i + 1;
    }
    false
}

/// A manifest component's preboard entry.
fn preboard_component_for(key: &str, item: &PlistValue, params: &PlistDict) -> (r: Option<
    LocalManifestComponent,
>)
    requires
        params@ == preboard_params(),
    ensures
        match preboard_component(key@, item@) {
            Some(c) => r matches Some(x) && component_view(x) == c,
            None => r is None,
        },
{
    if str_equal(key, "BasebandFirmware") || str_equal(key, "SE,UpdatePayload") || str_equal(
        key,
        "BaseSystem",
    ) || str_equal(key, "Diags") || str_equal(key, "Ap,ExclaveOS") {
        return None;
    }
    let e = match item {
        PlistValue::Dictionary(e) => e,
        _ => return None,
    };
    let info = match e.get("Info") {
        Some(PlistValue::Dictionary(i)) => i,
        _ => return None,
    };
    match e.get("Trusted") {
        Some(PlistValue::Boolean(true)) => {},
        _ => return None,
    }
    if !has_firmware_flag(info) {
        return None;
    }
    if let Some(PlistValue::Boolean(true)) = info.get("IsFTAB") {
        return None;
    }
    let name = match info.get("Img4PayloadType") {
        Some(PlistValue::String(t)) => utf8_encode(t.as_str()),
        _ => {
            let key_bytes = utf8_encode(key);
            match fourcc_a(key_bytes.as_slice()) {
                Some(f) => {
                    let v = slice_to_vec(&f);
                    assert(v@ == f@);
                    v
                },
                None => key_bytes,
            }
        },
    };
    let mut node = e.deep_clone();
    node.remove("Info");
    if let Some(PlistValue::Array(rules)) = info.get("RestoreRequestRules") {
        apply_restore_request_rules(&mut node, params, rules.as_slice());
    }
    let digest = match node.get("Digest") {
        Some(PlistValue::Data(d)) => slice_to_vec(d.as_slice()),
        _ => Vec::new(),
    };
    let epro = match node.get("EPRO") {
        Some(v) => v.as_boolean(),
        None => None,
    };
    let esec = match node.get("ESEC") {
        Some(v) => v.as_boolean(),
        None => None,
    };
    let tbm_digests = match node.get("TBMDigests") {
        Some(PlistValue::Data(d)) => Some(slice_to_vec(d.as_slice())),
        _ => None,
    };
    let c = LocalManifestComponent {
        name,
        digest: Some(digest),
        ekey: Some(true),
        epro,
        esec,
        tbm_digests,
    };
    assert(component_view(c).digest == Some(
        match lookup(node@, "Digest"@) {
            Some(PlistView::Data(d)) => d,
            _ => Seq::<u8>::empty(),
        },
    ));
    Some(c)
}

/// Builds the unsigned manifest for a preboard stashbag from a build
/// identity: one entry per trusted firmware payload of its `Manifest`,
/// with production mode off and security domain 1.
///
/// Fails with a bad-build-manifest error when the identity has no
/// `Manifest` dictionary, and with an IMG4 error when the manifest cannot
/// be encoded.
pub fn build_preboard_manifest(build_identity: &PlistDict, board_id: u64, chip_id: u64) -> (r:
    Result<Vec<u8>, IdeviceError>)
    ensures
        match view_dict(lookup(build_identity@, "Manifest"@)) {
            None => r == Err::<Vec<u8>, IdeviceError>(IdeviceError::BadBuildManifest),
            Some(m) => exists|cs: Seq<LocalManifestComponent>|
                component_views(cs) == preboard_components(m) && encoded_as(
                    r,
                    #[trigger] local_manifest_bytes(board_id, chip_id, false, 1, cs),
                ),
        },
{
    let manifest = match build_identity.get("Manifest") {
        Some(PlistValue::Dictionary(m)) => m,
        _ => return Err(IdeviceError::BadBuildManifest),
    };
    let params = preboard_parameter_dict();
    let mut components: Vec<LocalManifestComponent> = Vec::new();
    let mut i: usize = 0;
    while i < manifest.len()
        invariant
            i <= manifest@.len(),
            params@ == preboard_params(),
            component_views(components@) == preboard_components(manifest@.take(i as int)),
        decreases manifest@.len() - i,
    {
        let (key, item) = manifest.entry(i);
        assert(manifest@.take(i + 1).drop_last() =~= manifest@.take(i as int));
        assert(manifest@.take(i + 1).last() == manifest@[i as int]);
        if let Some(c) = preboard_component_for(key.as_str(), item, &params) {
            let ghost before = components@;
            components.push(c);
            assert(component_views(components@) =~= component_views(before).push(component_view(c)));
        }
        i = i + 1;
    }
    assert(manifest@.take(manifest@.len() as int) =~= manifest@);
    let r = build_local_manifest(board_id, chip_id, false, 1, components.as_slice());
    assert(encoded_as(r, local_manifest_bytes(board_id, chip_id, false, 1, components@)));
    r
}

} // verus!
