//! TLV8 records of the pairing protocol: a one-byte type code, a one-byte
//! length and that many bytes of data, repeated.

use vstd::prelude::*;

use crate::error::IdeviceError;

verus! {

/// The type of a TLV8 record.
#[derive(Debug, Clone, Copy, PartialEq, Eq, Structural)]
pub enum PairingDataComponentType {
    Method,
    Identifier,
    Salt,
    PublicKey,
    Proof,
    EncryptedData,
    State,
    ErrorResponse,
    RetryDelay,
    Certificate,
    Signature,
    Permissions,
    FragmentData,
    FragmentLast,
    SessionId,
    Ttl,
    ExtraData,
    Info,
    Acl,
    Flags,
    ValidationData,
    MfiAuthToken,
    MfiProductType,
    SerialNumber,
    MfiAuthTokenUuid,
    AppFlags,
    OwnershipProof,
    SetupCodeType,
    ProductionData,
    AppInfo,
    Separator,
}

/// The wire code of each record type: 0x00 to 0x1d in declaration order, and
/// 0xff for the separator.
pub open spec fn component_code(t: PairingDataComponentType) -> u8 {
    match t {
        PairingDataComponentType::Method => 0x00,
        PairingDataComponentType::Identifier => 0x01,
        PairingDataComponentType::Salt => 0x02,
        PairingDataComponentType::PublicKey => 0x03,
        PairingDataComponentType::Proof => 0x04,
        PairingDataComponentType::EncryptedData => 0x05,
        PairingDataComponentType::State => 0x06,
        PairingDataComponentType::ErrorResponse => 0x07,
        PairingDataComponentType::RetryDelay => 0x08,
        PairingDataComponentType::Certificate => 0x09,
        PairingDataComponentType::Signature => 0x0a,
        PairingDataComponentType::Permissions => 0x0b,
        PairingDataComponentType::FragmentData => 0x0c,
        PairingDataComponentType::FragmentLast => 0x0d,
        PairingDataComponentType::SessionId => 0x0e,
        PairingDataComponentType::Ttl => 0x0f,
        PairingDataComponentType::ExtraData => 0x10,
        PairingDataComponentType::Info => 0x11,
        PairingDataComponentType::Acl => 0x12,
        PairingDataComponentType::Flags => 0x13,
        PairingDataComponentType::ValidationData => 0x14,
        PairingDataComponentType::MfiAuthToken => 0x15,
        PairingDataComponentType::MfiProductType => 0x16,
        PairingDataComponentType::SerialNumber => 0x17,
        PairingDataComponentType::MfiAuthTokenUuid => 0x18,
        PairingDataComponentType::AppFlags => 0x19,
        PairingDataComponentType::OwnershipProof => 0x1a,
        PairingDataComponentType::SetupCodeType => 0x1b,
        PairingDataComponentType::ProductionData => 0x1c,
        PairingDataComponentType::AppInfo => 0x1d,
        PairingDataComponentType::Separator => 0xff,
    }
}

/// Whether a byte is the code of some record type.
pub open spec fn is_component_code(b: u8) -> bool {
    b <= 0x1d || b == 0xff
}

impl PairingDataComponentType {
    /// The wire code of this record type.
    pub fn code(self) -> (r: u8)
        ensures
            r == component_code(self),
    {
        match self {
            PairingDataComponentType::Method => 0x00,
            PairingDataComponentType::Identifier => 0x01,
            PairingDataComponentType::Salt => 0x02,
            PairingDataComponentType::PublicKey => 0x03,
            PairingDataComponentType::Proof => 0x04,
            PairingDataComponentType::EncryptedData => 0x05,
            PairingDataComponentType::State => 0x06,
            PairingDataComponentType::ErrorResponse => 0x07,
            PairingDataComponentType::RetryDelay => 0x08,
            PairingDataComponentType::Certificate => 0x09,
            PairingDataComponentType::Signature => 0x0a,
            PairingDataComponentType::Permissions => 0x0b,
            PairingDataComponentType::FragmentData => 0x0c,
            PairingDataComponentType::FragmentLast => 0x0d,
            PairingDataComponentType::SessionId => 0x0e,
            PairingDataComponentType::Ttl => 0x0f,
            PairingDataComponentType::ExtraData => 0x10,
            PairingDataComponentType::Info => 0x11,
            PairingDataComponentType::Acl => 0x12,
            PairingDataComponentType::Flags => 0x13,
            PairingDataComponentType::ValidationData => 0x14,
            PairingDataComponentType::MfiAuthToken => 0x15,
            PairingDataComponentType::MfiProductType => 0x16,
            PairingDataComponentType::SerialNumber => 0x17,
            PairingDataComponentType::MfiAuthTokenUuid => 0x18,
            PairingDataComponentType::AppFlags => 0x19,
            PairingDataComponentType::OwnershipProof => 0x1a,
            PairingDataComponentType::SetupCodeType => 0x1b,
            PairingDataComponentType::ProductionData => 0x1c,
            PairingDataComponentType::AppInfo => 0x1d,
            PairingDataComponentType::Separator => 0xff,
        }
    }

    /// The record type with the given wire code; the code itself is handed
    /// back when it names no type.
    pub fn try_from_code(value: u8) -> (r: Result<PairingDataComponentType, u8>)
        ensures
            match r {
                Ok(t) => is_component_code(value) && component_code(t) == value,
                Err(v) => !is_component_code(value) && v == value,
            },
    {
        match value {
            0x00 => Ok(PairingDataComponentType::Method),
            0x01 => Ok(PairingDataComponentType::Identifier),
            0x02 => Ok(PairingDataComponentType::Salt),
            0x03 => Ok(PairingDataComponentType::PublicKey),
            0x04 => Ok(PairingDataComponentType::Proof),
            0x05 => Ok(PairingDataComponentType::EncryptedData),
            0x06 => Ok(PairingDataComponentType::State),
            0x07 => Ok(PairingDataComponentType::ErrorResponse),
            0x08 => Ok(PairingDataComponentType::RetryDelay),
            0x09 => Ok(PairingDataComponentType::Certificate),
            0x0a => Ok(PairingDataComponentType::Signature),
            0x0b => Ok(PairingDataComponentType::Permissions),
            0x0c => Ok(PairingDataComponentType::FragmentData),
            0x0d => Ok(PairingDataComponentType::FragmentLast),
            0x0e => Ok(PairingDataComponentType::SessionId),
            0x0f => Ok(PairingDataComponentType::Ttl),
            0x10 => Ok(PairingDataComponentType::ExtraData),
            0x11 => Ok(PairingDataComponentType::Info),
            0x12 => Ok(PairingDataComponentType::Acl),
            0x13 => Ok(PairingDataComponentType::Flags),
            0x14 => Ok(PairingDataComponentType::ValidationData),
            0x15 => Ok(PairingDataComponentType::MfiAuthToken),
            0x16 => Ok(PairingDataComponentType::MfiProductType),
            0x17 => Ok(PairingDataComponentType::SerialNumber),
            0x18 => Ok(PairingDataComponentType::MfiAuthTokenUuid),
            0x19 => Ok(PairingDataComponentType::AppFlags),
            0x1a => Ok(PairingDataComponentType::OwnershipProof),
            0x1b => Ok(PairingDataComponentType::SetupCodeType),
            0x1c => Ok(PairingDataComponentType::ProductionData),
            0x1d => Ok(PairingDataComponentType::AppInfo),
            0xff => Ok(PairingDataComponentType::Separator),
            other => Err(other),
        }
    }
}

/// One TLV8 record.
#[derive(Debug, Clone)]
pub struct TLV8Entry {
    pub tlv_type: PairingDataComponentType,
    pub data: Vec<u8>,
}

/// The content of a record: its type and data bytes.
pub open spec fn entry_view(e: TLV8Entry) -> (PairingDataComponentType, Seq<u8>) {
    (e.tlv_type, e.data@)
}

impl TLV8Entry {
    /// The SRP state record for the given stage.
    pub fn m(stage: u8) -> (r: TLV8Entry)
        ensures
            r.tlv_type == PairingDataComponentType::State,
            r.data@ == seq![stage],
    {
        let data = vec![stage];
        assert(data@ =~= seq![stage]);
        TLV8Entry { tlv_type: PairingDataComponentType::State, data }
    }
}

/// The bytes of one record: type code, length (modulo 256, as the length
/// byte holds it) and the data.
pub open spec fn entry_bytes(e: (PairingDataComponentType, Seq<u8>)) -> Seq<u8> {
    seq![component_code(e.0), (e.1.len() % 256) as u8] + e.1
}

/// The encoding of a list of records: their bytes one after another.
pub open spec fn tlv8_encoding(es: Seq<(PairingDataComponentType, Seq<u8>)>) -> Seq<u8>
    decreases es.len(),
{
    if es.len() == 0 {
        Seq::empty()
    } else {
        tlv8_encoding(es.drop_last()) + entry_bytes(es.last())
    }
}

/// Why decoding stopped.
pub enum TlvDecodeError {
    /// A record claims more data than remains.
    Malformed,
    /// A record's type code names no type.
    UnknownType(u8),
}

/// Decoding from the front: each record needs two header bytes (a single
/// trailing byte is ignored), its data must fit, and its type must be known.
/// The first failure from the front is the one reported.
pub open spec fn tlv8_decoding(s: Seq<u8>) -> Result<Seq<(PairingDataComponentType, Seq<u8>)>, TlvDecodeError>
    decreases s.len(),
{
    if s.len() < 2 {
        Ok(Seq::empty())
    } else {
        let len = s[1] as int;
        if 2 + len > s.len() {
            Err(TlvDecodeError::Malformed)
        } else if !is_component_code(s[0]) {
            Err(TlvDecodeError::UnknownType(s[0]))
        } else {
            let t = choose|t: PairingDataComponentType| component_code(t) == s[0];
            match tlv8_decoding(s.skip(2 + len)) {
                Ok(rest) => Ok(seq![(t, s.subrange(2, 2 + len))] + rest),
                Err(e) => Err(e),
            }
        }
    }
}

pub open spec fn prepend_decoded(
    acc: Seq<(PairingDataComponentType, Seq<u8>)>,
    r: Result<Seq<(PairingDataComponentType, Seq<u8>)>, TlvDecodeError>,
) -> Result<Seq<(PairingDataComponentType, Seq<u8>)>, TlvDecodeError> {
    match r {
        Ok(v) => Ok(acc + v),
        Err(e) => Err(e),
    }
}

/// Serializes records. The length byte holds the data length modulo 256, as
/// the protocol's one-byte length field does.
pub fn serialize_tlv8(entries: &[TLV8Entry]) -> (out: Vec<u8>)
    requires
        tlv8_encoding(entries@.map_values(|e: TLV8Entry| entry_view(e))).len() <= usize::MAX,
    ensures
        out@ == tlv8_encoding(entries@.map_values(|e: TLV8Entry| entry_view(e))),
{
    let ghost es = entries@.map_values(|e: TLV8Entry| entry_view(e));
    let mut out: Vec<u8> = Vec::new();
    let mut i: usize = 0;
    assert(es.take(0) =~= Seq::<(PairingDataComponentType, Seq<u8>)>::empty());
    while i < entries.len()
        invariant
            i <= entries.len(),
            es == entries@.map_values(|e: TLV8Entry| entry_view(e)),
            tlv8_encoding(es).len() <= usize::MAX,
            out@ == tlv8_encoding(es.take(i as int)),
        decreases entries.len() - i,
    {
        let entry = &entries[i];
        proof {
            assert(es.take(i + 1).drop_last() =~= es.take(i as int));
            assert(es.take(i + 1).last() == entry_view(*entry));
            lemma_encoding_prefix_len(es, i + 1);
        }
        out.push(entry.tlv_type.code());
        out.push((entry.data.len() % 256) as u8);
        let mut k: usize = 0;
        let ghost start = out@;
        while k < entry.data.len()
            invariant
                k <= entry.data@.len(),
                out@ == start + entry.data@.take(k as int),
                start.len() + entry.data@.len() <= usize::MAX,
            decreases entry.data.len() - k,
        {
            out.push(entry.data[k]);
            k = k + 1;
            assert(out@ =~= start + entry.data@.take(k as int));
        }
        proof {
            assert(entry.data@.take(k as int) =~= entry.data@);
            assert(out@ =~= tlv8_encoding(es.take(i + 1)));
        }
        i = i + 1;
    }
    assert(es.take(entries.len() as int) =~= es);
    out
}

proof fn lemma_encoding_prefix_len(es: Seq<(PairingDataComponentType, Seq<u8>)>, j: int)
    requires
        0 <= j <= es.len(),
    ensures
        tlv8_encoding(es.take(j)).len() <= tlv8_encoding(es).len(),
    decreases es.len() - j,
{
    if j < es.len() {
        lemma_encoding_prefix_len(es, j + 1);
        assert(es.take(j + 1).drop_last() =~= es.take(j));
    } else {
        assert(es.take(j) =~= es);
    }
}

fn tlv_error(e: TlvDecodeError) -> (r: IdeviceError)
    ensures
        match e {
            TlvDecodeError::Malformed => r is MalformedTlv,
            TlvDecodeError::UnknownType(b) => r == IdeviceError::UnknownTlv(b),
        },
{
    match e {
        TlvDecodeError::Malformed => IdeviceError::MalformedTlv,
        TlvDecodeError::UnknownType(b) => IdeviceError::UnknownTlv(b),
    }
}

/// The error a decoding failure is reported as.
pub open spec fn reported_tlv_error(e: TlvDecodeError) -> IdeviceError {
    match e {
        TlvDecodeError::Malformed => IdeviceError::MalformedTlv,
        TlvDecodeError::UnknownType(b) => IdeviceError::UnknownTlv(b),
    }
}

/// Parses TLV8 records. Fails with `MalformedTlv` when a record's data runs
/// past the end and with `UnknownTlv(code)` for an unknown type code,
/// whichever comes first; a single trailing byte is ignored.
pub fn deserialize_tlv8(input: &[u8]) -> (res: Result<Vec<TLV8Entry>, IdeviceError>)
    ensures
        match tlv8_decoding(input@) {
            Ok(es) => res matches Ok(v) && v@.map_values(|e: TLV8Entry| entry_view(e)) == es,
            Err(e) => res matches Err(err) && err == reported_tlv_error(e),
        },
{
    let mut index: usize = 0;
    let mut result: Vec<TLV8Entry> = Vec::new();
    let n = input.len();
    assert(input@.skip(0) =~= input@);
    assert(result@.map_values(|e: TLV8Entry| entry_view(e)) =~= Seq::<
        (PairingDataComponentType, Seq<u8>),
    >::empty());
    while n - index >= 2
        invariant
            n == input@.len(),
            index <= n,
            tlv8_decoding(input@) == prepend_decoded(
                result@.map_values(|e: TLV8Entry| entry_view(e)),
                tlv8_decoding(input@.skip(index as int)),
            ),
        decreases n - index,
    {
        let ghost s = input@.skip(index as int);
        let type_byte = input[index];
        let length = input[index + 1] as usize;
        assert(s[0] == type_byte && s[1] == length);
        if length > n - index - 2 {
            return Err(IdeviceError::MalformedTlv);
        }
        let tlv_type = match PairingDataComponentType::try_from_code(type_byte) {
            Ok(t) => t,
            Err(b) => {
                return Err(IdeviceError::UnknownTlv(b));
            },
        };
        let start = index + 2;
        let mut data: Vec<u8> = Vec::new();
        let mut k: usize = 0;
        while k < length
            invariant
                k <= length,
                start + length <= n,
                n == input@.len(),
                data@ == input@.subrange(start as int, start + k),
            decreases length - k,
        {
            data.push(input[start + k]);
            k = k + 1;
            assert(data@ =~= input@.subrange(start as int, start + k));
        }
        proof {
            let t = choose|t: PairingDataComponentType| component_code(t) == s[0];
            lemma_code_injective(t, tlv_type);
            assert(s.subrange(2, 2 + length) =~= data@);
            assert(s.skip(2 + length) =~= input@.skip(start + length));
        }
        let ghost before = result@.map_values(|e: TLV8Entry| entry_view(e));
        let ghost x = (tlv_type, data@);
        proof {
            assert(tlv8_decoding(s) == prepend_decoded(
                seq![x],
                tlv8_decoding(input@.skip(start + length)),
            ));
            match tlv8_decoding(input@.skip(start + length)) {
                Ok(v) => {
                    assert(before + seq![x] + v =~= before + (seq![x] + v));
                },
                Err(_) => {},
            }
        }
        result.push(TLV8Entry { tlv_type, data });
        assert(result@.map_values(|e: TLV8Entry| entry_view(e)) =~= before + seq![x]);
        index = start + length;
    }
    proof {
        let s = input@.skip(index as int);
        assert(s.len() < 2);
        assert(result@.map_values(|e: TLV8Entry| entry_view(e)) + Seq::<
            (PairingDataComponentType, Seq<u8>),
        >::empty() =~= result@.map_values(|e: TLV8Entry| entry_view(e)));
    }
    Ok(result)
}

proof fn lemma_code_injective(a: PairingDataComponentType, b: PairingDataComponentType)
    requires
        component_code(a) == component_code(b),
    ensures
        a == b,
{
}

proof fn lemma_encoding_cons(e: (PairingDataComponentType, Seq<u8>), es: Seq<(PairingDataComponentType, Seq<u8>)>)
    ensures
        tlv8_encoding(seq![e] + es) == entry_bytes(e) + tlv8_encoding(es),
    decreases es.len(),
{
    if es.len() == 0 {
        assert(seq![e] + es =~= seq![e]);
        assert(seq![e].drop_last() =~= Seq::<(PairingDataComponentType, Seq<u8>)>::empty());
        assert(tlv8_encoding(Seq::<(PairingDataComponentType, Seq<u8>)>::empty()) =~= Seq::<u8>::empty());
        assert(tlv8_encoding(seq![e]) =~= Seq::<u8>::empty() + entry_bytes(e));
        assert(entry_bytes(e) + Seq::<u8>::empty() =~= entry_bytes(e));
    } else {
        lemma_encoding_cons(e, es.drop_last());
        assert((seq![e] + es).drop_last() =~= seq![e] + es.drop_last());
        assert((seq![e] + es).last() == es.last());
        assert(entry_bytes(e) + tlv8_encoding(es.drop_last()) + entry_bytes(es.last()) =~= entry_bytes(
            e,
        ) + tlv8_encoding(es));
    }
}

/// Decoding what was encoded gives back the records, when every record's
/// data fits the one-byte length field.
pub proof fn law_tlv8_roundtrip(es: Seq<(PairingDataComponentType, Seq<u8>)>)
    requires
        forall|i: int| 0 <= i < es.len() ==> (#[trigger] es[i]).1.len() <= 255,
    ensures
        tlv8_decoding(tlv8_encoding(es)) == Ok::<Seq<(PairingDataComponentType, Seq<u8>)>, TlvDecodeError>(es),
    decreases es.len(),
{
    if es.len() == 0 {
        assert(tlv8_encoding(es) =~= Seq::<u8>::empty());
        assert(es =~= Seq::<(PairingDataComponentType, Seq<u8>)>::empty());
    } else {
        let e = es[0];
        let rest = es.drop_first();
        assert(seq![e] + rest =~= es);
        assert forall|i: int| 0 <= i < rest.len() implies (#[trigger] rest[i]).1.len() <= 255 by {
            assert(rest[i] == es[i + 1]);
        }
        law_tlv8_roundtrip(rest);
        lemma_encoding_cons(e, rest);
        let s = tlv8_encoding(es);
        let len = e.1.len();
        assert(len <= 255);
        assert(s[1] as int == len);
        assert(s[0] == component_code(e.0));
        assert(s.subrange(2, 2 + len as int) =~= e.1);
        assert(s.skip(2 + len as int) =~= tlv8_encoding(rest));
        assert(s.len() == 2 + len + tlv8_encoding(rest).len());
        assert(is_component_code(s[0]));
        let t = choose|t: PairingDataComponentType| component_code(t) == s[0];
        lemma_code_injective(t, e.0);
        assert(tlv8_decoding(s) == Ok::<Seq<(PairingDataComponentType, Seq<u8>)>, TlvDecodeError>(
            seq![(t, s.subrange(2, 2 + len as int))] + rest,
        ));
        assert(seq![(t, s.subrange(2, 2 + len as int))] + rest =~= es);
    }
}

} // verus!
