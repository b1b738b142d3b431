//! ASR, which streams the root filesystem to a restoring device: the
//! handshake, the validation exchange and the payload's chunks.

use vstd::prelude::*;

use sha1::{Digest, Sha1};

use crate::error::IdeviceError;
use crate::lockdown::string_entry;
use crate::plist::{lookup, view_bool, view_string, view_unsigned, PlistDict, PlistValue, PlistView};
use crate::restore::errors::RestoreError;
use crate::restore::options::{dict_from, dict_from_pairs, pair_views};
use vstd::string::StringExecFns;

verus! {

/// The ASR protocol version the host speaks.
pub const ASR_VERSION: i64 = 1;

/// The stream the payload goes on.
pub const ASR_STREAM_ID: i64 = 1;

/// The FEC slice stride.
pub const ASR_FEC_SLICE_STRIDE: i64 = 40;

/// Packets per FEC group.
pub const ASR_PACKETS_PER_FEC: i64 = 25;

/// The payload packet size.
pub const ASR_PAYLOAD_PACKET_SIZE: i64 = 1450;

/// How many bytes of the image go in one payload chunk.
pub const ASR_PAYLOAD_CHUNK_SIZE: u64 = 0x20000;

/// Reads ASR's first message: it must be `Initiate`; it says whether each
/// payload chunk is followed by its SHA-1 (`Checksum Chunks`, false when
/// absent).
pub fn initiate_reply(message: &PlistDict) -> (r: Result<bool, IdeviceError>)
    ensures
        view_string(lookup(message@, "Command"@)) == Some("Initiate"@) ==> r == Ok::<bool, IdeviceError>(
            view_bool(lookup(message@, "Checksum Chunks"@)) == Some(true),
        ),
        view_string(lookup(message@, "Command"@)) != Some("Initiate"@) ==> r matches Err(
            IdeviceError::UnexpectedResponse,
        ),
{
    match message.get("Command") {
        Some(PlistValue::String(c)) => {
            if !crate::text::str_equal(c.as_str(), "Initiate") {
                return Err(IdeviceError::UnexpectedResponse);
            }
        },
        _ => return Err(IdeviceError::UnexpectedResponse),
    }
    match message.get("Checksum Chunks") {
        Some(PlistValue::Boolean(b)) => Ok(*b),
        _ => Ok(false),
    }
}

/// The end of an ASR message: `</plist>` and a newline.
pub open spec fn plist_end() -> Seq<u8> {
    seq![0x3Cu8, 0x2F, 0x70, 0x6C, 0x69, 0x73, 0x74, 0x3E, 0x0A]
}

/// Whether the bytes read so far end an ASR message.
pub fn ends_message(buf: &[u8]) -> (r: bool)
    ensures
        r == (buf@.len() >= 9 && buf@.skip(buf@.len() - 9) == plist_end()),
{
    let n = buf.len();
    if n < 9 {
        return false;
    }
    let end = [0x3Cu8, 0x2F, 0x70, 0x6C, 0x69, 0x73, 0x74, 0x3E, 0x0A];
    let mut i: usize = 0;
    while i < 9
        invariant
            n == buf@.len(),
            n >= 9,
            end@ == plist_end(),
            i <= 9,
            forall|j: int| 0 <= j < i ==> buf@[n - 9 + j] == plist_end()[j],
        decreases 9 - i,
    {
        if buf[n - 9 + i] != end[i] {
            assert(buf@.skip(n - 9)[i as int] != plist_end()[i as int]);
            return false;
        }
        i = i + 1;
    }
    assert(buf@.skip(n - 9) =~= plist_end());
    true
}

/// An XML message as sent: a newline is added unless it ends with one.
pub fn newline_terminated(xml: Vec<u8>) -> (r: Vec<u8>)
    ensures
        xml@.len() > 0 && xml@.last() == 0x0A ==> r@ == xml@,
        !(xml@.len() > 0 && xml@.last() == 0x0A) ==> r@ == xml@.push(0x0A),
{
    let mut out = xml;
    let n = out.len();
    if n == 0 || out[n - 1] != 0x0A {
        out.push(0x0A);
    }
    out
}

/// The validation request's entries for an image of `length` bytes: the
/// chunk size when chunks are checksummed, the FEC and packet settings,
/// the payload (port 1, the size as a signed 64-bit number), the stream and
/// the version.
pub open spec fn validation_entries(length: u64, checksum_chunks: bool) -> Seq<(Seq<char>, PlistView)> {
    (if checksum_chunks {
        seq![("Checksum Chunk Size"@, PlistView::Integer(ASR_PAYLOAD_CHUNK_SIZE as int))]
    } else {
        Seq::empty()
    }) + seq![
        ("FEC Slice Stride"@, PlistView::Integer(ASR_FEC_SLICE_STRIDE as int)),
        ("Packet Payload Size"@, PlistView::Integer(ASR_PAYLOAD_PACKET_SIZE as int)),
        ("Packets Per FEC"@, PlistView::Integer(ASR_PACKETS_PER_FEC as int)),
        (
            "Payload"@,
            PlistView::Dictionary(
                dict_from(seq![("Port"@, PlistView::Integer(1)), ("Size"@, PlistView::Integer((length as i64) as int))]),
            ),
        ),
        ("Stream ID"@, PlistView::Integer(ASR_STREAM_ID as int)),
        ("Version"@, PlistView::Integer(ASR_VERSION as int)),
    ]
}

/// The validation request that describes the image.
pub fn validation_request(length: u64, checksum_chunks: bool) -> (r: PlistDict)
    ensures
        r@ == dict_from(validation_entries(length, checksum_chunks)),
{
    let size: i64 = length as i64;
    let payload_pairs = vec![("Port", PlistValue::Integer(1)), ("Size", PlistValue::Integer(size as i128))];
    assert(pair_views(payload_pairs@) =~= seq![
        ("Port"@, PlistView::Integer(1)),
        ("Size"@, PlistView::Integer((length as i64) as int)),
    ]);
    let payload = dict_from_pairs(payload_pairs);
    let mut pairs: Vec<(&str, PlistValue)> = Vec::new();
    if checksum_chunks {
        crate::lockdown::push_pair(&mut pairs, "Checksum Chunk Size", PlistValue::Integer(0x20000));
    }
    let ghost head = pair_views(pairs@);
    crate::lockdown::push_pair(&mut pairs, "FEC Slice Stride", PlistValue::Integer(40));
    crate::lockdown::push_pair(&mut pairs, "Packet Payload Size", PlistValue::Integer(1450));
    crate::lockdown::push_pair(&mut pairs, "Packets Per FEC", PlistValue::Integer(25));
    crate::lockdown::push_pair(&mut pairs, "Payload", PlistValue::Dictionary(payload));
    crate::lockdown::push_pair(&mut pairs, "Stream ID", PlistValue::Integer(1));
    crate::lockdown::push_pair(&mut pairs, "Version", PlistValue::Integer(1));
    assert(pair_views(pairs@) =~= validation_entries(length, checksum_chunks));
    dict_from_pairs(pairs)
}

/// What ASR asks for during validation.
#[derive(Debug, Clone, Copy, PartialEq, Eq, Structural)]
pub enum AsrRequest {
    /// Validation is over: send the payload.
    Payload,
    /// Send these bytes of the image out of band.
    OutOfBand {
        /// Where they start.
        offset: u64,
        /// How many.
        length: u64,
    },
}

/// What a validation message asks for, or `None` when it is not one ASR
/// sends here (or an out-of-band request lacks its offset or length).
pub open spec fn asr_request_of(message: Seq<(Seq<char>, PlistView)>) -> Option<AsrRequest> {
    let command = view_string(lookup(message, "Command"@));
    if command == Some("Payload"@) {
        Some(AsrRequest::Payload)
    } else if command == Some("OOBData"@) {
        match (view_unsigned(lookup(message, "OOB Offset"@)), view_unsigned(lookup(message, "OOB Length"@))) {
            (Some(offset), Some(length)) => Some(AsrRequest::OutOfBand { offset, length }),
            _ => None,
        }
    } else {
        None
    }
}

/// Reads a validation message.
pub fn asr_request(message: &PlistDict) -> (r: Result<AsrRequest, IdeviceError>)
    ensures
        match asr_request_of(message@) {
            Some(q) => r == Ok::<AsrRequest, IdeviceError>(q),
            None => r matches Err(IdeviceError::UnexpectedResponse),
        },
{
    let command = match message.get("Command") {
        Some(PlistValue::String(c)) => c.as_str(),
        _ => return Err(IdeviceError::UnexpectedResponse),
    };
    if crate::text::str_equal(command, "Payload") {
        return Ok(AsrRequest::Payload);
    }
    if !crate::text::str_equal(command, "OOBData") {
        return Err(IdeviceError::UnexpectedResponse);
    }
    let offset = match message.get("OOB Offset") {
        Some(v) => match v.as_unsigned_integer() {
            Some(o) => o,
            None => return Err(IdeviceError::UnexpectedResponse),
        },
        None => return Err(IdeviceError::UnexpectedResponse),
    };
    let length = match message.get("OOB Length") {
        Some(v) => match v.as_unsigned_integer() {
            Some(l) => l,
            None => return Err(IdeviceError::UnexpectedResponse),
        },
        None => return Err(IdeviceError::UnexpectedResponse),
    };
    Ok(AsrRequest::OutOfBand { offset, length })
}

/// Checks an out-of-band read: it must have given all the bytes asked
/// for; a short read is an ASR failure that says how short.
pub fn check_oob_read(wanted: u64, got: usize) -> (r: Result<(), IdeviceError>)
    ensures
        got as nat == wanted as nat ==> r is Ok,
        got as nat != wanted as nat ==> (r matches Err(IdeviceError::Restore(RestoreError::Asr(m))) && m@
            == "ASR OOB read short: wanted "@ + crate::text::decimal_chars(wanted as nat) + ", got "@
            + crate::text::decimal_chars(got as nat)),
{
    let g: u64 = got as u64;
    if g == wanted {
        return Ok(());
    }
    let mut m = String::from_str("ASR OOB read short: wanted ");
    let w = crate::text::decimal_string(wanted);
    m.append(w.as_str());
    m.append(", got ");
    let gs = crate::text::decimal_string(g);
    m.append(gs.as_str());
    Err(IdeviceError::Restore(RestoreError::Asr(m)))
}

/// How many bytes the next payload chunk asks of the image.
pub fn payload_chunk_len(offset: u64, length: u64) -> (r: u64)
    requires
        offset < length,
    ensures
        r == if length - offset < ASR_PAYLOAD_CHUNK_SIZE {
            length - offset
        } else {
            ASR_PAYLOAD_CHUNK_SIZE as int
        },
{
    if length - offset < ASR_PAYLOAD_CHUNK_SIZE {
        length - offset
    } else {
        ASR_PAYLOAD_CHUNK_SIZE
    }
}

/// The SHA-1 digest of some bytes.
pub uninterp spec fn sha1_digest(data: Seq<u8>) -> Seq<u8>;

/// Hashes with SHA-1.
///
/// Calls `Sha1::digest` of the sha1 crate; the contract names the result
/// and states its length, 20 bytes.
#[verifier::external_body]
fn sha1(data: &[u8]) -> (r: Vec<u8>)
    ensures
        r@ == sha1_digest(data@),
        r@.len() == 20,
{
    Sha1::digest(data).to_vec()
}

/// A payload chunk as sent: followed by its SHA-1 when chunks are
/// checksummed.
pub fn payload_packet(chunk: Vec<u8>, checksum_chunks: bool) -> (r: Vec<u8>)
    ensures
        checksum_chunks ==> r@ == chunk@ + sha1_digest(chunk@),
        !checksum_chunks ==> r@ == chunk@,
{
    if checksum_chunks {
        let digest = sha1(chunk.as_slice());
        let mut out = chunk;
        crate::bytes::append_bytes(&mut out, digest.as_slice());
        out
    } else {
        chunk
    }
}

} // verus!
