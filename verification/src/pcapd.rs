//! Packets captured by the device's pcapd service, and the pcap file
//! records they are written as.

use vstd::prelude::*;

use crate::bytes::append_bytes;
use crate::error::IdeviceError;
use crate::tcp::packets::{be16, be32, be32_bytes};
use crate::text::str_chars;
use vstd::utf8::{decode_utf8, valid_utf8};

verus! {

/// A packet as pcapd reports it: its capture header and its data.
#[derive(Debug, Clone)]
pub struct DevicePacket {
    /// Length of the capture header; the data starts at this offset.
    pub header_length: u32,
    /// Capture header version.
    pub header_version: u8,
    /// Length of the packet data.
    pub packet_length: u32,
    /// Interface type.
    pub interface_type: u8,
    /// Interface unit.
    pub unit: u16,
    /// Direction.
    pub io: u8,
    /// Protocol family.
    pub protocol_family: u32,
    /// Length of the link-layer frame before the packet.
    pub frame_pre_length: u32,
    /// Length of the link-layer frame after the packet.
    pub frame_post_length: u32,
    /// Interface name.
    pub interface_name: String,
    /// Process id (little-endian on the wire).
    pub pid: u32,
    /// Process name.
    pub comm: String,
    /// Service class.
    pub svc: u32,
    /// Effective process id (little-endian on the wire).
    pub epid: u32,
    /// Effective process name.
    pub ecomm: String,
    /// Capture time, seconds.
    pub seconds: u32,
    /// Capture time, microseconds.
    pub microseconds: u32,
    /// Packet data.
    pub data: Vec<u8>,
}

/// The fake Ethernet header put in front of raw IP packets.
pub open spec fn ethernet_header() -> Seq<u8> {
    seq![0xBEu8, 0xEF, 0xBE, 0xEF, 0xBE, 0xEF, 0xBE, 0xEF, 0xBE, 0xEF, 0xBE, 0xEF, 0x08, 0x00]
}

/// The little-endian `u32` at `at`.
pub open spec fn le32(s: Seq<u8>, at: int) -> nat {
    s[at] as nat + s[at + 1] as nat * 0x100 + s[at + 2] as nat * 0x1_0000 + s[at + 3] as nat
        * 0x100_0000
}

/// The index of the first zero byte of `b`, or its length.
pub open spec fn first_zero(b: Seq<u8>, i: int) -> int
    decreases b.len() - i,
{
    if i >= b.len() {
        b.len() as int
    } else if b[i] == 0 {
        i
    } else {
        first_zero(b, i + 1)
    }
}

/// The bytes of a fixed-size C string field up to its first zero byte.
pub open spec fn cstr_bytes(b: Seq<u8>) -> Seq<u8> {
    b.take(first_zero(b, 0))
}

/// The end of the packet data: header length plus packet length, saturated
/// at `usize::MAX`.
pub open spec fn packet_data_end(b: Seq<u8>) -> nat {
    let e = be32(b, 0) + be32(b, 5);
    if e > usize::MAX {
        usize::MAX as nat
    } else {
        e
    }
}

/// The error reading a capture gives, in the order the fields are read: a
/// field past the end, a name that is not UTF-8, or data past the end.
pub open spec fn packet_error(b: Seq<u8>) -> Option<IdeviceError> {
    let n = b.len();
    let short = |size: usize| Some(IdeviceError::NotEnoughBytes(size, n as usize));
    if n < 4 {
        short(4)
    } else if n < 5 {
        short(1)
    } else if n < 9 {
        short(4)
    } else if n < 10 {
        short(1)
    } else if n < 12 {
        short(2)
    } else if n < 13 {
        short(1)
    } else if n < 17 {
        short(4)
    } else if n < 21 {
        short(4)
    } else if n < 25 {
        short(4)
    } else if n < 41 {
        short(16)
    } else if !valid_utf8(cstr_bytes(b.subrange(25, 41))) {
        Some(IdeviceError::Utf8)
    } else if n < 45 {
        short(4)
    } else if n < 62 {
        short(17)
    } else if !valid_utf8(cstr_bytes(b.subrange(45, 62))) {
        Some(IdeviceError::Utf8)
    } else if n < 66 {
        short(4)
    } else if n < 70 {
        short(4)
    } else if n < 87 {
        short(17)
    } else if !valid_utf8(cstr_bytes(b.subrange(70, 87))) {
        Some(IdeviceError::Utf8)
    } else if n < 91 {
        short(4)
    } else if n < 95 {
        short(4)
    } else if packet_data_end(b) > n {
        Some(IdeviceError::NotEnoughBytes(n as usize, packet_data_end(b) as usize))
    } else {
        None
    }
}

/// The fields of `p` are those the capture `b` holds.
pub open spec fn packet_fields_of(p: DevicePacket, b: Seq<u8>) -> bool {
    &&& p.header_length == be32(b, 0)
    &&& p.header_version == b[4]
    &&& p.packet_length == be32(b, 5)
    &&& p.interface_type == b[9]
    &&& p.unit == be16(b[10], b[11])
    &&& p.io == b[12]
    &&& p.protocol_family == be32(b, 13)
    &&& p.frame_pre_length == be32(b, 17)
    &&& p.frame_post_length == be32(b, 21)
    &&& p.interface_name@ == decode_utf8(cstr_bytes(b.subrange(25, 41)))
    &&& p.pid == le32(b, 41)
    &&& p.comm@ == decode_utf8(cstr_bytes(b.subrange(45, 62)))
    &&& p.svc == be32(b, 62)
    &&& p.epid == le32(b, 66)
    &&& p.ecomm@ == decode_utf8(cstr_bytes(b.subrange(70, 87)))
    &&& p.seconds == be32(b, 87)
    &&& p.microseconds == be32(b, 91)
    &&& p.data@ == b.subrange(be32(b, 0) as int, packet_data_end(b) as int)
}

/// Decodes UTF-8 bytes into a `String`, with `String::from_utf8`.
///
/// The contract states what std documents: the bytes are accepted exactly
/// when they are valid UTF-8, and then decoded as they are.
#[verifier::external_body]
fn utf8_string(bytes: Vec<u8>) -> (r: Option<String>)
    ensures
        match r {
            Some(s) => valid_utf8(bytes@) && s@ == decode_utf8(bytes@),
            None => !valid_utf8(bytes@),
        },
{
    String::from_utf8(bytes).ok()
}

fn read_be32(s: &[u8], at: usize) -> (r: u32)
    requires
        at + 4 <= s@.len(),
    ensures
        r == be32(s@, at as int),
{
    (s[at] as u32) * 0x100_0000 + (s[at + 1] as u32) * 0x1_0000 + (s[at + 2] as u32) * 0x100 + (s[at
        + 3] as u32)
}

fn read_le32(s: &[u8], at: usize) -> (r: u32)
    requires
        at + 4 <= s@.len(),
    ensures
        r == le32(s@, at as int),
{
    (s[at] as u32) + (s[at + 1] as u32) * 0x100 + (s[at + 2] as u32) * 0x1_0000 + (s[at + 3] as u32)
        * 0x100_0000
}

/// Reads the C string field `s[at..at + len]`.
fn read_cstr(s: &[u8], at: usize, len: usize) -> (r: Option<String>)
    requires
        at + len <= s@.len(),
    ensures
        match r {
            Some(t) => valid_utf8(cstr_bytes(s@.subrange(at as int, at + len)))
                && t@ == decode_utf8(cstr_bytes(s@.subrange(at as int, at + len))),
            None => !valid_utf8(cstr_bytes(s@.subrange(at as int, at + len))),
        },
{
    let ghost field = s@.subrange(at as int, at + len);
    let mut out: Vec<u8> = Vec::new();
    let mut i: usize = 0;
    while i < len && s[at + i] != 0
        invariant
            at + len <= s.len(),
            field == s@.subrange(at as int, at + len),
            i <= len,
            out@ == field.take(i as int),
            first_zero(field, 0) == first_zero(field, i as int),
        decreases len - i,
    {
        out.push(s[at + i]);
        i = i + 1;
        assert(out@ =~= field.take(i as int));
    }
    utf8_string(out)
}

fn copy_range(s: &[u8], start: usize, end: usize) -> (r: Vec<u8>)
    requires
        start <= end <= s@.len(),
    ensures
        r@ == s@.subrange(start as int, end as int),
{
    let mut out: Vec<u8> = Vec::new();
    let mut i = start;
    while i < end
        invariant
            start <= i <= end <= s@.len(),
            out@ == s@.subrange(start as int, i as int),
        decreases end - i,
    {
        out.push(s[i]);
        i = i + 1;
        assert(out@ =~= s@.subrange(start as int, i as int));
    }
    out
}

fn short(size: usize, have: usize) -> (e: IdeviceError)
    ensures
        e == IdeviceError::NotEnoughBytes(size, have),
{
    IdeviceError::NotEnoughBytes(size, have)
}

impl DevicePacket {
    /// Parses a capture: the header fields in order, then the data at the
    /// header length.
    pub fn from_vec(bytes: &[u8]) -> (r: Result<DevicePacket, IdeviceError>)
        ensures
            match packet_error(bytes@) {
                Some(e) => r == Err::<DevicePacket, IdeviceError>(e),
                None => r matches Ok(p) && packet_fields_of(p, bytes@),
            },
    {
        let n = bytes.len();
        if n < 4 {
            return Err(short(4, n));
        }
        let header_length = read_be32(bytes, 0);
        if n < 5 {
            return Err(short(1, n));
        }
        let header_version = bytes[4];
        if n < 9 {
            return Err(short(4, n));
        }
        let packet_length = read_be32(bytes, 5);
        if n < 10 {
            return Err(short(1, n));
        }
        let interface_type = bytes[9];
        if n < 12 {
            return Err(short(2, n));
        }
        let unit = (bytes[10] as u16) * 0x100 + bytes[11] as u16;
        if n < 13 {
            return Err(short(1, n));
        }
        let io = bytes[12];
        if n < 17 {
            return Err(short(4, n));
        }
        let protocol_family = read_be32(bytes, 13);
        if n < 21 {
            return Err(short(4, n));
        }
        let frame_pre_length = read_be32(bytes, 17);
        if n < 25 {
            return Err(short(4, n));
        }
        let frame_post_length = read_be32(bytes, 21);
        if n < 41 {
            return Err(short(16, n));
        }
        let interface_name = match read_cstr(bytes, 25, 16) {
            Some(s) => s,
            None => return Err(IdeviceError::Utf8),
        };
        if n < 45 {
            return Err(short(4, n));
        }
        let pid = read_le32(bytes, 41);
        if n < 62 {
            return Err(short(17, n));
        }
        let comm = match read_cstr(bytes, 45, 17) {
            Some(s) => s,
            None => return Err(IdeviceError::Utf8),
        };
        if n < 66 {
            return Err(short(4, n));
        }
        let svc = read_be32(bytes, 62);
        if n < 70 {
            return Err(short(4, n));
        }
        let epid = read_le32(bytes, 66);
        if n < 87 {
            return Err(short(17, n));
        }
        let ecomm = match read_cstr(bytes, 70, 17) {
            Some(s) => s,
            None => return Err(IdeviceError::Utf8),
        };
        if n < 91 {
            return Err(short(4, n));
        }
        let seconds = read_be32(bytes, 87);
        if n < 95 {
            return Err(short(4, n));
        }
        let microseconds = read_be32(bytes, 91);
        let data_start = header_length as usize;
        let data_end = data_start.saturating_add(packet_length as usize);
        if data_end > n {
            return Err(IdeviceError::NotEnoughBytes(n, data_end));
        }
        let data = copy_range(bytes, data_start, data_end);
        assert(data_end == packet_data_end(bytes@));
        Ok(
            DevicePacket {
                header_length,
                header_version,
                packet_length,
                interface_type,
                unit,
                io,
                protocol_family,
                frame_pre_length,
                frame_post_length,
                interface_name,
                pid,
                comm,
                svc,
                epid,
                ecomm,
                seconds,
                microseconds,
                data,
            },
        )
    }

    /// Puts the fake Ethernet header in front of raw IP packets (no
    /// link-layer frame before them); for cellular (`pdp_ip`) interfaces it
    /// replaces the first four bytes of the data, when there are four.
    pub fn normalize_data(&mut self)
        ensures
            final(self).data@ == normalized_data(*old(self)),
            *final(self) == (DevicePacket { data: final(self).data, ..*old(self) }),
    {
        if self.frame_pre_length == 0 {
            let mut new_data = ethernet_header_bytes();
            append_bytes(&mut new_data, self.data.as_slice());
            self.data = new_data;
        } else if is_cellular(&self.interface_name) {
            if self.data.len() >= 4 {
                let mut new_data = ethernet_header_bytes();
                let tail = copy_range(self.data.as_slice(), 4, self.data.len());
                append_bytes(&mut new_data, tail.as_slice());
                assert(tail@ =~= self.data@.skip(4));
                self.data = new_data;
            }
        }
    }

    /// The sixteen-byte pcap record header of this packet: capture time and
    /// twice the data length (as a 32-bit value).
    pub fn pcap_record_header(&self) -> (r: Vec<u8>)
        ensures
            r@ == pcap_record_header_bytes(self.seconds, self.microseconds, self.data@.len()),
    {
        let len = ((self.data.len() as u64) % 0x1_0000_0000) as u32;
        let mut out: Vec<u8> = Vec::new();
        push_be32(&mut out, self.seconds);
        push_be32(&mut out, self.microseconds);
        push_be32(&mut out, len);
        push_be32(&mut out, len);
        out
    }
}

/// Whether an interface name is a cellular one (starts with `pdp_ip`).
pub open spec fn is_cellular_name(name: Seq<char>) -> bool {
    name.len() >= 6 && name.take(6) == "pdp_ip"@
}

/// The data of a packet once normalized.
pub open spec fn normalized_data(p: DevicePacket) -> Seq<u8> {
    if p.frame_pre_length == 0 {
        ethernet_header() + p.data@
    } else if is_cellular_name(p.interface_name@) && p.data@.len() >= 4 {
        ethernet_header() + p.data@.skip(4)
    } else {
        p.data@
    }
}

fn is_cellular(name: &String) -> (r: bool)
    ensures
        r == is_cellular_name(name@),
{
    let s = str_chars(name.as_str());
    let prefix = str_chars("pdp_ip");
    if s.len() < 6 || prefix.len() != 6 {
        return false;
    }
    let mut i: usize = 0;
    while i < 6
        invariant
            s@ == name@,
            prefix@ == "pdp_ip"@,
            s@.len() >= 6,
            prefix@.len() == 6,
            i <= 6,
            forall|k: int| 0 <= k < i ==> s@[k] == prefix@[k],
        decreases 6 - i,
    {
        if s[i] != prefix[i] {
            assert(s@.take(6)[i as int] != prefix@[i as int]);
            return false;
        }
        i = i + 1;
    }
    assert(s@.take(6) =~= prefix@);
    true
}

fn ethernet_header_bytes() -> (r: Vec<u8>)
    ensures
        r@ == ethernet_header(),
{
    let r = vec![0xBEu8, 0xEF, 0xBE, 0xEF, 0xBE, 0xEF, 0xBE, 0xEF, 0xBE, 0xEF, 0xBE, 0xEF, 0x08, 0x00];
    assert(r@ =~= ethernet_header());
    r
}

fn push_be32(out: &mut Vec<u8>, x: u32)
    ensures
        final(out)@ == old(out)@ + be32_bytes(x),
{
    out.push((x / 0x100_0000) as u8);
    out.push(((x / 0x1_0000) % 0x100) as u8);
    out.push(((x / 0x100) % 0x100) as u8);
    out.push((x % 0x100) as u8);
    assert(final(out)@ =~= old(out)@ + be32_bytes(x));
}

/// The pcap record header of a packet.
pub open spec fn pcap_record_header_bytes(seconds: u32, microseconds: u32, len: nat) -> Seq<u8> {
    let l = (len % 0x1_0000_0000) as u32;
    be32_bytes(seconds) + be32_bytes(microseconds) + be32_bytes(l) + be32_bytes(l)
}

/// The pcap global header for Ethernet captures: big-endian magic, version
/// 2.4, GMT, snap length 262144, link type Ethernet.
pub open spec fn pcap_global_header() -> Seq<u8> {
    seq![
        0xa1u8, 0xb2, 0xc3, 0xd4,
        0x00, 0x02,
        0x00, 0x04,
        0x00, 0x00, 0x00, 0x00,
        0x00, 0x00, 0x00, 0x00,
        0x00, 0x04, 0x00, 0x00,
        0x00, 0x00, 0x00, 0x01,
    ]
}

/// The header a pcap file starts with.
pub fn pcap_file_header() -> (r: Vec<u8>)
    ensures
        r@ == pcap_global_header(),
{
    let r = vec![
        0xa1u8, 0xb2, 0xc3, 0xd4,
        0x00, 0x02,
        0x00, 0x04,
        0x00, 0x00, 0x00, 0x00,
        0x00, 0x00, 0x00, 0x00,
        0x00, 0x04, 0x00, 0x00,
        0x00, 0x00, 0x00, 0x01,
    ];
    assert(r@ =~= pcap_global_header());
    r
}

} // verus!
