//! IPv4, IPv6 and TCP packet parsing and construction for the userspace
//! TCP stack that runs over a device tunnel.
//!
//! Addresses are held as their octets (`[u8; 4]` for IPv4, `[u8; 16]` for
//! IPv6).

use vstd::prelude::*;

use crate::bytes::append_bytes;
use crate::error::IdeviceError;
use vstd::slice::slice_to_vec;

verus! {

// ---------------------------------------------------------------------------
// Big-endian fields
// ---------------------------------------------------------------------------

/// The big-endian `u16` of two bytes.
pub open spec fn be16(hi: u8, lo: u8) -> nat {
    hi as nat * 0x100 + lo as nat
}

/// The big-endian `u32` of four bytes.
pub open spec fn be32(s: Seq<u8>, at: int) -> nat {
    s[at] as nat * 0x100_0000 + s[at + 1] as nat * 0x1_0000 + s[at + 2] as nat * 0x100 + s[at
        + 3] as nat
}

/// The two big-endian bytes of a 16-bit value.
pub open spec fn be16_bytes(x: u16) -> Seq<u8> {
    seq![(x / 0x100) as u8, (x % 0x100) as u8]
}

/// The four big-endian bytes of a 32-bit value.
pub open spec fn be32_bytes(x: u32) -> Seq<u8> {
    seq![
        (x / 0x100_0000) as u8,
        ((x / 0x1_0000) % 0x100) as u8,
        ((x / 0x100) % 0x100) as u8,
        (x % 0x100) as u8,
    ]
}

fn read_be16(s: &[u8], at: usize) -> (r: u16)
    requires
        at + 2 <= s@.len(),
    ensures
        r == be16(s@[at as int], s@[at + 1]),
{
    (s[at] as u16) * 0x100 + (s[at + 1] as u16)
}

pub(crate) fn read_be32(s: &[u8], at: usize) -> (r: u32)
    requires
        at + 4 <= s@.len(),
    ensures
        r == be32(s@, at as int),
{
    (s[at] as u32) * 0x100_0000 + (s[at + 1] as u32) * 0x1_0000 + (s[at + 2] as u32) * 0x100 + (s[at
        + 3] as u32)
}

fn push_be16(out: &mut Vec<u8>, x: u16)
    ensures
        final(out)@ == old(out)@ + be16_bytes(x),
{
    out.push((x / 0x100) as u8);
    out.push((x % 0x100) as u8);
    assert(final(out)@ =~= old(out)@ + be16_bytes(x));
}

pub(crate) fn push_be32(out: &mut Vec<u8>, x: u32)
    ensures
        final(out)@ == old(out)@ + be32_bytes(x),
{
    out.push((x / 0x100_0000) as u8);
    out.push(((x / 0x1_0000) % 0x100) as u8);
    out.push(((x / 0x100) % 0x100) as u8);
    out.push((x % 0x100) as u8);
    assert(final(out)@ =~= old(out)@ + be32_bytes(x));
}

/// The bytes of `s` from `start` to `end`.
fn copy_range(s: &[u8], start: usize, end: usize) -> (r: Vec<u8>)
    requires
        start <= end <= s@.len(),
    ensures
        r@ == s@.subrange(start as int, end as int),
{
    let mut out: Vec<u8> = Vec::new();
    let mut i = start;
    while i < end
        invariant
            start <= i <= end <= s@.len(),
            out@ == s@.subrange(start as int, i as int),
        decreases end - i,
    {
        out.push(s[i]);
        i = i + 1;
        assert(out@ =~= s@.subrange(start as int, i as int));
    }
    out
}

// ---------------------------------------------------------------------------
// Protocol numbers
// ---------------------------------------------------------------------------

/// IP protocol numbers this stack carries.
#[derive(Debug, Clone, Copy, PartialEq, Eq, Structural)]
pub enum ProtocolNumber {
    /// TCP, protocol number 6.
    Tcp,
}

impl ProtocolNumber {
    /// The protocol number carried in the IP header.
    pub fn number(self) -> (r: u8)
        ensures
            r == 6,
    {
        match self {
            ProtocolNumber::Tcp => 6,
        }
    }
}

// ---------------------------------------------------------------------------
// Word sums
// ---------------------------------------------------------------------------

/// The sum of the big-endian 16-bit words of `s`; a trailing odd byte is
/// left out.
pub open spec fn words_sum(s: Seq<u8>) -> nat
    decreases s.len(),
{
    if s.len() < 2 {
        0
    } else {
        be16(s[0], s[1]) + words_sum(s.skip(2))
    }
}

/// The sum of the big-endian 16-bit words of `s`, a trailing odd byte
/// padded with a zero byte.
pub open spec fn padded_words_sum(s: Seq<u8>) -> nat {
    words_sum(s) + if s.len() % 2 == 1 {
        s.last() as nat * 0x100
    } else {
        0
    }
}

proof fn lemma_words_sum_step(s: Seq<u8>, i: int)
    requires
        0 <= i,
        i + 2 <= s.len(),
        i % 2 == 0,
    ensures
        words_sum(s.take(i + 2)) == words_sum(s.take(i)) + be16(s[i], s[i + 1]),
    decreases i,
{
    if i == 0 {
        assert(s.take(2).skip(2) =~= Seq::<u8>::empty());
        assert(words_sum(Seq::<u8>::empty()) == 0);
        assert(s.take(0) =~= Seq::<u8>::empty());
        assert(words_sum(s.take(2)) == be16(s[0], s[1]) + words_sum(s.take(2).skip(2)));
    } else {
        let t = s.skip(2);
        lemma_words_sum_step(t, i - 2);
        assert(s.take(i + 2).skip(2) =~= t.take(i));
        assert(s.take(i).skip(2) =~= t.take(i - 2));
        assert(t.take(i - 2 + 2) =~= t.take(i));
        assert(words_sum(s.take(i + 2)) == be16(s[0], s[1]) + words_sum(s.take(i + 2).skip(2)));
        assert(words_sum(s.take(i)) == be16(s[0], s[1]) + words_sum(s.take(i).skip(2)));
        assert(t[i - 2] == s[i] && t[i - 1] == s[i + 1]);
    }
}

proof fn lemma_words_sum_odd_tail(s: Seq<u8>)
    requires
        s.len() % 2 == 1,
    ensures
        words_sum(s) == words_sum(s.take(s.len() - 1)),
    decreases s.len(),
{
    if s.len() >= 3 {
        lemma_words_sum_odd_tail(s.skip(2));
        assert(s.take(s.len() - 1).skip(2) =~= s.skip(2).take(s.skip(2).len() - 1));
    }
}

/// The sum of the words of `s` up to the even index `upto`, in `u32`.
fn sum_words(s: &[u8], upto: usize, start: u32) -> (r: u32)
    requires
        upto <= s@.len(),
        upto % 2 == 0,
        start + words_sum(s@.take(upto as int)) <= u32::MAX,
    ensures
        r == start + words_sum(s@.take(upto as int)),
{
    let mut sum = start;
    let mut i: usize = 0;
    while i < upto
        invariant
            upto <= s@.len(),
            upto % 2 == 0,
            i % 2 == 0,
            i <= upto,
            start + words_sum(s@.take(upto as int)) <= u32::MAX,
            sum == start + words_sum(s@.take(i as int)),
        decreases upto - i,
    {
        proof {
            lemma_words_sum_step(s@, i as int);
            lemma_words_sum_monotone(s@, i + 2, upto as int);
        }
        sum = sum + read_be16(s, i) as u32;
        i = i + 2;
    }
    sum
}

proof fn lemma_words_sum_monotone(s: Seq<u8>, i: int, j: int)
    requires
        0 <= i <= j <= s.len(),
        i % 2 == 0,
        j % 2 == 0,
    ensures
        words_sum(s.take(i)) <= words_sum(s.take(j)),
    decreases j - i,
{
    if i < j {
        lemma_words_sum_step(s, j - 2);
        lemma_words_sum_monotone(s, i, j - 2);
    }
}

// ---------------------------------------------------------------------------
// IPv4
// ---------------------------------------------------------------------------

/// A parsed IPv4 packet.
#[derive(Debug)]
pub struct Ipv4Packet {
    /// IP version, 4.
    pub version: u8,
    /// Header length in bytes.
    pub ihl: u8,
    /// Type of service.
    pub tos: u8,
    /// Length of the packet in bytes.
    pub total_length: u16,
    /// Identification, for reassembling fragments.
    pub identification: u16,
    /// The three flag bits.
    pub flags: u8,
    /// Offset of this fragment in the datagram.
    pub fragment_offset: u16,
    /// Time to live.
    pub ttl: u8,
    /// Protocol number of the payload (6 for TCP).
    pub protocol: u8,
    /// Header checksum as received.
    pub header_checksum: u16,
    /// Source address octets.
    pub source: [u8; 4],
    /// Destination address octets.
    pub destination: [u8; 4],
    /// Header options.
    pub options: Vec<u8>,
    /// Payload.
    pub payload: Vec<u8>,
}

/// The header length in bytes that the first octet of an IPv4 packet gives.
pub open spec fn ipv4_ihl(s: Seq<u8>) -> nat {
    ((s[0] % 16) * 4) as nat
}

/// The total length field of an IPv4 header.
pub open spec fn ipv4_total_length(s: Seq<u8>) -> nat {
    be16(s[2], s[3])
}

/// Whether `s` is taken for an IPv4 packet: twenty bytes at least, version
/// 4, and at least as long as its header length.
pub open spec fn ipv4_accepts(s: Seq<u8>) -> bool {
    s.len() >= 20 && s[0] / 16 == 4 && s.len() >= ipv4_ihl(s)
}

/// Whether parsing `s` would read past its end: a header that claims a
/// total length beyond the bytes given (and beyond the header).
pub open spec fn ipv4_parse_overruns(s: Seq<u8>) -> bool {
    ipv4_accepts(s) && ipv4_total_length(s) > ipv4_ihl(s) && ipv4_total_length(s) > s.len()
}

/// The fields of `p` are those the bytes `s` give.
pub open spec fn ipv4_fields_of(p: Ipv4Packet, s: Seq<u8>) -> bool {
    let ihl = ipv4_ihl(s);
    let total = ipv4_total_length(s);
    &&& p.version == 4
    &&& p.ihl == ihl
    &&& p.tos == s[1]
    &&& p.total_length == total
    &&& p.identification == be16(s[4], s[5])
    &&& p.flags == s[6] / 32
    &&& p.fragment_offset == be16(s[6], s[7]) % 0x2000
    &&& p.ttl == s[8]
    &&& p.protocol == s[9]
    &&& p.header_checksum == be16(s[10], s[11])
    &&& p.source@ == s.subrange(12, 16)
    &&& p.destination@ == s.subrange(16, 20)
    &&& p.options@ == if ihl > 20 {
        s.subrange(20, ihl as int)
    } else {
        Seq::empty()
    }
    &&& p.payload@ == if total > ihl {
        s.subrange(ihl as int, total as int)
    } else {
        Seq::empty()
    }
}

/// The IPv4 header checksum this stack writes: the wrapping sum of the
/// 16-bit words of the whole packet with the checksum field zeroed.
pub open spec fn ipv4_checksum(s: Seq<u8>) -> u16 {
    (words_sum(s.update(10, 0).update(11, 0)) % 0x1_0000) as u16
}

/// The IPv4 packet [`Ipv4Packet::create`] builds, before its checksum.
pub open spec fn ipv4_unchecked_bytes(
    source: Seq<u8>,
    destination: Seq<u8>,
    protocol: u8,
    ttl: u8,
    payload: Seq<u8>,
) -> Seq<u8> {
    seq![0x45u8, 0] + be16_bytes((20 + payload.len()) as u16) + seq![0u8, 0, 0, 0, ttl, protocol, 0, 0]
        + source + destination + payload
}

/// The IPv4 packet [`Ipv4Packet::create`] builds.
pub open spec fn ipv4_packet_bytes(
    source: Seq<u8>,
    destination: Seq<u8>,
    protocol: u8,
    ttl: u8,
    payload: Seq<u8>,
) -> Seq<u8> {
    let s = ipv4_unchecked_bytes(source, destination, protocol, ttl, payload);
    let c = ipv4_checksum(s);
    s.update(10, (c / 0x100) as u8).update(11, (c % 0x100) as u8)
}

impl Ipv4Packet {
    /// Parses an IPv4 packet; `None` when it is too short, not version 4, or
    /// shorter than its header length.
    pub fn parse(packet: &[u8]) -> (r: Option<Ipv4Packet>)
        requires
            !ipv4_parse_overruns(packet@),
        ensures
            match r {
                Some(p) => ipv4_accepts(packet@) && ipv4_fields_of(p, packet@),
                None => !ipv4_accepts(packet@),
            },
    {
        if packet.len() < 20 {
            return None;
        }
        let version_ihl = packet[0];
        let version = version_ihl / 16;
        let ihl = (version_ihl % 16) * 4;
        if version != 4 || packet.len() < ihl as usize {
            return None;
        }
        let tos = packet[1];
        let total_length = read_be16(packet, 2);
        let identification = read_be16(packet, 4);
        let flags_fragment = read_be16(packet, 6);
        let flags = (flags_fragment / 0x2000) as u8;
        let fragment_offset = flags_fragment % 0x2000;
        let ttl = packet[8];
        let protocol = packet[9];
        let header_checksum = read_be16(packet, 10);
        let source: [u8; 4] = [packet[12], packet[13], packet[14], packet[15]];
        let destination: [u8; 4] = [packet[16], packet[17], packet[18], packet[19]];
        assert(source@ =~= packet@.subrange(12, 16));
        assert(destination@ =~= packet@.subrange(16, 20));
        let options_end = ihl as usize;
        let options = if options_end > 20 {
            copy_range(packet, 20, options_end)
        } else {
            Vec::new()
        };
        let payload = if total_length as usize > options_end {
            copy_range(packet, options_end, total_length as usize)
        } else {
            Vec::new()
        };
        Some(
            Ipv4Packet {
                version,
                ihl,
                tos,
                total_length,
                identification,
                flags,
                fragment_offset,
                ttl,
                protocol,
                header_checksum,
                source,
                destination,
                options,
                payload,
            },
        )
    }

    /// Builds an IPv4 packet with a twenty-byte header around `payload`.
    pub fn create(
        source: [u8; 4],
        destination: [u8; 4],
        protocol: ProtocolNumber,
        ttl: u8,
        payload: &[u8],
    ) -> (r: Vec<u8>)
        requires
            20 + payload@.len() <= u16::MAX,
        ensures
            r@ == ipv4_packet_bytes(source@, destination@, 6, ttl, payload@),
    {
        let total_length = (20 + payload.len()) as u16;
        let mut packet: Vec<u8> = Vec::new();
        packet.push(0x45);
        packet.push(0);
        push_be16(&mut packet, total_length);
        packet.push(0);
        packet.push(0);
        packet.push(0);
        packet.push(0);
        packet.push(ttl);
        packet.push(protocol.number());
        packet.push(0);
        packet.push(0);
        append_bytes(&mut packet, &source);
        append_bytes(&mut packet, &destination);
        append_bytes(&mut packet, payload);
        assert(packet@ =~= ipv4_unchecked_bytes(source@, destination@, 6, ttl, payload@));
        Self::apply_checksum(&mut packet);
        packet
    }

    /// Writes the header checksum: the wrapping sum of the packet's 16-bit
    /// words with the checksum field zeroed.
    fn apply_checksum(packet: &mut Vec<u8>)
        requires
            old(packet)@.len() >= 20,
        ensures
            final(packet)@ == old(packet)@.update(10, (ipv4_checksum(old(packet)@) / 0x100) as u8).update(
                11,
                (ipv4_checksum(old(packet)@) % 0x100) as u8,
            ),
    {
        let ghost orig = packet@;
        packet.set(10, 0);
        packet.set(11, 0);
        let ghost zeroed = packet@;
        assert(zeroed =~= orig.update(10, 0).update(11, 0));
        let n = packet.len() / 2;
        let mut checksum: u16 = 0;
        let mut i: usize = 0;
        while i < n
            invariant
                n == packet.len() / 2,
                packet@ == zeroed,
                i <= n,
                checksum == words_sum(zeroed.take(2 * i as int)) % 0x1_0000,
            decreases n - i,
        {
            proof {
                lemma_words_sum_step(zeroed, 2 * i as int);
            }
            let word = read_be16(packet.as_slice(), i * 2);
            checksum = checksum.wrapping_add(word);
            i = i + 1;
            assert(2 * i as int == 2 * (i - 1) + 2);
        }
        proof {
            if zeroed.len() % 2 == 1 {
                lemma_words_sum_odd_tail(zeroed);
            }
            assert(zeroed.take(2 * n as int) =~= if zeroed.len() % 2 == 1 {
                zeroed.take(zeroed.len() - 1)
            } else {
                zeroed
            });
        }
        packet.set(10, (checksum / 0x100) as u8);
        packet.set(11, (checksum % 0x100) as u8);
    }
}

// ---------------------------------------------------------------------------
// IPv6
// ---------------------------------------------------------------------------

/// A parsed IPv6 packet.
#[derive(Debug)]
pub struct Ipv6Packet {
    /// IP version, 6.
    pub version: u8,
    /// Traffic class.
    pub traffic_class: u8,
    /// Flow label (20 bits).
    pub flow_label: u32,
    /// Length of the payload in bytes.
    pub payload_length: u16,
    /// Protocol number of the payload.
    pub next_header: u8,
    /// Hop limit.
    pub hop_limit: u8,
    /// Source address octets.
    pub source: [u8; 16],
    /// Destination address octets.
    pub destination: [u8; 16],
    /// Payload.
    pub payload: Vec<u8>,
}

/// The outcome of parsing an IP packet from a buffer that may hold a partial
/// packet.
#[derive(Debug)]
pub enum IpParseError<T> {
    /// A whole packet, and how many bytes of the buffer it took.
    Complete { packet: T, bytes_consumed: usize },
    /// The buffer holds only part of a packet.
    NotEnough,
    /// The buffer does not start with a packet of this kind.
    Invalid,
}

/// The fields of `p` are those of the IPv6 packet at the start of `s`.
pub open spec fn ipv6_fields_of(p: Ipv6Packet, s: Seq<u8>) -> bool {
    let len = be16(s[4], s[5]);
    &&& p.version == 6
    &&& p.traffic_class == (s[0] % 16) * 16 + s[1] / 16
    &&& p.flow_label == (s[1] % 16) as nat * 0x1_0000 + s[2] as nat * 0x100 + s[3] as nat
    &&& p.payload_length == len
    &&& p.next_header == s[6]
    &&& p.hop_limit == s[7]
    &&& p.source@ == s.subrange(8, 24)
    &&& p.destination@ == s.subrange(24, 40)
    &&& p.payload@ == s.subrange(40, 40 + len as int)
}

/// The IPv6 packet [`Ipv6Packet::create`] builds: the payload length field
/// holds the payload's length modulo 2^16.
pub open spec fn ipv6_packet_bytes(
    source: Seq<u8>,
    destination: Seq<u8>,
    next_header: u8,
    hop_limit: u8,
    payload: Seq<u8>,
) -> Seq<u8> {
    seq![0x60u8, 0, 0, 0] + be16_bytes((payload.len() % 0x1_0000) as u16) + seq![
        next_header,
        hop_limit,
    ] + source + destination + payload
}

impl Ipv6Packet {
    /// Parses the IPv6 packet at the start of `packet`.
    pub fn parse(packet: &[u8]) -> (r: IpParseError<Ipv6Packet>)
        ensures
            packet@.len() < 40 ==> r is NotEnough,
            packet@.len() >= 40 && packet@[0] / 16 != 6 ==> r is Invalid,
            packet@.len() >= 40 && packet@[0] / 16 == 6 ==> {
                let total = 40 + be16(packet@[4], packet@[5]);
                if packet@.len() < total {
                    r is NotEnough
                } else {
                    r matches IpParseError::Complete { packet: p, bytes_consumed } && bytes_consumed
                        == total && ipv6_fields_of(p, packet@)
                }
            },
    {
        if packet.len() < 40 {
            return IpParseError::NotEnough;
        }
        let version = packet[0] / 16;
        if version != 6 {
            return IpParseError::Invalid;
        }
        let traffic_class = (packet[0] % 16) * 16 + packet[1] / 16;
        let flow_label = ((packet[1] % 16) as u32) * 0x1_0000 + (packet[2] as u32) * 0x100
            + packet[3] as u32;
        let payload_length = read_be16(packet, 4);
        let total_packet_len = 40 + payload_length as usize;
        if packet.len() < total_packet_len {
            return IpParseError::NotEnough;
        }
        let next_header = packet[6];
        let hop_limit = packet[7];
        let mut source = [0u8; 16];
        let mut destination = [0u8; 16];
        let mut k: usize = 0;
        while k < 16
            invariant
                k <= 16,
                packet@.len() >= 40,
                forall|j: int| 0 <= j < k ==> (#[trigger] source@[j]) == packet@[8 + j],
                forall|j: int| 0 <= j < k ==> (#[trigger] destination@[j]) == packet@[24 + j],
            decreases 16 - k,
        {
            source[k] = packet[8 + k];
            destination[k] = packet[24 + k];
            k = k + 1;
        }
        assert(source@ =~= packet@.subrange(8, 24));
        assert(destination@ =~= packet@.subrange(24, 40));
        let payload = copy_range(packet, 40, total_packet_len);
        IpParseError::Complete {
            packet: Ipv6Packet {
                version,
                traffic_class,
                flow_label,
                payload_length,
                next_header,
                hop_limit,
                source,
                destination,
                payload,
            },
            bytes_consumed: total_packet_len,
        }
    }

    /// Builds an IPv6 packet around `payload`.
    pub fn create(
        source: [u8; 16],
        destination: [u8; 16],
        next_header: ProtocolNumber,
        hop_limit: u8,
        payload: &[u8],
    ) -> (r: Vec<u8>)
        requires
            40 + payload@.len() <= usize::MAX,
        ensures
            r@ == ipv6_packet_bytes(source@, destination@, 6, hop_limit, payload@),
    {
        let mut packet: Vec<u8> = Vec::new();
        packet.push(0x60);
        packet.push(0);
        packet.push(0);
        packet.push(0);
        push_be16(&mut packet, (payload.len() % 0x1_0000) as u16);
        packet.push(next_header.number());
        packet.push(hop_limit);
        append_bytes(&mut packet, &source);
        append_bytes(&mut packet, &destination);
        append_bytes(&mut packet, payload);
        assert(packet@ =~= ipv6_packet_bytes(source@, destination@, 6, hop_limit, payload@));
        packet
    }
}

// ---------------------------------------------------------------------------
// TCP
// ---------------------------------------------------------------------------

/// TCP header flags.
#[derive(Debug, Default, Clone, Copy, PartialEq, Eq, Structural)]
pub struct TcpFlags {
    /// Urgent pointer flag.
    pub urg: bool,
    /// Acknowledgment flag.
    pub ack: bool,
    /// Push flag.
    pub psh: bool,
    /// Reset flag.
    pub rst: bool,
    /// Synchronize flag.
    pub syn: bool,
    /// Finish flag.
    pub fin: bool,
}

/// The flags a flags byte holds: URG is bit 5, ACK bit 4, PSH bit 3, RST
/// bit 2, SYN bit 1, FIN bit 0.
pub open spec fn tcp_flags_of(b: u8) -> TcpFlags {
    TcpFlags {
        urg: (b / 32) % 2 == 1,
        ack: (b / 16) % 2 == 1,
        psh: (b / 8) % 2 == 1,
        rst: (b / 4) % 2 == 1,
        syn: (b / 2) % 2 == 1,
        fin: b % 2 == 1,
    }
}

/// The flags byte of a set of flags.
pub open spec fn tcp_flags_byte(f: TcpFlags) -> u8 {
    ((if f.urg { 32int } else { 0 }) + (if f.ack { 16int } else { 0 }) + (if f.psh { 8int } else { 0 })
        + (if f.rst { 4int } else { 0 }) + (if f.syn { 2int } else { 0 }) + (if f.fin { 1int } else { 0 })) as u8
}

impl TcpFlags {
    /// Reads the flags from a raw flags byte.
    pub fn from_byte(flags: u8) -> (r: TcpFlags)
        ensures
            r == tcp_flags_of(flags),
    {
        proof {
            assert((flags & 0x20 != 0) == ((flags / 32) % 2 == 1)) by (bit_vector);
            assert((flags & 0x10 != 0) == ((flags / 16) % 2 == 1)) by (bit_vector);
            assert((flags & 0x08 != 0) == ((flags / 8) % 2 == 1)) by (bit_vector);
            assert((flags & 0x04 != 0) == ((flags / 4) % 2 == 1)) by (bit_vector);
            assert((flags & 0x02 != 0) == ((flags / 2) % 2 == 1)) by (bit_vector);
            assert((flags & 0x01 != 0) == (flags % 2 == 1)) by (bit_vector);
        }
        TcpFlags {
            urg: (flags & 0x20) != 0,
            ack: (flags & 0x10) != 0,
            psh: (flags & 0x08) != 0,
            rst: (flags & 0x04) != 0,
            syn: (flags & 0x02) != 0,
            fin: (flags & 0x01) != 0,
        }
    }

    /// Packs the flags into a raw flags byte.
    pub fn to_byte(&self) -> (r: u8)
        ensures
            r == tcp_flags_byte(*self),
    {
        let mut flags: u8 = 0;
        if self.urg {
            flags = flags + 0x20;
        }
        if self.ack {
            flags = flags + 0x10;
        }
        if self.psh {
            flags = flags + 0x08;
        }
        if self.rst {
            flags = flags + 0x04;
        }
        if self.syn {
            flags = flags + 0x02;
        }
        if self.fin {
            flags = flags + 0x01;
        }
        flags
    }
}

/// Law: packing flags into a byte and reading them back gives the flags.
pub proof fn law_tcp_flags_roundtrip(f: TcpFlags)
    ensures
        tcp_flags_of(tcp_flags_byte(f)) == f,
{
}

/// Law: reading flags from a byte and packing them again keeps exactly the
/// byte's six low bits.
pub proof fn law_tcp_flags_keep_low_bits(b: u8)
    ensures
        tcp_flags_byte(tcp_flags_of(b)) == b % 64,
{
    assert(b % 64 == 32 * ((b / 32) % 2) + 16 * ((b / 16) % 2) + 8 * ((b / 8) % 2) + 4 * ((b / 4)
        % 2) + 2 * ((b / 2) % 2) + b % 2) by (bit_vector);
}

/// A parsed TCP segment.
#[derive(Debug)]
pub struct TcpPacket {
    /// Source port.
    pub source_port: u16,
    /// Destination port.
    pub destination_port: u16,
    /// Sequence number.
    pub sequence_number: u32,
    /// Acknowledgment number.
    pub acknowledgment_number: u32,
    /// Header length in bytes.
    pub data_offset: u8,
    /// Flags.
    pub flags: TcpFlags,
    /// Window size.
    pub window_size: u16,
    /// Checksum as received.
    pub checksum: u16,
    /// Urgent pointer.
    pub urgent_pointer: u16,
    /// Options (not kept: always empty).
    pub options: Vec<u8>,
    /// Payload.
    pub payload: Vec<u8>,
}

/// An IP address, as the octets of an IPv4 or an IPv6 address.
#[derive(Debug, Clone, Copy, PartialEq, Eq)]
pub enum IpAddress {
    /// An IPv4 address.
    V4([u8; 4]),
    /// An IPv6 address.
    V6([u8; 16]),
}

/// The fields of `p` are those of the TCP segment `s`.
pub open spec fn tcp_fields_of(p: TcpPacket, s: Seq<u8>) -> bool {
    let off = (s[12] / 16) * 4;
    &&& p.source_port == be16(s[0], s[1])
    &&& p.destination_port == be16(s[2], s[3])
    &&& p.sequence_number == be32(s, 4)
    &&& p.acknowledgment_number == be32(s, 8)
    &&& p.data_offset == off
    &&& p.flags == tcp_flags_of(s[13])
    &&& p.window_size == be16(s[14], s[15])
    &&& p.checksum == be16(s[16], s[17])
    &&& p.urgent_pointer == be16(s[18], s[19])
    &&& p.options@ == Seq::<u8>::empty()
    &&& p.payload@ == if s.len() > off {
        s.subrange(off as int, s.len() as int)
    } else {
        Seq::empty()
    }
}

/// The segment [`TcpPacket::create`] builds, before its checksum: a
/// twenty-byte header without options, then the payload.
pub open spec fn tcp_unchecked_bytes(
    source_port: u16,
    destination_port: u16,
    sequence_number: u32,
    acknowledgment_number: u32,
    flags: TcpFlags,
    window_size: u16,
    payload: Seq<u8>,
) -> Seq<u8> {
    be16_bytes(source_port) + be16_bytes(destination_port) + be32_bytes(sequence_number)
        + be32_bytes(acknowledgment_number) + seq![0x50u8, tcp_flags_byte(flags)] + be16_bytes(
        window_size,
    ) + seq![0u8, 0, 0, 0] + payload
}

/// The pseudo-header part of the checksum sum: the address words, the
/// protocol number and the segment length (as a 32-bit value; for IPv6 its
/// two halves).
pub open spec fn pseudo_header_sum(source: Seq<u8>, destination: Seq<u8>, len: nat, is_ipv6: bool) -> nat {
    let l = len % 0x1_0000_0000;
    words_sum(source) + words_sum(destination) + if is_ipv6 {
        l / 0x1_0000 + l % 0x1_0000 + 6
    } else {
        6 + l
    }
}

/// The unfolded checksum sum of a segment: the pseudo-header and the
/// segment's words with its checksum field zeroed.
pub open spec fn tcp_checksum_sum(segment: Seq<u8>, source: Seq<u8>, destination: Seq<u8>, is_ipv6: bool) -> nat {
    pseudo_header_sum(source, destination, segment.len(), is_ipv6) + padded_words_sum(
        if segment.len() >= 18 {
            segment.update(16, 0).update(17, 0)
        } else {
            segment
        },
    )
}

/// Folds the carries of a sum back into its low sixteen bits.
pub open spec fn fold16(x: nat) -> nat
    decreases x,
{
    if x < 0x1_0000 {
        x
    } else {
        proof {
            assert(x % 0x1_0000 + x / 0x1_0000 < x) by (nonlinear_arith)
                requires
                    x >= 0x1_0000,
            ;
        }
        fold16(x % 0x1_0000 + x / 0x1_0000)
    }
}

/// The TCP checksum: the one's complement of the folded sum.
pub open spec fn tcp_checksum(segment: Seq<u8>, source: Seq<u8>, destination: Seq<u8>, is_ipv6: bool) -> u16 {
    (0xFFFF - fold16(tcp_checksum_sum(segment, source, destination, is_ipv6))) as u16
}

/// The octets of an address, and whether it is IPv6.
pub open spec fn ip_octets(a: IpAddress) -> (Seq<u8>, bool) {
    match a {
        IpAddress::V4(o) => (o@, false),
        IpAddress::V6(o) => (o@, true),
    }
}

/// The segment [`TcpPacket::create`] builds.
pub open spec fn tcp_packet_bytes(
    source_ip: IpAddress,
    destination_ip: IpAddress,
    source_port: u16,
    destination_port: u16,
    sequence_number: u32,
    acknowledgment_number: u32,
    flags: TcpFlags,
    window_size: u16,
    payload: Seq<u8>,
) -> Seq<u8> {
    let s = tcp_unchecked_bytes(
        source_port,
        destination_port,
        sequence_number,
        acknowledgment_number,
        flags,
        window_size,
        payload,
    );
    let c = tcp_checksum(s, ip_octets(source_ip).0, ip_octets(destination_ip).0, ip_octets(source_ip).1);
    s.update(16, (c / 0x100) as u8).update(17, (c % 0x100) as u8)
}

proof fn lemma_words_sum_even_take(s: Seq<u8>)
    requires
        s.len() % 2 == 0,
    ensures
        s.take(s.len() as int) == s,
{
    assert(s.take(s.len() as int) =~= s);
}

impl TcpPacket {
    /// Parses a TCP segment; fails when it is shorter than twenty bytes.
    pub fn parse(packet: &[u8]) -> (r: Result<TcpPacket, IdeviceError>)
        ensures
            match r {
                Ok(p) => packet@.len() >= 20 && tcp_fields_of(p, packet@),
                Err(e) => packet@.len() < 20 && (e matches IdeviceError::NotEnoughBytes(have, need)
                    && have == packet@.len() && need == 20),
            },
    {
        if packet.len() < 20 {
            return Err(IdeviceError::NotEnoughBytes(packet.len(), 20));
        }
        let source_port = read_be16(packet, 0);
        let destination_port = read_be16(packet, 2);
        let sequence_number = read_be32(packet, 4);
        let acknowledgment_number = read_be32(packet, 8);
        let data_offset = (packet[12] / 16) * 4;
        let flags = TcpFlags::from_byte(packet[13]);
        let window_size = read_be16(packet, 14);
        let checksum = read_be16(packet, 16);
        let urgent_pointer = read_be16(packet, 18);
        let options_end = data_offset as usize;
        let payload = if packet.len() > options_end {
            copy_range(packet, options_end, packet.len())
        } else {
            Vec::new()
        };
        Ok(
            TcpPacket {
                source_port,
                destination_port,
                sequence_number,
                acknowledgment_number,
                data_offset,
                flags,
                window_size,
                checksum,
                urgent_pointer,
                options: Vec::new(),
                payload,
            },
        )
    }

    /// Builds a TCP segment (header without options, then `payload`) with its
    /// checksum over the pseudo-header of the two addresses.
    ///
    /// The two addresses must be of the same IP version.
    #[verifier::rlimit(30)]
    pub fn create(
        source_ip: IpAddress,
        destination_ip: IpAddress,
        source_port: u16,
        destination_port: u16,
        sequence_number: u32,
        acknowledgment_number: u32,
        flags: TcpFlags,
        window_size: u16,
        payload: &[u8],
    ) -> (r: Vec<u8>)
        requires
            ip_octets(source_ip).1 == ip_octets(destination_ip).1,
            20 + payload@.len() <= usize::MAX,
            tcp_checksum_sum(
                tcp_unchecked_bytes(
                    source_port,
                    destination_port,
                    sequence_number,
                    acknowledgment_number,
                    flags,
                    window_size,
                    payload@,
                ),
                ip_octets(source_ip).0,
                ip_octets(destination_ip).0,
                ip_octets(source_ip).1,
            ) <= u32::MAX,
        ensures
            r@ == tcp_packet_bytes(
                source_ip,
                destination_ip,
                source_port,
                destination_port,
                sequence_number,
                acknowledgment_number,
                flags,
                window_size,
                payload@,
            ),
    {
        let mut packet: Vec<u8> = Vec::new();
        push_be16(&mut packet, source_port);
        push_be16(&mut packet, destination_port);
        push_be32(&mut packet, sequence_number);
        push_be32(&mut packet, acknowledgment_number);
        packet.push(0x50);
        packet.push(flags.to_byte());
        push_be16(&mut packet, window_size);
        packet.push(0);
        packet.push(0);
        packet.push(0);
        packet.push(0);
        append_bytes(&mut packet, payload);
        assert(packet@ =~= tcp_unchecked_bytes(
            source_port,
            destination_port,
            sequence_number,
            acknowledgment_number,
            flags,
            window_size,
            payload@,
        ));
        let checksum = match (source_ip, destination_ip) {
            (IpAddress::V4(src), IpAddress::V4(dest)) => Self::calculate_checksum(
                packet.as_slice(),
                &src,
                &dest,
                false,
            ),
            (IpAddress::V6(src), IpAddress::V6(dest)) => Self::calculate_checksum(
                packet.as_slice(),
                &src,
                &dest,
                true,
            ),
            _ => {
                proof {
                    assert(false);
                }
                0
            },
        };
        packet.set(16, (checksum / 0x100) as u8);
        packet.set(17, (checksum % 0x100) as u8);
        packet
    }

    /// The TCP checksum of `packet` under the pseudo-header of the two
    /// addresses.
    fn calculate_checksum(packet: &[u8], source_ip: &[u8], destination_ip: &[u8], is_ipv6: bool) -> (r: u16)
        requires
            source_ip@.len() % 2 == 0,
            destination_ip@.len() % 2 == 0,
            tcp_checksum_sum(packet@, source_ip@, destination_ip@, is_ipv6) <= u32::MAX,
        ensures
            r == tcp_checksum(packet@, source_ip@, destination_ip@, is_ipv6),
    {
        let ghost zeroed = if packet@.len() >= 18 {
            packet@.update(16, 0).update(17, 0)
        } else {
            packet@
        };
        let ghost total = tcp_checksum_sum(packet@, source_ip@, destination_ip@, is_ipv6);
        proof {
            lemma_words_sum_even_take(source_ip@);
            lemma_words_sum_even_take(destination_ip@);
        }
        let mut sum: u32 = sum_words(source_ip, source_ip.len(), 0);
        sum = sum_words(destination_ip, destination_ip.len(), sum);
        let tcp_length = ((packet.len() as u64) % 0x1_0000_0000) as u32;
        if is_ipv6 {
            sum = sum + tcp_length / 0x1_0000;
            sum = sum + tcp_length % 0x1_0000;
            sum = sum + 6;
        } else {
            sum = sum + 6;
            sum = sum + tcp_length;
        }
        let mut packet_copy = slice_to_vec(packet);
        if packet_copy.len() >= 18 {
            packet_copy.set(16, 0);
            packet_copy.set(17, 0);
        }
        assert(packet_copy@ =~= zeroed);
        let even = packet_copy.len() - packet_copy.len() % 2;
        proof {
            if zeroed.len() % 2 == 1 {
                lemma_words_sum_odd_tail(zeroed);
            } else {
                lemma_words_sum_even_take(zeroed);
            }
            assert(zeroed.take(even as int) =~= if zeroed.len() % 2 == 1 {
                zeroed.take(zeroed.len() - 1)
            } else {
                zeroed
            });
        }
        sum = sum_words(packet_copy.as_slice(), even, sum);
        if packet_copy.len() % 2 == 1 {
            sum = sum + (packet_copy[packet_copy.len() - 1] as u32) * 0x100;
        }
        assert(sum == total);
        while sum / 0x1_0000 != 0
            invariant
                fold16(sum as nat) == fold16(total),
            decreases sum,
        {
            sum = (sum % 0x1_0000) + (sum / 0x1_0000);
        }
        0xFFFF - (sum as u16)
    }
}

pub proof fn lemma_be16_roundtrip(x: u16)
    ensures
        be16(be16_bytes(x)[0], be16_bytes(x)[1]) == x,
{
}

pub proof fn lemma_be32_roundtrip(x: u32)
    ensures
        be32(be32_bytes(x), 0) == x,
{
}

/// Law: an IPv4 packet that this stack builds parses back to the addresses,
/// protocol, time to live and payload it was built from, with a twenty-byte
/// header and no options.
pub proof fn law_ipv4_create_then_parse(
    source: [u8; 4],
    destination: [u8; 4],
    ttl: u8,
    payload: Seq<u8>,
)
    requires
        20 + payload.len() <= u16::MAX,
    ensures
        ({
            let s = ipv4_packet_bytes(source@, destination@, 6, ttl, payload);
            &&& ipv4_accepts(s)
            &&& !ipv4_parse_overruns(s)
            &&& ipv4_ihl(s) == 20
            &&& ipv4_total_length(s) == 20 + payload.len()
            &&& s[8] == ttl
            &&& s[9] == 6
            &&& s.subrange(12, 16) == source@
            &&& s.subrange(16, 20) == destination@
            &&& s.subrange(20, 20 + payload.len() as int) == payload
        }),
{
    let s = ipv4_packet_bytes(source@, destination@, 6, ttl, payload);
    let u = ipv4_unchecked_bytes(source@, destination@, 6, ttl, payload);
    assert(s.subrange(12, 16) =~= source@);
    assert(s.subrange(16, 20) =~= destination@);
    assert(s.subrange(20, 20 + payload.len() as int) =~= payload);
    assert(s[2] == u[2] && s[3] == u[3]);
}

/// Law: an IPv6 packet that this stack builds parses back, whole, to the
/// addresses, next header, hop limit and payload it was built from.
pub proof fn law_ipv6_create_then_parse(
    source: [u8; 16],
    destination: [u8; 16],
    hop_limit: u8,
    payload: Seq<u8>,
)
    requires
        payload.len() <= u16::MAX,
    ensures
        ({
            let s = ipv6_packet_bytes(source@, destination@, 6, hop_limit, payload);
            &&& s.len() >= 40
            &&& s[0] / 16 == 6
            &&& 40 + be16(s[4], s[5]) == s.len()
            &&& s[6] == 6
            &&& s[7] == hop_limit
            &&& s.subrange(8, 24) == source@
            &&& s.subrange(24, 40) == destination@
            &&& s.subrange(40, s.len() as int) == payload
        }),
{
    let s = ipv6_packet_bytes(source@, destination@, 6, hop_limit, payload);
    assert(s.subrange(8, 24) =~= source@);
    assert(s.subrange(24, 40) =~= destination@);
    assert(s.subrange(40, s.len() as int) =~= payload);
}

/// Law: a TCP segment that this stack builds parses back to the ports,
/// sequence and acknowledgment numbers, flags, window and payload it was
/// built from, with a twenty-byte header.
pub proof fn law_tcp_create_then_parse(
    source_ip: IpAddress,
    destination_ip: IpAddress,
    source_port: u16,
    destination_port: u16,
    sequence_number: u32,
    acknowledgment_number: u32,
    flags: TcpFlags,
    window_size: u16,
    payload: Seq<u8>,
)
    ensures
        ({
            let s = tcp_packet_bytes(
                source_ip,
                destination_ip,
                source_port,
                destination_port,
                sequence_number,
                acknowledgment_number,
                flags,
                window_size,
                payload,
            );
            &&& s.len() == 20 + payload.len()
            &&& be16(s[0], s[1]) == source_port
            &&& be16(s[2], s[3]) == destination_port
            &&& be32(s, 4) == sequence_number
            &&& be32(s, 8) == acknowledgment_number
            &&& (s[12] / 16) * 4 == 20
            &&& tcp_flags_of(s[13]) == flags
            &&& be16(s[14], s[15]) == window_size
            &&& s.subrange(20, s.len() as int) == payload
        }),
{
    let s = tcp_packet_bytes(
        source_ip,
        destination_ip,
        source_port,
        destination_port,
        sequence_number,
        acknowledgment_number,
        flags,
        window_size,
        payload,
    );
    let u = tcp_unchecked_bytes(
        source_port,
        destination_port,
        sequence_number,
        acknowledgment_number,
        flags,
        window_size,
        payload,
    );
    law_tcp_flags_roundtrip(flags);
    lemma_be16_roundtrip(source_port);
    lemma_be16_roundtrip(destination_port);
    lemma_be16_roundtrip(window_size);
    lemma_be32_roundtrip(sequence_number);
    lemma_be32_roundtrip(acknowledgment_number);
    assert(u.len() == 20 + payload.len());
    assert(forall|i: int| 0 <= i < 16 ==> s[i] == u[i]);
    assert(forall|i: int| 18 <= i < u.len() ==> s[i] == u[i]);
    assert(u[0] == be16_bytes(source_port)[0] && u[1] == be16_bytes(source_port)[1]);
    assert(u[2] == be16_bytes(destination_port)[0] && u[3] == be16_bytes(destination_port)[1]);
    assert(u.subrange(4, 8) =~= be32_bytes(sequence_number));
    assert(u.subrange(8, 12) =~= be32_bytes(acknowledgment_number));
    assert(u[12] == 0x50 && u[13] == tcp_flags_byte(flags));
    assert(u[14] == be16_bytes(window_size)[0] && u[15] == be16_bytes(window_size)[1]);
    assert(s.subrange(20, s.len() as int) =~= payload);
}

} // verus!
