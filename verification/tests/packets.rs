use idevice::tcp::packets::{
    IpAddress, IpParseError, Ipv4Packet, Ipv6Packet, ProtocolNumber, TcpFlags, TcpPacket,
};

fn v6(segments: [u16; 8]) -> [u8; 16] {
    let mut out = [0u8; 16];
    for (i, s) in segments.iter().enumerate() {
        out[2 * i] = (s >> 8) as u8;
        out[2 * i + 1] = (s & 0xff) as u8;
    }
    out
}

#[test]
fn ipv4() {
    let b1 = Ipv4Packet::create([127, 0, 0, 1], [1, 1, 1, 1], ProtocolNumber::Tcp, 255, &[1, 2, 3, 4, 5]);
    println!("{b1:02X?}");

    let ip1 = Ipv4Packet::parse(&b1);
    println!("{ip1:#?}");
}

#[test]
fn ipv6() {
    let b1 = Ipv6Packet::create(
        v6([1, 2, 3, 4, 5, 6, 7, 8]),
        v6([9, 10, 11, 12, 13, 14, 15, 16]),
        ProtocolNumber::Tcp,
        255,
        &[1, 2, 3, 4, 5],
    );
    println!("{b1:02X?}");

    let ip1 = Ipv6Packet::parse(&b1);
    println!("{ip1:#?}");
}

#[test]
fn tcp() {
    let b1 = TcpPacket::create(
        IpAddress::V4([1, 1, 1, 1]),
        IpAddress::V4([1, 1, 1, 1]),
        1234,
        5678,
        420,
        6969,
        TcpFlags {
            urg: false,
            ack: false,
            psh: true,
            rst: false,
            syn: false,
            fin: false,
        },
        5555,
        &[1, 2, 3, 4, 5],
    );
    let i1 = Ipv6Packet::create(
        v6([1, 2, 3, 4, 5, 6, 7, 8]),
        v6([9, 10, 11, 12, 13, 14, 15, 16]),
        ProtocolNumber::Tcp,
        255,
        &b1,
    );
    println!("{i1:02X?}");

    let t1 = TcpPacket::parse(&b1);
    println!("{t1:#?}");
}

#[test]
fn ipv4_create_bytes_and_parse_back() {
    let b = Ipv4Packet::create([127, 0, 0, 1], [1, 1, 1, 1], ProtocolNumber::Tcp, 255, &[1, 2, 3, 4, 5]);
    assert_eq!(
        b,
        vec![69, 0, 0, 25, 0, 0, 0, 0, 255, 6, 201, 40, 127, 0, 0, 1, 1, 1, 1, 1, 1, 2, 3, 4, 5]
    );
    let p = Ipv4Packet::parse(&b).unwrap();
    assert_eq!(p.version, 4);
    assert_eq!(p.ihl, 20);
    assert_eq!(p.total_length, 25);
    assert_eq!(p.ttl, 255);
    assert_eq!(p.protocol, 6);
    assert_eq!(p.source, [127, 0, 0, 1]);
    assert_eq!(p.destination, [1, 1, 1, 1]);
    assert_eq!(p.payload, vec![1, 2, 3, 4, 5]);
    assert!(p.options.is_empty());
}

#[test]
fn ipv4_parse_rejects_short_and_wrong_version() {
    assert!(Ipv4Packet::parse(&[0x45; 19]).is_none());
    let mut b = vec![0u8; 20];
    b[0] = 0x65;
    assert!(Ipv4Packet::parse(&b).is_none());
    b[0] = 0x46; // header of 24 bytes, longer than the packet
    assert!(Ipv4Packet::parse(&b).is_none());
}

#[test]
fn ipv6_parse_reports_partial_and_invalid() {
    assert!(matches!(Ipv6Packet::parse(&[0x60; 39]), IpParseError::NotEnough));
    let mut b = vec![0u8; 40];
    assert!(matches!(Ipv6Packet::parse(&b), IpParseError::Invalid));
    b[0] = 0x60;
    b[5] = 3;
    assert!(matches!(Ipv6Packet::parse(&b), IpParseError::NotEnough));
    b.extend_from_slice(&[7, 8, 9, 10]);
    match Ipv6Packet::parse(&b) {
        IpParseError::Complete { packet, bytes_consumed } => {
            assert_eq!(bytes_consumed, 43);
            assert_eq!(packet.payload, vec![7, 8, 9]);
        }
        other => panic!("unexpected {other:?}"),
    }
}

#[test]
fn tcp_create_checksum_and_parse_back() {
    let flags = TcpFlags { psh: true, ..TcpFlags::default() };
    let b = TcpPacket::create(
        IpAddress::V4([1, 1, 1, 1]),
        IpAddress::V4([1, 1, 1, 1]),
        1234,
        5678,
        420,
        6969,
        flags,
        5555,
        &[1, 2, 3, 4, 5],
    );
    assert_eq!(
        b,
        vec![4, 210, 22, 46, 0, 0, 1, 164, 0, 0, 27, 57, 80, 8, 21, 179, 85, 62, 0, 0, 1, 2, 3, 4, 5]
    );
    let p = TcpPacket::parse(&b).unwrap();
    assert_eq!(p.source_port, 1234);
    assert_eq!(p.destination_port, 5678);
    assert_eq!(p.sequence_number, 420);
    assert_eq!(p.acknowledgment_number, 6969);
    assert_eq!(p.data_offset, 20);
    assert_eq!(p.flags, flags);
    assert_eq!(p.window_size, 5555);
    assert_eq!(p.checksum, 0x553e);
    assert_eq!(p.payload, vec![1, 2, 3, 4, 5]);
}

#[test]
fn tcp_parse_rejects_short_segment() {
    assert!(TcpPacket::parse(&[0u8; 19]).is_err());
}

#[test]
fn tcp_flags_roundtrip() {
    for b in 0u8..=255 {
        let f = TcpFlags::from_byte(b);
        assert_eq!(f.to_byte(), b & 0x3f);
        assert_eq!(TcpFlags::from_byte(f.to_byte()), f);
    }
    assert!(TcpFlags::from_byte(0x12).syn && TcpFlags::from_byte(0x12).ack);
}
