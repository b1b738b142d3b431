use idevice::backup::device_link::{dl_message_tag, dl_step, DlAction, INITIAL_DL_PROGRESS};
use idevice::error::IdeviceError;
use idevice::os_trace::{parse_os_trace_record, LogLevel};
use idevice::pairing::tlv::{deserialize_tlv8, serialize_tlv8, PairingDataComponentType, TLV8Entry};
use idevice::pairing::verify::{
    verify_accepted, verify_device_public_key, verify_finish_data, verify_start_data, RpPairingFile,
};
use idevice::plist::{PlistDict, PlistValue};
use idevice::tcp::adapter::{
    process_segment, queue_send, take_write_buffer, try_recv, uncache, ConnectionFault,
    ConnectionState, ConnectionStatus, ReadOutcome, SegmentReply,
};
use idevice::tcp::packets::{IpAddress, TcpFlags, TcpPacket};
use idevice::usbmuxd::devices::{
    network_address_connection, Connection, DeviceListResponse, DevicePropertiesResponse,
};
use idevice::usbmuxd::errors::UsbmuxdError;
use idevice::usbmuxd::server::{UsbmuxdServerRequest, UsbmuxdServerResponse};

use base64::Engine;

fn dict(pairs: Vec<(&str, PlistValue)>) -> PlistDict {
    let mut d = PlistDict::new();
    for (k, v) in pairs {
        d.insert(k.to_string(), v);
    }
    d
}

fn s(x: &str) -> PlistValue {
    PlistValue::String(x.to_string())
}

fn b64(bytes: &[u8]) -> String {
    base64::engine::general_purpose::STANDARD.encode(bytes)
}

#[test]
fn dl_progress_and_actions() {
    let upload = PlistValue::Array(vec![s("DLMessageUploadFiles"), PlistValue::Integer(0), PlistValue::Real(0.5f64.to_bits())]);
    let (p, a) = dl_step(INITIAL_DL_PROGRESS, "DLMessageUploadFiles", &upload);
    assert_eq!(f64::from_bits(p), 0.5);
    assert!(matches!(a, DlAction::UploadFiles));
    let zero = PlistValue::Array(vec![s("DLMessageMoveItems"), s("a"), s("b"), PlistValue::Real(0.0f64.to_bits())]);
    let (p2, a2) = dl_step(p, "DLMessageMoveItems", &zero);
    assert_eq!(p2, p);
    assert!(matches!(a2, DlAction::MoveItems));
    let done = PlistValue::Array(vec![s("DLMessageProcessMessage"), PlistValue::Dictionary(dict(vec![("ErrorCode", PlistValue::Integer(0))]))]);
    match dl_step(p, "DLMessageProcessMessage", &done).1 {
        DlAction::Finish(Some(d)) => assert_eq!(d.get("ErrorCode").and_then(|v| v.as_unsigned_integer()), Some(0)),
        other => panic!("unexpected {other:?}"),
    }
    assert!(matches!(dl_step(p, "DLMessageDisconnect", &done).1, DlAction::Finish(None)));
    assert!(matches!(dl_step(p, "DLMessageSomething", &done).1, DlAction::Unsupported));
    assert_eq!(f64::from_bits(INITIAL_DL_PROGRESS), -1.0);
}

#[test]
fn dl_message_tags() {
    let m = PlistValue::Array(vec![s("DLMessageDisconnect"), s("bye")]);
    assert_eq!(dl_message_tag(&m).unwrap(), "DLMessageDisconnect");
    assert!(matches!(dl_message_tag(&PlistValue::Array(vec![])), Err(IdeviceError::UnexpectedResponse)));
    assert!(dl_message_tag(&s("x")).is_err());
}

#[test]
fn pairing_verification_messages() {
    let pairing = RpPairingFile::from_secrets([1; 32], [2; 32], "HOST-ID".to_string());
    let start = verify_start_data(&pairing);
    assert_eq!(start.len(), 52);
    assert!(start.starts_with("BgEBAy"));
    let decoded = base64::engine::general_purpose::STANDARD.decode(&start).unwrap();
    let entries = deserialize_tlv8(&decoded).unwrap();
    assert_eq!(entries.len(), 2);
    assert_eq!(entries[0].tlv_type, PairingDataComponentType::State);
    assert_eq!(entries[0].data, vec![1]);
    assert_eq!(entries[1].data, pairing.x_public_key.to_vec());

    let device = RpPairingFile::from_secrets([3; 32], [4; 32], "DEV".to_string());
    let reply = serialize_tlv8(&[
        TLV8Entry { tlv_type: PairingDataComponentType::State, data: vec![2] },
        TLV8Entry { tlv_type: PairingDataComponentType::PublicKey, data: device.x_public_key.to_vec() },
    ]);
    let key = verify_device_public_key(Some(&b64(&reply))).unwrap();
    assert_eq!(key, device.x_public_key);

    let finish = verify_finish_data(&pairing, &key);
    let fin = deserialize_tlv8(&base64::engine::general_purpose::STANDARD.decode(&finish).unwrap()).unwrap();
    assert_eq!(fin[0].data, vec![3]);
    assert_eq!(fin[1].tlv_type, PairingDataComponentType::EncryptedData);
    assert_eq!(fin[1].data.len(), 2 + "HOST-ID".len() + 2 + 64 + 16);
    assert_eq!(finish, verify_finish_data(&pairing, &key));
}

#[test]
fn pairing_reply_errors() {
    assert!(matches!(verify_device_public_key(None), Err(IdeviceError::UnexpectedResponse)));
    assert!(matches!(verify_device_public_key(Some("!!!")), Err(IdeviceError::Base64Decode)));
    assert!(matches!(verify_device_public_key(Some("BgE")), Err(IdeviceError::Base64Decode)));
    assert!(matches!(verify_device_public_key(Some("BgF=")), Err(IdeviceError::Base64Decode)));
    let short = serialize_tlv8(&[TLV8Entry { tlv_type: PairingDataComponentType::PublicKey, data: vec![1, 2] }]);
    assert!(matches!(verify_device_public_key(Some(&b64(&short))), Err(IdeviceError::NotEnoughBytes(32, 2))));
    let none = serialize_tlv8(&[TLV8Entry::m(2)]);
    assert!(matches!(verify_device_public_key(Some(&b64(&none))), Err(IdeviceError::UnexpectedResponse)));
    let rejected = serialize_tlv8(&[TLV8Entry::m(4), TLV8Entry { tlv_type: PairingDataComponentType::ErrorResponse, data: vec![2] }]);
    assert_eq!(verify_accepted(Some(&b64(&rejected))).unwrap(), false);
    assert_eq!(verify_accepted(Some(&b64(&none))).unwrap(), true);
}

#[test]
fn generated_pairing_has_uuid_identifier() {
    let p = RpPairingFile::generate();
    assert_eq!(p.identifier.len(), 36);
    let again = RpPairingFile::from_secrets(p.x_private_key, p.e_private_key, p.identifier.clone());
    assert_eq!(again.x_public_key, p.x_public_key);
    assert_eq!(again.e_public_key, p.e_public_key);
}

fn os_trace_record() -> Vec<u8> {
    let mut p = vec![0u8; 129];
    p[9..13].copy_from_slice(&1234u32.to_le_bytes());
    p[55..59].copy_from_slice(&1_700_000_000u32.to_le_bytes());
    p[63..67].copy_from_slice(&500u32.to_le_bytes());
    p[68] = 0x10;
    p[107..109].copy_from_slice(&4u16.to_le_bytes());
    p[109..111].copy_from_slice(&3u16.to_le_bytes());
    p[117..121].copy_from_slice(&3u32.to_le_bytes());
    p[121..125].copy_from_slice(&2u32.to_le_bytes());
    p.extend_from_slice(b"main.c\0");
    p.extend_from_slice(b"img\0");
    p.extend_from_slice(b"hi\0");
    p.extend_from_slice(b"ss\0");
    p.extend_from_slice(b"c\0");
    p
}

#[test]
fn random_connections_start_waiting() {
    let c = ConnectionState::new(5000, 62078);
    assert_eq!(c.ack, 0);
    assert_eq!(c.host_port, 5000);
    assert_eq!(c.peer_port, 62078);
    assert!(c.read_buffer.is_empty());
}

#[test]
fn os_trace_records_parse() {
    let log = parse_os_trace_record(&os_trace_record()).unwrap();
    assert_eq!(log.pid, 1234);
    assert_eq!(log.timestamp, chrono::DateTime::from_timestamp(1_700_000_000, 500).unwrap().naive_utc());
    assert_eq!(log.level, LogLevel::Error);
    assert_eq!(log.filename, "main.c");
    assert_eq!(log.image_name, "img");
    assert_eq!(log.message, "hi");
    let label = log.label.unwrap();
    assert_eq!(label.subsystem, "ss");
    assert_eq!(label.category, "c");
    let mut bad = os_trace_record();
    bad[68] = 7;
    assert!(matches!(parse_os_trace_record(&bad), Err(IdeviceError::UnexpectedResponse)));
    let mut leap = os_trace_record();
    leap[63..67].copy_from_slice(&1_500_000_000u32.to_le_bytes());
    assert!(matches!(parse_os_trace_record(&leap), Err(IdeviceError::UnexpectedResponse)));
    leap[55..59].copy_from_slice(&59u32.to_le_bytes());
    assert!(parse_os_trace_record(&leap).is_ok());
}

fn segment(seq: u32, flags: TcpFlags, payload: Vec<u8>) -> TcpPacket {
    TcpPacket {
        source_port: 62078,
        destination_port: 5000,
        sequence_number: seq,
        acknowledgment_number: 0,
        data_offset: 20,
        flags,
        window_size: 65535,
        checksum: 0,
        urgent_pointer: 0,
        options: vec![],
        payload,
    }
}

#[test]
fn tcp_connection_follows_segments() {
    let mut c = ConnectionState::with_initial_seq(5000, 62078, 100);
    let syn_ack = TcpFlags { syn: true, ack: true, ..Default::default() };
    assert_eq!(process_segment(&mut c, &segment(900, syn_ack, vec![])), SegmentReply::Ack);
    assert_eq!(c.status, ConnectionStatus::Connected);
    assert_eq!(c.seq, 101);
    assert_eq!(c.ack, 901);
    let data = TcpFlags { psh: true, ack: true, ..Default::default() };
    assert_eq!(process_segment(&mut c, &segment(901, data, vec![1, 2, 3])), SegmentReply::Ack);
    assert_eq!(c.ack, 904);
    assert_eq!(c.read_buffer, vec![1, 2, 3]);
    let keepalive = TcpFlags { ack: true, ..Default::default() };
    assert_eq!(process_segment(&mut c, &segment(903, keepalive, vec![])), SegmentReply::Ack);
    assert_eq!(c.ack, 904);
    assert_eq!(process_segment(&mut c, &segment(901, data, vec![1, 2, 3])), SegmentReply::Nothing);
    assert_eq!(c.read_buffer, vec![1, 2, 3]);
    assert_eq!(uncache(&mut c, 2), vec![1, 2]);
    match try_recv(&mut c) {
        ReadOutcome::Data(d) => assert_eq!(d, vec![3]),
        other => panic!("unexpected {other:?}"),
    }
    assert!(matches!(try_recv(&mut c), ReadOutcome::Pending));
    let fin = TcpFlags { fin: true, ack: true, ..Default::default() };
    assert_eq!(process_segment(&mut c, &segment(904, fin, vec![])), SegmentReply::Ack);
    assert!(matches!(try_recv(&mut c), ReadOutcome::Closed(ConnectionFault::UnexpectedEof)));
    queue_send(&mut c, &[7, 8]);
    assert_eq!(take_write_buffer(&mut c), vec![7, 8]);
    assert!(c.write_buffer.is_empty());
}

#[test]
fn usbmuxd_requests_decode() {
    let connect = dict(vec![
        ("MessageType", s("Connect")),
        ("DeviceID", PlistValue::Integer(3)),
        ("PortNumber", PlistValue::Integer(0x7ef2)),
    ]);
    match UsbmuxdServerRequest::decode(&connect).unwrap() {
        UsbmuxdServerRequest::Connect { device_id, port } => {
            assert_eq!(device_id, 3);
            assert_eq!(port, 62078);
        }
        other => panic!("unexpected {other:?}"),
    }
    assert!(matches!(
        UsbmuxdServerRequest::decode(&PlistDict::new()),
        Err(IdeviceError::Usbmuxd(UsbmuxdError::MissingField("MessageType")))
    ));
    let save = dict(vec![("MessageType", s("SavePairRecord")), ("PairRecordData", PlistValue::Data(vec![1]))]);
    match UsbmuxdServerRequest::decode(&save).unwrap() {
        UsbmuxdServerRequest::SavePairRecord { pair_record_id, device_id, pair_record_data } => {
            assert!(pair_record_id.is_none());
            assert!(device_id.is_none());
            assert_eq!(pair_record_data, vec![1]);
        }
        other => panic!("unexpected {other:?}"),
    }
    let read = dict(vec![("MessageType", s("ReadPairRecord")), ("PairRecordID", PlistValue::Integer(1))]);
    assert!(matches!(
        UsbmuxdServerRequest::decode(&read),
        Err(IdeviceError::Usbmuxd(UsbmuxdError::UnexpectedFieldType("PairRecordID")))
    ));
    match UsbmuxdServerRequest::decode(&dict(vec![("MessageType", s("Frobnicate"))])) {
        Err(IdeviceError::Usbmuxd(UsbmuxdError::UnknownMessageType(t))) => assert_eq!(t, "Frobnicate"),
        other => panic!("unexpected {other:?}"),
    }
}

#[test]
fn usbmuxd_responses_encode() {
    let d = UsbmuxdServerResponse::Result(0).into_dictionary();
    assert_eq!(d.get("MessageType").and_then(|v| v.as_string()), Some("Result"));
    assert_eq!(d.get("Number").and_then(|v| v.as_unsigned_integer()), Some(0));
    let d = UsbmuxdServerResponse::Detached(9).into_dictionary();
    assert_eq!(d.get("DeviceID").and_then(|v| v.as_unsigned_integer()), Some(9));
    let d = UsbmuxdServerResponse::Buid("B".to_string()).into_dictionary();
    assert_eq!(d.len(), 1);
}

#[test]
fn usbmuxd_network_addresses() {
    let mut v4 = vec![0x10, 2, 0, 0, 192, 168, 1, 5];
    v4.resize(16, 0);
    match network_address_connection(&v4, 2, 10).unwrap() {
        Connection::Network(IpAddress::V4(o)) => assert_eq!(o, [192, 168, 1, 5]),
        other => panic!("unexpected {other:?}"),
    }
    assert!(network_address_connection(&v4[..8], 2, 10).is_err());
    let mut v6 = vec![0x1C, 10, 0, 0, 0, 0, 0, 0];
    v6.extend_from_slice(&[0xfe, 0x80, 0, 0, 0, 0, 0, 0, 0, 0, 0, 0, 0, 0, 0, 1]);
    v6.resize(28, 0);
    match network_address_connection(&v6, 2, 10).unwrap() {
        Connection::Network(IpAddress::V6(o)) => assert_eq!(o[0..2], [0xfe, 0x80]),
        other => panic!("unexpected {other:?}"),
    }
    let odd = vec![0x10, 0x7f, 0, 0, 0, 0, 0, 0];
    match network_address_connection(&odd, 2, 10).unwrap() {
        Connection::Unknown(d) => assert_eq!(d, "Network 7F"),
        other => panic!("unexpected {other:?}"),
    }
    assert!(network_address_connection(&[1, 2, 3], 2, 10).is_err());
    let usb = DeviceListResponse {
        device_id: 4,
        properties: DevicePropertiesResponse {
            connection_type: "USB".to_string(),
            network_address: None,
            serial_number: "UDID".to_string(),
        },
    };
    let dev = usb.into_usbmuxd_dev_for(2, 10).unwrap();
    assert!(matches!(dev.connection_type, Connection::Usb));
    assert_eq!(dev.udid, "UDID");
    let net = DeviceListResponse {
        device_id: 5,
        properties: DevicePropertiesResponse {
            connection_type: "Network".to_string(),
            network_address: None,
            serial_number: "X".to_string(),
        },
    };
    assert!(net.into_usbmuxd_dev_for(2, 10).is_err());
    let mut v4 = vec![0x10u8, libc::AF_INET as u8, 0, 0, 192, 168, 1, 9];
    v4.resize(16, 0);
    let platform = DeviceListResponse {
        device_id: 6,
        properties: DevicePropertiesResponse {
            connection_type: "Network".to_string(),
            network_address: Some(v4),
            serial_number: "N".to_string(),
        },
    };
    let dev = platform.into_usbmuxd_dev().unwrap();
    assert!(matches!(dev.connection_type, Connection::Network(_)));
}
