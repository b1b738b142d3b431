use idevice::error::IdeviceError;
use idevice::plist::{PlistDict, PlistValue};
use idevice::restore::asr::{
    asr_request, check_oob_read, ends_message, initiate_reply, newline_terminated,
    payload_chunk_len, payload_packet, validation_request, AsrRequest, ASR_PAYLOAD_CHUNK_SIZE,
};
use idevice::restore::errors::RestoreError;
use idevice::restore::fdr::{
    ctrl_command_bytes, ctrl_reply, ctrl_request, fdr_message, hello_command_bytes, hello_reply,
    is_ping, plist_length, plist_length_prefix, pong, proxy_ack, proxy_echoes, proxy_target,
    FdrMessage, FDR_CTRL_PORT,
};
use idevice::restore::restored::{
    ecid_of, goodbye_request, hardware_info, message_dict, query_type_reply, query_type_request,
    query_value_reply, query_value_request, reboot_request, start_restore_request,
    usb_candidates, DEFAULT_LABEL, SERVICE_PORT,
};
use idevice::restore::transfer::{
    file_data_done, file_data_messages, is_url_asset_request, starts_aea, TransferProgress,
    PROGRESS_STRIDE,
};
use idevice::usbmuxd::devices::{Connection, UsbmuxdDevice};

fn dict(pairs: Vec<(&str, PlistValue)>) -> PlistDict {
    let mut d = PlistDict::new();
    for (k, v) in pairs {
        d.insert(k.to_string(), v);
    }
    d
}

fn s(x: &str) -> PlistValue {
    PlistValue::String(x.to_string())
}

fn keys(d: &PlistDict) -> Vec<String> {
    (0..d.len()).map(|i| d.entry(i).0.clone()).collect()
}

#[test]
fn fdr_handshakes() {
    assert_eq!(FDR_CTRL_PORT, 0x43A);
    assert_eq!(ctrl_command_bytes(), b"BeginCtrl\0".to_vec());
    assert_eq!(hello_command_bytes(), b"HelloConn\0".to_vec());
    let req = ctrl_request();
    assert_eq!(keys(&req), vec!["Command", "CtrlProtoVersion"]);
    assert!(matches!(req.get("CtrlProtoVersion"), Some(PlistValue::Integer(2))));
    assert_eq!(ctrl_reply(&dict(vec![("ConnPort", PlistValue::Integer(49153))])).unwrap(), 49153);
    assert!(ctrl_reply(&PlistDict::new()).is_err());
    assert!(hello_reply(&dict(vec![("Command", s("HelloConn"))])).is_ok());
    assert!(hello_reply(&dict(vec![("Command", s("Other"))])).is_err());
}

#[test]
fn fdr_framing_and_messages() {
    assert_eq!(plist_length_prefix(0x0102), vec![2, 1, 0, 0]);
    assert_eq!(plist_length(&[2, 1, 0, 0]), 0x0102);
    assert_eq!(fdr_message(&[1, 0]), FdrMessage::Sync);
    assert_eq!(fdr_message(&[5, 1]), FdrMessage::Proxy);
    assert_eq!(fdr_message(&[0xAA, 0xBB]), FdrMessage::Plist);
    assert_eq!(fdr_message(&[9, 9]), FdrMessage::Unknown(0x0909));
    assert!(is_ping(&dict(vec![("Command", s("Ping"))])));
    assert!(!is_ping(&PlistDict::new()));
    assert!(matches!(pong().get("Pong"), Some(PlistValue::Boolean(true))));
    assert_eq!(proxy_ack(), vec![5, 0]);
}

#[test]
fn fdr_proxy_requests() {
    let mut req = vec![0u8, 3, 9];
    req.extend_from_slice(b"apple.com");
    req.extend_from_slice(&[0x01, 0xBB]);
    assert!(proxy_echoes(&req));
    assert_eq!(proxy_target(&req), Some(("apple.com".to_string(), 443)));
    assert!(!proxy_echoes(&[0, 3]));
    assert_eq!(proxy_target(&[0, 3]), None);
    assert_eq!(proxy_target(&[0, 4, 1, b'a', 0, 1]), None);
    assert_eq!(proxy_target(&[0, 3, 9, b'a', 0, 1]), None);
}

#[test]
fn asr_handshake_and_validation() {
    assert_eq!(initiate_reply(&dict(vec![("Command", s("Initiate")), ("Checksum Chunks", PlistValue::Boolean(true))])).unwrap(), true);
    assert_eq!(initiate_reply(&dict(vec![("Command", s("Initiate"))])).unwrap(), false);
    assert!(initiate_reply(&dict(vec![("Command", s("Payload"))])).is_err());
    assert!(ends_message(b"<plist>x</plist>\n"));
    assert!(!ends_message(b"</plist>"));
    assert_eq!(newline_terminated(b"abc".to_vec()), b"abc\n".to_vec());
    assert_eq!(newline_terminated(b"abc\n".to_vec()), b"abc\n".to_vec());
    let v = validation_request(1000, true);
    assert_eq!(
        keys(&v),
        vec!["Checksum Chunk Size", "FEC Slice Stride", "Packet Payload Size", "Packets Per FEC", "Payload", "Stream ID", "Version"]
    );
    match v.get("Payload") {
        Some(PlistValue::Dictionary(p)) => assert!(matches!(p.get("Size"), Some(PlistValue::Integer(1000)))),
        other => panic!("unexpected {other:?}"),
    }
    assert_eq!(keys(&validation_request(1, false)).len(), 6);
    assert_eq!(asr_request(&dict(vec![("Command", s("Payload"))])).unwrap(), AsrRequest::Payload);
    let oob = dict(vec![("Command", s("OOBData")), ("OOB Offset", PlistValue::Integer(4)), ("OOB Length", PlistValue::Integer(8))]);
    assert_eq!(asr_request(&oob).unwrap(), AsrRequest::OutOfBand { offset: 4, length: 8 });
    assert!(asr_request(&dict(vec![("Command", s("OOBData"))])).is_err());
    assert!(asr_request(&dict(vec![("Command", s("Bogus"))])).is_err());
}

#[test]
fn asr_payload() {
    assert!(check_oob_read(8, 8).is_ok());
    match check_oob_read(8, 3) {
        Err(IdeviceError::Restore(RestoreError::Asr(m))) => assert_eq!(m, "ASR OOB read short: wanted 8, got 3"),
        other => panic!("unexpected {:?}", other.is_ok()),
    }
    assert_eq!(payload_chunk_len(0, 10), 10);
    assert_eq!(payload_chunk_len(0, 1 << 20), ASR_PAYLOAD_CHUNK_SIZE);
    assert_eq!(payload_packet(vec![1, 2], false), vec![1, 2]);
    let p = payload_packet(b"abc".to_vec(), true);
    assert_eq!(p.len(), 23);
    assert_eq!(&p[3..7], &[0xa9, 0x99, 0x3e, 0x36]);
}

#[test]
fn transfers() {
    let mut t = TransferProgress::new();
    assert!(t.record(10));
    assert_eq!(t.next_report, 10 + PROGRESS_STRIDE);
    assert!(!t.record(10));
    assert_eq!(t.sent, 20);
    let data = vec![7u8; 8192 * 2 + 1];
    let msgs = file_data_messages(&data);
    assert_eq!(msgs.len(), 3);
    assert!(matches!(msgs[2].get("FileData"), Some(PlistValue::Data(d)) if d.len() == 1));
    assert!(file_data_messages(&[]).is_empty());
    assert!(matches!(file_data_done().get("FileDataDone"), Some(PlistValue::Boolean(true))));
    assert!(starts_aea(b"AEA1rest"));
    assert!(!starts_aea(b"AEA"));
    assert!(is_url_asset_request(&dict(vec![("MsgType", s("URLAsset"))])));
    assert!(!is_url_asset_request(&PlistDict::new()));
}

#[test]
fn restored_requests() {
    assert_eq!(SERVICE_PORT, 62078);
    assert_eq!(keys(&query_type_request(DEFAULT_LABEL)), vec!["Request", "Label"]);
    let ok = dict(vec![("Type", s("com.apple.mobile.restored")), ("RestoreProtocolVersion", PlistValue::Integer(14))]);
    assert!(matches!(query_type_reply(&ok, PlistValue::Integer(0)), Ok(PlistValue::Integer(14))));
    let no_version = dict(vec![("Type", s("com.apple.mobile.restored"))]);
    assert!(matches!(query_type_reply(&no_version, PlistValue::Integer(0)), Ok(PlistValue::Integer(0))));
    assert!(query_type_reply(&dict(vec![("Type", s("com.apple.mobile.lockdown"))]), PlistValue::Integer(0)).is_err());
    assert_eq!(keys(&query_value_request("l", "HardwareInfo")), vec!["Request", "Label", "QueryKey"]);
    let hw = query_value_reply(dict(vec![("HardwareInfo", PlistValue::Dictionary(dict(vec![("UniqueChipID", PlistValue::Integer(42))])))]), "HardwareInfo").unwrap();
    let hw = hardware_info(hw).unwrap();
    assert_eq!(ecid_of(&hw).unwrap(), 42);
    assert!(query_value_reply(PlistDict::new(), "HardwareInfo").is_err());
    assert!(hardware_info(s("x")).is_err());
    assert!(ecid_of(&PlistDict::new()).is_err());
    let start = start_restore_request("l", PlistValue::Integer(14), PlistDict::new());
    assert_eq!(keys(&start), vec!["Request", "Label", "RestoreProtocolVersion", "RestoreOptions"]);
    assert!(matches!(reboot_request("l").get("Request"), Some(PlistValue::String(r)) if r == "Reboot"));
    assert!(matches!(goodbye_request("l").get("Request"), Some(PlistValue::String(r)) if r == "Goodbye"));
    assert!(message_dict(PlistValue::Dictionary(PlistDict::new())).is_ok());
    assert!(message_dict(PlistValue::Integer(1)).is_err());
    let devices = vec![
        UsbmuxdDevice { connection_type: Connection::Usb, udid: "a".to_string(), device_id: 1 },
        UsbmuxdDevice { connection_type: Connection::Unknown("x".to_string()), udid: "b".to_string(), device_id: 2 },
        UsbmuxdDevice { connection_type: Connection::Usb, udid: "c".to_string(), device_id: 3 },
    ];
    assert_eq!(usb_candidates(&devices), vec![1, 3]);
}
