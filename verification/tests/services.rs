use idevice::backup::messages::BackupMessageType;
use idevice::error::IdeviceError;
use idevice::os_trace::LogLevel;
use idevice::pcapd::{pcap_file_header, DevicePacket};
use idevice::preboard::{
    commit_stashbag_result, stashbag_error, PreboardReply, StashbagCreation, StashbagOutcome,
    StashbagStep,
};
use idevice::restore::errors::RestoreError;
use idevice::springboard::InterfaceOrientation;
use idevice::tunnel::{
    frame_handshake, is_handshake_magic, tunnel_info_from_reply, tunnel_payload_len, CdTunnel,
    HandshakeReply, TunnelInfo,
};
use idevice::usbmuxd::errors::UsbmuxdError;

fn reply() -> PreboardReply {
    PreboardReply {
        skip: false,
        show_dialog: false,
        timeout: false,
        hide_dialog: false,
        commit_complete: false,
        has_error: false,
        error_string: None,
    }
}

#[test]
fn backup_message_names() {
    assert_eq!(BackupMessageType::BackupMessageTypeBackup.as_str(), "Backup");
    assert_eq!(
        BackupMessageType::BackupMessageTypeGetFreespace.as_str(),
        "DLMessageGetFreeDiskSpace"
    );
    assert_eq!(
        BackupMessageType::BackupMessageTypeCheckBackupEncryption.as_str(),
        "CheckBackupEncryption"
    );
}

#[test]
fn log_levels_from_bytes() {
    assert_eq!(LogLevel::from_byte(0).unwrap(), LogLevel::Notice);
    assert_eq!(LogLevel::from_byte(0x10).unwrap(), LogLevel::Error);
    assert_eq!(LogLevel::from_byte(0x11).unwrap(), LogLevel::Fault);
    assert!(matches!(LogLevel::from_byte(10), Err(IdeviceError::UnexpectedResponse)));
}

#[test]
fn usbmuxd_sub_codes() {
    assert_eq!(UsbmuxdError::ConnectionRefused.sub_code(), 1);
    assert_eq!(UsbmuxdError::MissingField("x").sub_code(), 5);
    assert_eq!(UsbmuxdError::UnknownMessageType("y".into()).sub_code(), 7);
}

#[test]
fn orientation_codes() {
    assert_eq!(InterfaceOrientation::from_value(3), InterfaceOrientation::LandscapeRight);
    assert_eq!(InterfaceOrientation::from_value(0), InterfaceOrientation::Unknown);
    assert_eq!(InterfaceOrientation::from_value(99), InterfaceOrientation::Unknown);
    assert_eq!(InterfaceOrientation::PortraitUpsideDown.code(), 2);
}

fn capture(data_len: u32, name: &[u8]) -> Vec<u8> {
    let mut b = Vec::new();
    b.extend_from_slice(&95u32.to_be_bytes());
    b.push(2);
    b.extend_from_slice(&data_len.to_be_bytes());
    b.push(0xff);
    b.extend_from_slice(&1u16.to_be_bytes());
    b.push(1);
    b.extend_from_slice(&2u32.to_be_bytes());
    b.extend_from_slice(&0u32.to_be_bytes());
    b.extend_from_slice(&0u32.to_be_bytes());
    let mut iface = [0u8; 16];
    iface[..name.len()].copy_from_slice(name);
    b.extend_from_slice(&iface);
    b.extend_from_slice(&42u32.to_le_bytes());
    let mut comm = [0u8; 17];
    comm[..4].copy_from_slice(b"proc");
    b.extend_from_slice(&comm);
    b.extend_from_slice(&3u32.to_be_bytes());
    b.extend_from_slice(&43u32.to_le_bytes());
    b.extend_from_slice(&comm);
    b.extend_from_slice(&100u32.to_be_bytes());
    b.extend_from_slice(&200u32.to_be_bytes());
    for i in 0..data_len {
        b.push(i as u8);
    }
    b
}

#[test]
fn pcapd_packets_parse_and_normalize() {
    let bytes = capture(6, b"pdp_ip0");
    let mut p = DevicePacket::from_vec(&bytes).unwrap();
    assert_eq!(p.header_length, 95);
    assert_eq!(p.packet_length, 6);
    assert_eq!(p.unit, 1);
    assert_eq!(p.interface_name, "pdp_ip0");
    assert_eq!(p.pid, 42);
    assert_eq!(p.comm, "proc");
    assert_eq!(p.epid, 43);
    assert_eq!(p.seconds, 100);
    assert_eq!(p.data, vec![0, 1, 2, 3, 4, 5]);
    p.frame_pre_length = 4;
    p.normalize_data();
    assert_eq!(
        p.data,
        vec![0xBE, 0xEF, 0xBE, 0xEF, 0xBE, 0xEF, 0xBE, 0xEF, 0xBE, 0xEF, 0xBE, 0xEF, 0x08, 0x00, 4, 5]
    );
    assert_eq!((p.pid, p.epid, p.seconds, p.frame_pre_length), (42, 43, 100, 4));
    assert_eq!((p.comm.as_str(), p.interface_name.as_str()), ("proc", "pdp_ip0"));
    let mut raw = DevicePacket::from_vec(&capture(2, b"en0")).unwrap();
    raw.normalize_data();
    assert_eq!(raw.data.len(), 16);
    assert_eq!(raw.pcap_record_header(), vec![0, 0, 0, 100, 0, 0, 0, 200, 0, 0, 0, 16, 0, 0, 0, 16]);
    assert_eq!(pcap_file_header()[..4], [0xa1, 0xb2, 0xc3, 0xd4]);
}

#[test]
fn pcapd_packet_errors() {
    assert!(matches!(DevicePacket::from_vec(&[0, 0, 0]), Err(IdeviceError::NotEnoughBytes(4, 3))));
    let mut bytes = capture(6, b"en0");
    bytes.truncate(98);
    assert!(matches!(DevicePacket::from_vec(&bytes), Err(IdeviceError::NotEnoughBytes(98, 101))));
    let mut bad = capture(0, b"en0");
    bad[25] = 0xff;
    assert!(matches!(DevicePacket::from_vec(&bad), Err(IdeviceError::Utf8)));
}

#[test]
fn stashbag_creation_steps() {
    let mut c = StashbagCreation::new();
    let mut r = reply();
    r.show_dialog = true;
    assert!(matches!(c.on_reply(Some(&r)), StashbagStep::KeepWaiting));
    assert!(matches!(c.on_reply(None), StashbagStep::KeepWaiting));
    let mut done = reply();
    done.hide_dialog = true;
    assert!(matches!(
        c.on_reply(Some(&done)),
        StashbagStep::Finished(StashbagOutcome::CommitRequired)
    ));
    let mut skip = reply();
    skip.skip = true;
    assert!(matches!(
        StashbagCreation::new().on_reply(Some(&skip)),
        StashbagStep::Finished(StashbagOutcome::NotRequired)
    ));
    let mut err = reply();
    err.has_error = true;
    match StashbagCreation::new().on_reply(Some(&err)) {
        StashbagStep::Failed(IdeviceError::Restore(RestoreError::Stashbag(m))) => {
            assert_eq!(m, "could not create stashbag: unknown error")
        }
        other => panic!("unexpected {other:?}"),
    }
}

#[test]
fn stashbag_creation_gives_up_after_all_attempts() {
    let mut c = StashbagCreation::new();
    for _ in 0..129 {
        assert!(matches!(c.on_reply(None), StashbagStep::KeepWaiting));
    }
    assert!(matches!(c.on_reply(None), StashbagStep::Failed(_)));
}

#[test]
fn stashbag_commit_results() {
    let mut ok = reply();
    ok.commit_complete = true;
    assert!(commit_stashbag_result(Some(&ok)).is_ok());
    assert!(commit_stashbag_result(None).is_err());
    assert!(commit_stashbag_result(Some(&reply())).is_err());
    let mut err = reply();
    err.has_error = true;
    err.error_string = Some("locked".into());
    assert_eq!(stashbag_error(&err), Some("locked".to_string()));
    match commit_stashbag_result(Some(&err)) {
        Err(IdeviceError::Restore(RestoreError::Stashbag(m))) => {
            assert_eq!(m, "could not commit stashbag: locked")
        }
        other => panic!("unexpected {other:?}"),
    }
}

#[test]
fn tunnel_handshake_framing_and_reply() {
    let framed = frame_handshake(b"{}");
    assert_eq!(framed, b"CDTunnel\x00\x02{}".to_vec());
    assert!(is_handshake_magic(b"CDTunnel"));
    assert!(!is_handshake_magic(b"CDTunnex"));
    let reply = HandshakeReply {
        has_client_parameters: true,
        client_address: Some("fd00::2".into()),
        client_mtu: Some(70000),
        client_netmask: None,
        server_address: Some("fd00::1".into()),
        server_rsd_port: None,
    };
    let info = tunnel_info_from_reply(reply.clone()).unwrap();
    assert_eq!(info.client_address, "fd00::2");
    assert_eq!(info.mtu, (70000 % 65536) as u16);
    assert_eq!(info.netmask, "");
    assert_eq!(info.server_rsd_port, 0);
    let mut missing = reply;
    missing.server_address = None;
    assert!(tunnel_info_from_reply(missing).is_err());
    let mut header = [0u8; 40];
    header[4] = 1;
    header[5] = 2;
    assert_eq!(tunnel_payload_len(&header), 258);
    let t = CdTunnel::from_parts(5u8, info.clone());
    assert_eq!(t.info.mtu, info.mtu);
    assert_eq!(t.into_inner(), 5u8);
    let _: Option<TunnelInfo> = None;
}
