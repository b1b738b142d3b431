use idevice::error::IdeviceError;
use idevice::restore::errors::RestoreError;
use idevice::restore::img4::{fourcc_for, restore_fourcc_override, stitch_component, RestoreProperty};
use idevice::restore::mbn::{detect_image_size, mbn_stitch};
use idevice::restore::mode::{hex_decode, DeviceInfo, Mode};
use idevice::restore::progress::BufferedComponentReader;
use idevice::restore::recovery::{
    check_recovery_write, command_bytes, decode_string_descriptor, dfu_finish_setup, dfu_packet,
    dfu_start, getenv_command, setenv_command, ControlSetup, DfuStart, RecoveryDevice,
};

fn der_len(n: usize) -> Vec<u8> {
    if n < 0x80 {
        vec![n as u8]
    } else if n < 0x100 {
        vec![0x81, n as u8]
    } else {
        vec![0x82, (n >> 8) as u8, n as u8]
    }
}

fn tlv(tag: u8, content: &[u8]) -> Vec<u8> {
    let mut v = vec![tag];
    v.extend(der_len(content.len()));
    v.extend_from_slice(content);
    v
}

fn sample_im4p(kind: &[u8; 4]) -> Vec<u8> {
    let mut c = tlv(0x16, b"IM4P");
    c.extend(tlv(0x16, kind));
    c.extend(tlv(0x16, b"desc"));
    tlv(0x30, &c)
}

#[test]
fn fourcc_table_maps_known_components() {
    assert_eq!(fourcc_for("KernelCache"), Some(*b"krnl"));
    assert_eq!(fourcc_for("iBSS"), Some(*b"ibss"));
    assert_eq!(fourcc_for("OS"), Some([b'O', b'S', 0, 0]));
    assert_eq!(fourcc_for("Ap,RestorecL4"), Some(*b"rxcl"));
    assert_eq!(fourcc_for("NotAComponent"), None);
    assert_eq!(restore_fourcc_override("RestoreSEP"), Some(*b"rsep"));
    assert_eq!(restore_fourcc_override("SEP"), None);
    assert_eq!(restore_fourcc_override("Ap,DCP2"), Some(*b"dcp2"));
}

#[test]
fn stitch_wraps_payload_and_ticket() {
    let im4p = sample_im4p(b"krnl");
    let ticket = vec![0x30, 0x00];
    let out = stitch_component(&im4p, &ticket, None, &[]).unwrap();
    let mut expected = tlv(0x16, b"IMG4");
    expected.extend_from_slice(&im4p);
    expected.extend(tlv(0xA0, &ticket));
    assert_eq!(out, tlv(0x30, &expected));
}

#[test]
fn stitch_retags_payload_and_adds_restore_info() {
    let im4p = sample_im4p(b"rkrn");
    let ticket = vec![0x30, 0x00];
    let props = [RestoreProperty::Integer { fourcc: *b"snid", value: 5 }];
    let out = stitch_component(&im4p, &ticket, Some(*b"krnl"), &props).unwrap();
    let patched = sample_im4p(b"krnl");
    // snid = 0x736e6964: base-128 digits 0x07 0x1b 0x39 0x52 0x64.
    let mut prop_seq = tlv(0x16, b"snid");
    prop_seq.extend(tlv(0x02, &[5]));
    let prop_seq = tlv(0x30, &prop_seq);
    let mut prop = vec![0xFF, 0x80 | 0x07, 0x80 | 0x1b, 0x80 | 0x39, 0x80 | 0x52, 0x64];
    prop.extend(der_len(prop_seq.len()));
    prop.extend(prop_seq);
    let mut im4r = tlv(0x16, b"IM4R");
    im4r.extend(tlv(0x31, &prop));
    let im4r = tlv(0xA1, &tlv(0x30, &im4r));
    let mut expected = tlv(0x16, b"IMG4");
    expected.extend(patched);
    expected.extend(tlv(0xA0, &ticket));
    expected.extend(im4r);
    assert_eq!(out, tlv(0x30, &expected));
}

#[test]
fn stitch_rejects_malformed_payload_when_retagging() {
    let r = stitch_component(&[0x31, 0x00], &[], Some(*b"krnl"), &[]);
    assert!(matches!(r, Err(IdeviceError::Restore(RestoreError::Img4(_)))));
    let r = stitch_component(&[0x30, 0x05, 0x16], &[], Some(*b"krnl"), &[]);
    assert!(matches!(r, Err(IdeviceError::Restore(RestoreError::Img4(_)))));
}

#[test]
fn mbn_stitch_replaces_tail() {
    assert_eq!(mbn_stitch(&[1, 2, 3, 4], &[9, 9]).unwrap(), vec![1, 2, 9, 9]);
    for (data, blob) in [(&[][..], &[1u8][..]), (&[1u8][..], &[][..]), (&[1u8][..], &[1u8, 2][..])] {
        assert!(matches!(
            mbn_stitch(data, blob),
            Err(IdeviceError::Restore(RestoreError::Baseband(_)))
        ));
    }
}

#[test]
fn mbn_image_size_from_headers() {
    let mut v1 = vec![0x0a, 0, 0, 0];
    v1.resize(40, 0);
    v1[32] = 0x10;
    assert_eq!(detect_image_size(&v1), Some(0x10 + 40));
    let mut bin = vec![0u8, 0x04, 0x00, 0xea, 0x6c, 0x69, 0x48, 0x55, 0];
    assert_eq!(detect_image_size(&bin), Some(u32::from_le_bytes([0x6c, 0x69, 0x48, 0x55]) as u64));
    bin[1] = 0;
    assert_eq!(detect_image_size(&bin), None);
}

#[test]
fn modes_map_product_ids() {
    for m in [Mode::Recovery1, Mode::Recovery2, Mode::Recovery3, Mode::Recovery4, Mode::Wtf, Mode::Dfu] {
        assert_eq!(Mode::from_product_id(m.product_id()), Some(m));
    }
    assert_eq!(Mode::from_product_id(0x1227), Some(Mode::Dfu));
    assert_eq!(Mode::from_product_id(0x1234), None);
    assert!(Mode::Recovery3.is_recovery());
    assert!(!Mode::Dfu.is_recovery());
    assert!(!Mode::Wtf.is_recovery());
}

#[test]
fn image4_flag_is_read_from_ibfl() {
    let mut info = DeviceInfo::default();
    assert!(!info.is_image4_supported());
    info.ibfl = Some(0x3C);
    assert!(info.is_image4_supported());
    info.ibfl = Some(0x3B & !4);
    assert!(!info.is_image4_supported());
}

#[test]
fn restore_sub_codes() {
    assert_eq!(RestoreError::Img4(String::new()).sub_code(), 3);
    assert_eq!(RestoreError::Cancelled.sub_code(), 17);
    assert_eq!(RestoreError::Other(String::new()).sub_code(), 16);
}

#[test]
fn recovery_device_rejects_unknown_products() {
    let d = RecoveryDevice::new((), 0x1281, DeviceInfo::default()).unwrap();
    assert_eq!(d.mode(), Mode::Recovery2);
    assert!(!d.claims_second_interface());
    let d = RecoveryDevice::new((), 0x1283, DeviceInfo::default()).unwrap();
    assert!(d.claims_second_interface());
    assert!(matches!(
        RecoveryDevice::new((), 0x1000, DeviceInfo::default()),
        Err(IdeviceError::Restore(RestoreError::Recovery(_)))
    ));
}

#[test]
fn recovery_commands() {
    assert_eq!(command_bytes("reboot"), b"reboot\0".to_vec());
    assert_eq!(getenv_command("build-version"), "getenv build-version");
    assert_eq!(setenv_command("auto-boot", "true"), "setenv auto-boot true");
    assert!(check_recovery_write(5, 5).is_ok());
    assert!(check_recovery_write(4, 5).is_err());
    assert_eq!(
        ControlSetup::new(0x40, 0, 1, 2),
        ControlSetup { request_type: 0x40, request: 0, value: 1, index: 2 }
    );
}

#[test]
fn string_descriptor_decodes_utf16() {
    let d = [8u8, 0x03, b'a', 0, b'b', 0, b'c', 0, 0xFF];
    assert_eq!(decode_string_descriptor(&d).unwrap(), "abc");
    assert!(decode_string_descriptor(&[2, 0x02]).is_err());
    assert!(decode_string_descriptor(&[2]).is_err());
}

#[test]
fn dfu_packets_carry_image_then_salted_crc() {
    let buf = [1u8, 2, 3, 4, 5];
    let (transfers, next) = dfu_packet(&buf, 0, 0);
    assert_eq!(next, 5);
    assert_eq!(transfers.len(), 1);
    let mut expected = buf.to_vec();
    expected.extend_from_slice(&[0xFF, 0xFF, 0xFF, 0xFF, 0xAC, 0x05, 0x00, 0x01, 0x55, 0x46, 0x44, 0x10]);
    expected.extend_from_slice(&[109, 30, 241, 253]);
    assert_eq!(transfers[0].data, expected);
    assert_eq!(transfers[0].setup, ControlSetup::new(0x21, 1, 0, 0));
}

#[test]
fn dfu_packets_split_a_large_image() {
    let buf = vec![7u8; 0x800 + 0x7F8];
    let (first, next) = dfu_packet(&buf, 0, 0);
    assert_eq!(next, 0x800);
    assert_eq!(first.len(), 1);
    assert_eq!(first[0].data.len(), 0x800);
    let (last, next) = dfu_packet(&buf, next, 1);
    assert_eq!(next, buf.len());
    assert_eq!(last.len(), 2);
    assert_eq!(last[0].data.len(), 0x7F8);
    assert_eq!(last[1].data.len(), 16);
    assert_eq!(last[1].setup.value, 1);
    assert_eq!(dfu_finish_setup(buf.len()).value, 2);
    assert_eq!(dfu_finish_setup(0x800).value, 1);
}

#[test]
fn dfu_start_decides_on_state() {
    assert!(matches!(dfu_start(Some(2)), DfuStart::Upload));
    assert!(matches!(dfu_start(Some(10)), DfuStart::ClearStatus(_)));
    assert!(matches!(dfu_start(None), DfuStart::Abort(_)));
    assert!(matches!(dfu_start(Some(5)), DfuStart::Abort(_)));
}

#[test]
fn buffered_reader_hands_out_data_in_order() {
    let mut r = BufferedComponentReader::new(vec![1, 2, 3, 4, 5]);
    let mut buf = [0u8; 2];
    assert_eq!(r.read(&mut buf), 2);
    assert_eq!(buf, [1, 2]);
    assert_eq!(r.read(&mut buf), 2);
    assert_eq!(buf, [3, 4]);
    assert_eq!(r.read(&mut buf), 1);
    assert_eq!(buf, [5, 4]);
    assert_eq!(r.read(&mut buf), 0);
}

#[test]
fn serial_string_is_parsed_into_device_info() {
    let info = DeviceInfo::parse(
        "CPID:8010 BDID:08 ECID:001A2B3C4D5E6F70 IBFL:3C SRNM:[F2LXYZ] SRTG:[iBoot-2817.60.2] NONC:0a0B ignored SNON:zz",
    );
    assert_eq!(info.cpid, Some(0x8010));
    assert_eq!(info.bdid, Some(0x08));
    assert_eq!(info.ecid, Some(0x001A2B3C4D5E6F70));
    assert_eq!(info.ibfl, Some(0x3C));
    assert_eq!(info.srnm.as_deref(), Some("F2LXYZ"));
    assert_eq!(info.srtg.as_deref(), Some("iBoot-2817.60.2"));
    assert_eq!(info.ap_nonce, Some(vec![0x0a, 0x0b]));
    assert_eq!(info.sep_nonce, None);
    assert!(info.is_image4_supported());
    assert_eq!(info.raw.len(), 8);
    assert_eq!(info.raw[4], ("SRNM".to_string(), "F2LXYZ".to_string()));
    assert_eq!(info.raw[7], ("SNON".to_string(), "zz".to_string()));
}

#[test]
fn later_serial_keys_win_and_bad_hex_is_none() {
    let info = DeviceInfo::parse("CPID:zz CPID:1 BDID:");
    assert_eq!(info.cpid, Some(1));
    assert_eq!(info.bdid, None);
    assert_eq!(info.raw, vec![("CPID".to_string(), "1".to_string()), ("BDID".to_string(), String::new())]);
    let odd = DeviceInfo::parse("NONC:a\u{e9}b SNON:\u{4e2d}1");
    assert_eq!(odd.ap_nonce, None);
    assert_eq!(odd.sep_nonce, None);
    let empty = DeviceInfo::parse("");
    assert_eq!(empty.cpid, None);
    assert!(empty.raw.is_empty());
}

#[test]
fn hex_text_decodes_in_pairs() {
    assert_eq!(hex_decode("0a0F"), Some(vec![0x0a, 0x0f]));
    assert_eq!(hex_decode(""), Some(vec![]));
    assert_eq!(hex_decode("abc"), None);
    assert_eq!(hex_decode("0g"), None);
    assert_eq!(hex_decode("+f"), None);
    assert_eq!(hex_decode("+1"), None);
    assert_eq!(hex_decode("zz"), None);
    assert_eq!(hex_decode("0aFF"), Some(vec![0x0a, 0xff]));
    assert_eq!(hex_decode("a\u{e9}b"), None);
    assert_eq!(hex_decode("\u{e9}\u{e9}"), None);
    assert_eq!(hex_decode("a\u{e9}"), None);
}

#[test]
fn descriptor_info_fills_missing_nonces_and_new_raw_keys() {
    let mut info = DeviceInfo::parse("CPID:8010 NONC:0102");
    assert!(info.needs_descriptor_nonces());
    let extra = DeviceInfo::parse("NONC:0a0b SNON:0c CPID:9999 BORD:2");
    info.merge_descriptor_info(extra);
    assert_eq!(info.ap_nonce, Some(vec![1, 2]));
    assert_eq!(info.sep_nonce, Some(vec![0x0c]));
    assert_eq!(info.cpid, Some(0x8010));
    assert_eq!(
        info.raw,
        vec![
            ("CPID".to_string(), "8010".to_string()),
            ("NONC".to_string(), "0102".to_string()),
            ("SNON".to_string(), "0c".to_string()),
            ("BORD".to_string(), "2".to_string()),
        ]
    );
    assert!(!info.needs_descriptor_nonces());
}
