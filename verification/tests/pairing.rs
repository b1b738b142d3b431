use idevice::error::IdeviceError;
use idevice::pairing::tlv::{deserialize_tlv8, serialize_tlv8, PairingDataComponentType, TLV8Entry};

#[test]
fn tlv8_roundtrip() {
    let entries = vec![
        TLV8Entry::m(1),
        TLV8Entry { tlv_type: PairingDataComponentType::PublicKey, data: vec![1, 2, 3] },
        TLV8Entry { tlv_type: PairingDataComponentType::Separator, data: vec![] },
    ];
    let bytes = serialize_tlv8(&entries);
    assert_eq!(bytes, vec![0x06, 1, 1, 0x03, 3, 1, 2, 3, 0xff, 0]);
    let back = deserialize_tlv8(&bytes).unwrap();
    assert_eq!(back.len(), 3);
    assert_eq!(back[1].tlv_type, PairingDataComponentType::PublicKey);
    assert_eq!(back[1].data, vec![1, 2, 3]);
    assert_eq!(back[2].tlv_type, PairingDataComponentType::Separator);
}

#[test]
fn tlv8_errors() {
    assert!(matches!(deserialize_tlv8(&[0x06, 5, 1]), Err(IdeviceError::MalformedTlv)));
    assert!(matches!(deserialize_tlv8(&[0x40, 0]), Err(IdeviceError::UnknownTlv(0x40))));
    assert!(deserialize_tlv8(&[0x06]).unwrap().is_empty());
}

#[test]
fn tlv8_codes() {
    assert_eq!(PairingDataComponentType::AppInfo.code(), 0x1d);
    assert_eq!(
        PairingDataComponentType::try_from_code(0x0e).unwrap(),
        PairingDataComponentType::SessionId
    );
    assert_eq!(PairingDataComponentType::try_from_code(0x30), Err(0x30));
}
