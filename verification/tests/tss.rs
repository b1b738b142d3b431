use idevice::error::IdeviceError;
use idevice::mounter::{build_personalization_request, personalization_ids, personalization_ticket};
use idevice::plist::{PlistDict, PlistValue};
use idevice::text::{parse_prefixed_hex, utf8_encode};
use idevice::tss::{
    apply_restore_request_rules, extract_img4_ticket, select_build_identity, tss_response_payload,
    TSSRequest,
};

fn dict(pairs: Vec<(&str, PlistValue)>) -> PlistDict {
    let mut d = PlistDict::new();
    for (k, v) in pairs {
        d.insert(k.to_string(), v);
    }
    d
}

fn s(x: &str) -> PlistValue {
    PlistValue::String(x.to_string())
}

fn keys(d: &PlistDict) -> Vec<String> {
    (0..d.len()).map(|i| d.entry(i).0.clone()).collect()
}

fn get_bool(d: &PlistDict, k: &str) -> Option<bool> {
    d.get(k).and_then(|v| v.as_boolean())
}

fn get_int(d: &PlistDict, k: &str) -> Option<u64> {
    d.get(k).and_then(|v| v.as_unsigned_integer())
}

#[test]
fn rules_apply_actions_when_conditions_hold() {
    let mut input = dict(vec![("Digest", PlistValue::Data(vec![1])), ("ESEC", PlistValue::Boolean(true))]);
    let params = dict(vec![
        ("ApProductionMode", PlistValue::Boolean(true)),
        ("ApSecurityMode", PlistValue::Boolean(true)),
    ]);
    let rule = PlistValue::Dictionary(dict(vec![
        (
            "Conditions",
            PlistValue::Dictionary(dict(vec![
                ("ApRawProductionMode", PlistValue::Boolean(true)),
                ("ApRawSecurityMode", PlistValue::Boolean(true)),
            ])),
        ),
        (
            "Actions",
            PlistValue::Dictionary(dict(vec![
                ("EPRO", PlistValue::Boolean(true)),
                ("ESEC", PlistValue::Boolean(false)),
                ("Ignored", PlistValue::Integer(255)),
            ])),
        ),
    ]));
    apply_restore_request_rules(&mut input, &params, &[rule]);
    assert_eq!(keys(&input), vec!["Digest", "EPRO", "ESEC"]);
    assert_eq!(get_bool(&input, "EPRO"), Some(true));
    assert_eq!(get_bool(&input, "ESEC"), Some(false));
    assert!(input.get("Ignored").is_none());
}

#[test]
fn rules_skip_when_a_condition_fails_or_is_unknown() {
    let params = dict(vec![("ApProductionMode", PlistValue::Boolean(false))]);
    let failing = PlistValue::Dictionary(dict(vec![
        ("Conditions", PlistValue::Dictionary(dict(vec![("ApRawProductionMode", PlistValue::Boolean(true))]))),
        ("Actions", PlistValue::Dictionary(dict(vec![("EPRO", PlistValue::Boolean(true))]))),
    ]));
    let unknown = PlistValue::Dictionary(dict(vec![
        ("Conditions", PlistValue::Dictionary(dict(vec![("SomethingElse", PlistValue::Boolean(true))]))),
        ("Actions", PlistValue::Dictionary(dict(vec![("EPRO", PlistValue::Boolean(true))]))),
    ]));
    let not_a_rule = PlistValue::Integer(3);
    let mut input = dict(vec![("Digest", PlistValue::Data(vec![]))]);
    apply_restore_request_rules(&mut input, &params, &[failing, unknown, not_a_rule]);
    assert_eq!(keys(&input), vec!["Digest"]);
}

#[test]
fn prefixed_hex_trims_every_leading_0x() {
    assert_eq!(parse_prefixed_hex("0x10"), Some(16));
    assert_eq!(parse_prefixed_hex("0x0x1F"), Some(31));
    assert_eq!(parse_prefixed_hex("+ff"), Some(255));
    assert_eq!(parse_prefixed_hex("0x"), None);
    assert_eq!(parse_prefixed_hex("0xzz"), None);
    assert_eq!(parse_prefixed_hex("0x10000000000000000"), None);
    assert_eq!(parse_prefixed_hex("0xFFFFFFFFFFFFFFFF"), Some(u64::MAX));
}

fn manifest_with_identities(ids: Vec<PlistValue>) -> PlistDict {
    dict(vec![("BuildIdentities", PlistValue::Array(ids))])
}

#[test]
fn select_build_identity_matches_board_chip_and_behavior() {
    let a = PlistValue::Dictionary(dict(vec![
        ("ApBoardID", s("0x0C")),
        ("ApChipID", s("0x8101")),
        ("Info", PlistValue::Dictionary(dict(vec![("RestoreBehavior", s("Update"))]))),
    ]));
    let b = PlistValue::Dictionary(dict(vec![
        ("ApBoardID", PlistValue::Integer(12)),
        ("ApChipID", s("0x8101")),
        ("Info", PlistValue::Dictionary(dict(vec![("RestoreBehavior", s("Erase"))]))),
    ]));
    let m = manifest_with_identities(vec![PlistValue::Integer(1), a, b]);
    let first = select_build_identity(&m, 12, 0x8101, None).unwrap();
    assert_eq!(first.get("ApBoardID").and_then(|v| v.as_string()), Some("0x0C"));
    let erase = select_build_identity(&m, 12, 0x8101, Some("Erase")).unwrap();
    assert_eq!(get_int(erase, "ApBoardID"), Some(12));
    assert!(matches!(select_build_identity(&m, 13, 0x8101, None), Err(IdeviceError::BadBuildManifest)));
    let empty = PlistDict::new();
    assert!(matches!(select_build_identity(&empty, 12, 0x8101, None), Err(IdeviceError::BadBuildManifest)));
}

#[test]
fn img4_ticket_is_read_from_the_reply() {
    let reply = dict(vec![("ApImg4Ticket", PlistValue::Data(vec![1, 2, 3]))]);
    assert_eq!(extract_img4_ticket(&reply).unwrap(), vec![1, 2, 3]);
    let bad = dict(vec![("ApImg4Ticket", s("nope"))]);
    assert!(matches!(extract_img4_ticket(&bad), Err(IdeviceError::UnexpectedResponse)));
    assert_eq!(personalization_ticket(&PlistValue::Dictionary(reply)).unwrap(), vec![1, 2, 3]);
    assert!(personalization_ticket(&PlistValue::Boolean(true)).is_err());
}

#[test]
fn tss_reply_payload_follows_request_string() {
    let ok = b"STATUS=0&MESSAGE=SUCCESS&REQUEST_STRING=<plist/>";
    assert_eq!(tss_response_payload(ok).unwrap(), b"<plist/>".to_vec());
    let twice = b"STATUS=0&STATUS=0&MESSAGE=SUCCESS&REQUEST_STRING=abc&REQUEST_STRING=def";
    assert_eq!(tss_response_payload(twice).unwrap(), b"abc&".to_vec());
    let failed = b"STATUS=94&MESSAGE=This device isn't eligible";
    assert!(matches!(tss_response_payload(failed), Err(IdeviceError::UnexpectedResponse)));
    let no_request = b"STATUS=0&MESSAGE=SUCCESS";
    assert!(tss_response_payload(no_request).is_err());
}

#[test]
fn new_request_has_header_and_upper_case_uuid() {
    let r = TSSRequest::new();
    let d = r.dictionary();
    assert_eq!(keys(d), vec!["@HostPlatformInfo", "@VersionInfo", "@UUID"]);
    assert_eq!(d.get("@HostPlatformInfo").and_then(|v| v.as_string()), Some("mac"));
    assert_eq!(d.get("@VersionInfo").and_then(|v| v.as_string()), Some("libauthinstall-1033.0.2"));
    let uuid = d.get("@UUID").and_then(|v| v.as_string()).unwrap();
    assert_eq!(uuid.len(), 36);
    assert_eq!(uuid, uuid.to_uppercase());
    assert_eq!(&uuid[14..15], "4");
}

#[test]
fn common_tags_and_nonces() {
    let mut r = TSSRequest::with_uuid("U".to_string());
    r.add_common_tags(1, 2, 3, Some(vec![9]), None);
    let d = r.dictionary();
    assert_eq!(get_int(d, "ApBoardID"), Some(1));
    assert_eq!(get_int(d, "ApChipID"), Some(2));
    assert_eq!(get_int(d, "ApECID"), Some(3));
    assert_eq!(get_int(d, "ApSecurityDomain"), Some(1));
    assert_eq!(get_bool(d, "UID_MODE"), Some(false));
    assert_eq!(d.get("ApNonce").and_then(|v| v.as_data()), Some(&vec![9]));
    assert!(d.get("SepNonce").is_none());
}

#[test]
fn build_identity_tags_convert_hex_strings() {
    let identity = dict(vec![
        ("ApBoardID", s("0x0C")),
        ("ApChipID", s("0xzz")),
        ("UniqueBuildID", PlistValue::Data(vec![7])),
        ("Info", PlistValue::Dictionary(dict(vec![("RequiresUIDMode", PlistValue::Boolean(true))]))),
    ]);
    let mut r = TSSRequest::with_uuid("U".to_string());
    r.add_ap_tags(&identity);
    let d = r.dictionary();
    assert_eq!(get_int(d, "ApBoardID"), Some(12));
    assert_eq!(d.get("ApChipID").and_then(|v| v.as_string()), Some("0xzz"));
    assert_eq!(d.get("UniqueBuildID").and_then(|v| v.as_data()), Some(&vec![7]));
    assert_eq!(get_bool(d, "RequiresUIDMode"), Some(true));
}

#[test]
fn personalization_identifiers_keep_ap_keys() {
    let ids = dict(vec![
        ("Ap,Foo", PlistValue::Integer(1)),
        ("BoardId", PlistValue::Integer(2)),
        ("Ap,Bar", s("x")),
    ]);
    let mut r = TSSRequest::with_uuid("U".to_string());
    r.add_ap_personalization_identifiers(&ids);
    assert_eq!(keys(r.dictionary()), vec!["@HostPlatformInfo", "@VersionInfo", "@UUID", "Ap,Foo", "Ap,Bar"]);
}

fn component(trusted: bool, info: Vec<(&str, PlistValue)>) -> PlistValue {
    PlistValue::Dictionary(dict(vec![
        ("Digest", PlistValue::Data(vec![5])),
        ("Trusted", PlistValue::Boolean(trusted)),
        ("Info", PlistValue::Dictionary(dict(info))),
    ]))
}

#[test]
fn ap_manifest_tags_skip_components() {
    let rules = PlistValue::Array(vec![]);
    let manifest = dict(vec![
        ("KernelCache", component(true, vec![("RestoreRequestRules", PlistValue::Array(vec![]))])),
        ("BasebandFirmware", component(true, vec![("RestoreRequestRules", PlistValue::Array(vec![]))])),
        ("Cryptex1,SystemOS", component(true, vec![("RestoreRequestRules", PlistValue::Array(vec![]))])),
        ("NoRules", component(true, vec![])),
        ("FTAB", component(true, vec![("RestoreRequestRules", PlistValue::Array(vec![])), ("IsFTAB", PlistValue::Boolean(true))])),
    ]);
    let identity = dict(vec![("Manifest", PlistValue::Dictionary(manifest))]);
    let params = dict(vec![("ApSupportsImg4", PlistValue::Boolean(true))]);
    let mut r = TSSRequest::with_uuid("U".to_string());
    r.add_ap_manifest_tags(&identity, &params).unwrap();
    let d = r.dictionary();
    assert_eq!(keys(d), vec!["@HostPlatformInfo", "@VersionInfo", "@UUID", "KernelCache"]);
    let kc = d.get("KernelCache").and_then(|v| v.as_dictionary()).unwrap();
    assert!(kc.get("Info").is_none());
    assert_eq!(kc.get("Digest").and_then(|v| v.as_data()), Some(&vec![5]));
    let mut r2 = TSSRequest::with_uuid("U".to_string());
    assert!(matches!(r2.add_ap_manifest_tags(&PlistDict::new(), &params), Err(IdeviceError::BadBuildManifest)));
}

#[test]
fn baseband_tags_drop_partial_digests_for_chip_0x68() {
    let bbfw = PlistValue::Dictionary(dict(vec![
        ("Info", PlistValue::Dictionary(PlistDict::new())),
        ("PSI-PartialDigest", PlistValue::Data(vec![1])),
        ("RestorePSI-PartialDigest", PlistValue::Data(vec![2])),
        ("PSI2-PartialDigest", PlistValue::Data(vec![3])),
    ]));
    let params = dict(vec![
        ("BbChipID", PlistValue::Integer(0x68)),
        ("BbGoldCertId", PlistValue::Integer(0x26F3_FACC)),
        ("Manifest", PlistValue::Dictionary(dict(vec![("BasebandFirmware", bbfw)]))),
    ]);
    let mut r = TSSRequest::with_uuid("U".to_string());
    r.add_baseband_tags(&params);
    let d = r.dictionary();
    assert_eq!(get_bool(d, "@BBTicket"), Some(true));
    assert_eq!(get_int(d, "BbChipID"), Some(0x68));
    let b = d.get("BasebandFirmware").and_then(|v| v.as_dictionary()).unwrap();
    assert!(b.get("Info").is_none());
    assert!(b.get("PSI2-PartialDigest").is_none());
    assert!(b.get("PSI-PartialDigest").is_some());
}

#[test]
fn populate_from_manifest_adds_trusted_components() {
    let manifest = dict(vec![
        ("A", component(true, vec![])),
        ("B", component(false, vec![])),
        ("C", PlistValue::Dictionary(dict(vec![
            ("Trusted", PlistValue::Boolean(true)),
            ("Info", PlistValue::Dictionary(PlistDict::new())),
        ]))),
    ]);
    let identity = dict(vec![("Manifest", PlistValue::Dictionary(manifest))]);
    let mut r = TSSRequest::with_uuid("U".to_string());
    r.populate_from_manifest(&identity, &PlistDict::new(), None).unwrap();
    let d = r.dictionary();
    assert_eq!(keys(d), vec!["@HostPlatformInfo", "@VersionInfo", "@UUID", "A", "C"]);
    let c = d.get("C").and_then(|v| v.as_dictionary()).unwrap();
    assert_eq!(c.get("Digest").and_then(|v| v.as_data()), Some(&vec![]));
}

#[test]
fn personalization_request_for_matching_identity() {
    let ids = dict(vec![
        ("BoardId", PlistValue::Integer(8)),
        ("ChipID", PlistValue::Integer(0x8030)),
        ("Ap,Thing", PlistValue::Integer(1)),
    ]);
    assert_eq!(personalization_ids(&ids).unwrap(), (8, 0x8030));
    let rule = PlistValue::Dictionary(dict(vec![
        ("Conditions", PlistValue::Dictionary(dict(vec![("ApRawProductionMode", PlistValue::Boolean(true))]))),
        ("Actions", PlistValue::Dictionary(dict(vec![("EPRO", PlistValue::Boolean(true))]))),
    ]));
    let manifest = dict(vec![
        ("LoadableTrustCache", component(true, vec![("RestoreRequestRules", PlistValue::Array(vec![rule]))])),
        ("PersonalizedDMG", PlistValue::Dictionary(dict(vec![
            ("Trusted", PlistValue::Boolean(true)),
            ("Info", PlistValue::Dictionary(PlistDict::new())),
        ]))),
    ]);
    let identity = PlistValue::Dictionary(dict(vec![
        ("ApBoardID", s("0x08")),
        ("ApChipID", s("0x8030")),
        ("Manifest", PlistValue::Dictionary(manifest)),
    ]));
    let build_manifest = manifest_with_identities(vec![identity]);
    let req = build_personalization_request(TSSRequest::with_uuid("U".to_string()), &ids, vec![4; 32], &build_manifest, 77).unwrap();
    let d = req.dictionary();
    assert_eq!(get_int(d, "Ap,Thing"), Some(1));
    assert_eq!(get_int(d, "ApECID"), Some(77));
    assert_eq!(d.get("SepNonce").and_then(|v| v.as_data()), Some(&vec![0; 20]));
    let dmg = d.get("PersonalizedDMG").and_then(|v| v.as_dictionary()).unwrap();
    assert_eq!(dmg.get("Digest").and_then(|v| v.as_data()), Some(&vec![]));
    assert_eq!(get_bool(dmg, "EPRO"), Some(true));
    let wrong_ids = dict(vec![("BoardId", PlistValue::Integer(8))]);
    assert!(matches!(
        build_personalization_request(TSSRequest::with_uuid("U".to_string()), &wrong_ids, vec![], &build_manifest, 1),
        Err(IdeviceError::UnexpectedResponse)
    ));
    let other_board = dict(vec![("BoardId", PlistValue::Integer(9)), ("ChipID", PlistValue::Integer(0x8030))]);
    assert!(matches!(
        build_personalization_request(TSSRequest::with_uuid("U".to_string()), &other_board, vec![], &build_manifest, 1),
        Err(IdeviceError::BadBuildManifest)
    ));
}

#[test]
fn utf8_encoding_matches_std() {
    for text in ["", "abc", "é", "日本", "𝄞x"] {
        assert_eq!(utf8_encode(text), text.as_bytes().to_vec());
    }
}
