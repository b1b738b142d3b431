use idevice::error::IdeviceError;
use idevice::lockdown::{
    accepted_pair_record, check_reply, enter_recovery_reply, enter_recovery_request,
    get_value_request, is_legacy_version, pair_inputs, pair_record, pair_request,
    remove_value_request, service_reply, session_reply, set_value_request,
    start_service_request, start_session_request, stop_session_request, unpair_request,
    value_of_reply, LOCKDOWND_PORT,
};
use idevice::plist::{PlistDict, PlistValue};

fn dict(pairs: Vec<(&str, PlistValue)>) -> PlistDict {
    let mut d = PlistDict::new();
    for (k, v) in pairs {
        d.insert(k.to_string(), v);
    }
    d
}

fn s(x: &str) -> PlistValue {
    PlistValue::String(x.to_string())
}

fn keys(d: &PlistDict) -> Vec<String> {
    (0..d.len()).map(|i| d.entry(i).0.clone()).collect()
}

fn string_at(d: &PlistDict, key: &str) -> Option<String> {
    match d.get(key) {
        Some(PlistValue::String(x)) => Some(x.clone()),
        _ => None,
    }
}

#[test]
fn lockdown_port() {
    assert_eq!(LOCKDOWND_PORT, 62078);
}

#[test]
fn get_value_requests() {
    let r = get_value_request("tool", Some("DeviceName"), None);
    assert_eq!(keys(&r), vec!["Label", "Request", "Key"]);
    assert_eq!(string_at(&r, "Request").as_deref(), Some("GetValue"));
    assert_eq!(string_at(&r, "Label").as_deref(), Some("tool"));
    let r = get_value_request("tool", None, Some("com.apple.disk_usage"));
    assert_eq!(keys(&r), vec!["Label", "Request", "Domain"]);
    let reply = dict(vec![("Value", s("iPhone"))]);
    assert!(matches!(value_of_reply(&reply), Ok(PlistValue::String(x)) if x == "iPhone"));
    assert!(matches!(value_of_reply(&PlistDict::new()), Err(IdeviceError::UnexpectedResponse)));
}

#[test]
fn value_changing_requests() {
    let r = set_value_request("tool", "EnableWifiDebugging", PlistValue::Boolean(true), Some("com.apple.mobile.wireless_lockdown"));
    assert_eq!(keys(&r), vec!["Label", "Request", "Key", "Value", "Domain"]);
    assert!(matches!(r.get("Value"), Some(PlistValue::Boolean(true))));
    let r = remove_value_request("tool", "K", None);
    assert_eq!(keys(&r), vec!["Label", "Request", "Key"]);
    assert_eq!(string_at(&r, "Request").as_deref(), Some("RemoveValue"));
    let r = unpair_request("tool", "HOST");
    match r.get("PairRecord") {
        Some(PlistValue::Dictionary(p)) => assert_eq!(string_at(p, "HostID").as_deref(), Some("HOST")),
        other => panic!("unexpected {other:?}"),
    }
    assert!(check_reply(&PlistDict::new()).is_ok());
    assert!(check_reply(&dict(vec![("Error", PlistValue::Integer(3))])).is_ok());
    assert!(matches!(check_reply(&dict(vec![("Error", s("InvalidHostID"))])), Err(IdeviceError::UnexpectedResponse)));
}

#[test]
fn legacy_versions() {
    assert!(is_legacy_version(Some("4.3.5")));
    assert!(is_legacy_version(Some("4")));
    assert!(!is_legacy_version(Some("5.0")));
    assert!(!is_legacy_version(Some("17.2.1")));
    assert!(!is_legacy_version(Some("x.1")));
    assert!(!is_legacy_version(Some("300.1")));
    assert!(is_legacy_version(Some("+3.1")));
    assert!(!is_legacy_version(Some("")));
    assert!(!is_legacy_version(None));
}

#[test]
fn sessions() {
    let r = start_session_request("tool", "HOST", "BUID");
    assert_eq!(keys(&r), vec!["Label", "Request", "HostID", "SystemBUID"]);
    let ok = dict(vec![("EnableSessionSSL", PlistValue::Boolean(true)), ("SessionID", s("S1"))]);
    assert_eq!(session_reply(&ok).unwrap().as_deref(), Some("S1"));
    let no_id = dict(vec![("EnableSessionSSL", PlistValue::Boolean(true))]);
    assert_eq!(session_reply(&no_id).unwrap(), None);
    let off = dict(vec![("EnableSessionSSL", PlistValue::Boolean(false))]);
    assert!(matches!(session_reply(&off), Err(IdeviceError::UnexpectedResponse)));
    assert!(matches!(session_reply(&PlistDict::new()), Err(IdeviceError::UnexpectedResponse)));
    assert_eq!(keys(&stop_session_request("tool", Some("S1"))), vec!["Label", "Request", "SessionID"]);
    assert_eq!(keys(&stop_session_request("tool", None)), vec!["Label", "Request"]);
}

#[test]
fn services() {
    let r = start_service_request("com.apple.mobilebackup2", Some(vec![1, 2]));
    assert_eq!(keys(&r), vec!["Request", "Service", "EscrowBag"]);
    assert_eq!(keys(&start_service_request("com.apple.afc", None)), vec!["Request", "Service"]);
    let reply = dict(vec![("Port", PlistValue::Integer(49152)), ("EnableServiceSSL", PlistValue::Boolean(true))]);
    assert_eq!(service_reply(&reply).unwrap(), (49152, true));
    let usb = dict(vec![("Port", PlistValue::Integer(0x1_0000 + 7))]);
    assert_eq!(service_reply(&usb).unwrap(), (7, false));
    assert!(matches!(service_reply(&dict(vec![("Port", PlistValue::Integer(-1))])), Err(IdeviceError::UnexpectedResponse)));
    assert!(matches!(service_reply(&PlistDict::new()), Err(IdeviceError::UnexpectedResponse)));
}

#[test]
fn pairing_requests() {
    let (key, wifi) = pair_inputs(&PlistValue::Data(vec![9]), &s("aa:bb")).unwrap();
    assert_eq!(key, vec![9]);
    assert_eq!(wifi, "aa:bb");
    assert!(pair_inputs(&s("no"), &s("aa:bb")).is_err());
    assert!(pair_inputs(&PlistValue::Data(vec![9]), &PlistValue::Integer(1)).is_err());

    let record = pair_record(vec![1], vec![2], vec![3], "HOST", vec![4], "aa:bb", "BUID");
    assert_eq!(
        keys(&record),
        vec![
            "DevicePublicKey", "DeviceCertificate", "HostCertificate", "HostID",
            "RootCertificate", "RootPrivateKey", "WiFiMACAddress", "SystemBUID"
        ]
    );
    assert!(matches!(record.get("RootCertificate"), Some(PlistValue::Data(d)) if d == &vec![3]));
    let req = pair_request("tool", Some("mac"), &record);
    assert_eq!(
        keys(&req),
        vec!["Label", "Request", "HostName", "PairRecord", "ProtocolVersion", "PairingOptions"]
    );
    assert_eq!(string_at(&req, "ProtocolVersion").as_deref(), Some("2"));
    let accepted = accepted_pair_record(record, vec![5], &dict(vec![("EscrowBag", PlistValue::Data(vec![6]))]));
    assert_eq!(keys(&accepted).len(), 10);
    assert!(matches!(accepted.get("EscrowBag"), Some(PlistValue::Data(d)) if d == &vec![6]));
    let plain = accepted_pair_record(PlistDict::new(), vec![5], &PlistDict::new());
    assert_eq!(keys(&plain), vec!["HostPrivateKey"]);
}

#[test]
fn recovery_requests() {
    assert_eq!(string_at(&enter_recovery_request(), "Request").as_deref(), Some("EnterRecovery"));
    assert!(enter_recovery_reply(&dict(vec![("Request", s("EnterRecovery"))])).is_ok());
    assert!(enter_recovery_reply(&dict(vec![("Request", s("Other"))])).is_err());
    assert!(enter_recovery_reply(&PlistDict::new()).is_err());
}
