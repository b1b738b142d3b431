use idevice::pairing::envelope::{json_quote, pairing_reply_data, pairing_request, verify_start_request};
use idevice::pairing::verify::{verify_start_data, RpPairingFile};
use idevice::plist::{PlistDict, PlistValue};

fn obj(entries: Vec<(&str, PlistValue)>) -> PlistValue {
    let mut d = PlistDict::new();
    for (k, v) in entries {
        d.insert(k.to_string(), v);
    }
    PlistValue::Dictionary(d)
}

#[test]
fn pairing_requests_are_framed_as_plain_events() {
    assert_eq!(
        pairing_request(3, "QUJD", true),
        "{\"sequenceNumber\":3,\"originatedBy\":\"host\",\"message\":{\"plain\":{\"_0\":{\"event\":{\"_0\":{\"pairingData\":{\"_0\":{\"data\":\"QUJD\",\"kind\":\"verifyManualPairing\",\"startNewSession\":true}}}}}}}}"
    );
    assert!(pairing_request(0, "", false).ends_with("\"data\":\"\",\"kind\":\"verifyManualPairing\",\"startNewSession\":false}}}}}}}}"));
    let pairing = RpPairingFile::from_secrets([1; 32], [2; 32], "HOST-ID".to_string());
    let start = verify_start_request(&pairing, 7);
    assert_eq!(start, pairing_request(7, &verify_start_data(&pairing), true));
}

#[test]
fn json_strings_are_escaped() {
    assert_eq!(json_quote("a\"b\\c"), "\"a\\\"b\\\\c\"");
    assert_eq!(json_quote("\n\t\r\u{8}\u{c}\u{1}\u{1f}/é"), "\"\\n\\t\\r\\b\\f\\u0001\\u001f/é\"");
    assert_eq!(json_quote(""), "\"\"");
}

#[test]
fn reply_data_is_read_from_its_path() {
    let data = |v: PlistValue| {
        let mut inner = obj(vec![("data", v), ("kind", PlistValue::String("k".to_string()))]);
        for key in ["_0", "pairingData", "_0", "event", "_0", "plain"] {
            inner = obj(vec![(key, inner)]);
        }
        obj(vec![("x", PlistValue::Integer(1)), ("message", inner)])
    };
    let reply = data(PlistValue::String("BgEC".to_string()));
    assert_eq!(pairing_reply_data(&reply), Some("BgEC"));
    assert_eq!(pairing_reply_data(&data(PlistValue::Integer(4))), None);
    assert_eq!(pairing_reply_data(&obj(vec![("message", PlistValue::String("m".to_string()))])), None);
    assert_eq!(pairing_reply_data(&PlistValue::String("x".to_string())), None);
}

fn wrap(key: &str, inner: json::JsonValue) -> json::JsonValue {
    let mut o = json::JsonValue::new_object();
    o.insert(key, inner).unwrap();
    o
}

#[test]
fn pairing_request_matches_the_json_crate() {
    let data = "a\"\u{2}é/=";
    let mut pd = json::JsonValue::new_object();
    pd.insert("data", data).unwrap();
    pd.insert("kind", "verifyManualPairing").unwrap();
    pd.insert("startNewSession", false).unwrap();
    let event = wrap("event", wrap("_0", wrap("pairingData", wrap("_0", pd))));
    let mut req = json::JsonValue::new_object();
    req.insert("sequenceNumber", 12usize).unwrap();
    req.insert("originatedBy", "host").unwrap();
    req.insert("message", wrap("plain", wrap("_0", event))).unwrap();
    assert_eq!(pairing_request(12, data, false), req.to_string());
}
