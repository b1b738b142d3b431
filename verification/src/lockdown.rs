//! Lockdown: the requests a host sends to `lockdownd` and the checks on its
//! replies.

use vstd::prelude::*;

use crate::error::IdeviceError;
use crate::plist::{
    inserted, lookup, view_bool, view_string, view_unsigned, PlistDict, PlistValue, PlistView,
};
use crate::restore::options::{dict_from, dict_from_pairs, pair_views};
use crate::text::{parse_usize, str_chars, unsigned_digits, is_decimal_digit, decimal_value};
use vstd::string::StringExecFns;

verus! {

/// The TCP port lockdown listens on.
pub const LOCKDOWND_PORT: u16 = 62078;

/// The view of an optional string slice.
pub open spec fn opt_str(v: Option<&str>) -> Option<Seq<char>> {
    match v {
        Some(s) => Some(s@),
        None => None,
    }
}

/// A string entry.
pub open spec fn string_entry(key: Seq<char>, s: Seq<char>) -> (Seq<char>, PlistView) {
    (key, PlistView::String(s))
}

/// The entry of an optional string under `key`: none when absent.
pub open spec fn opt_string_entry(key: Seq<char>, v: Option<Seq<char>>) -> Seq<(Seq<char>, PlistView)> {
    match v {
        Some(s) => seq![string_entry(key, s)],
        None => Seq::empty(),
    }
}

/// The label and request name every lockdown request starts with.
pub open spec fn labelled(label: Seq<char>, request: Seq<char>) -> Seq<(Seq<char>, PlistView)> {
    seq![string_entry("Label"@, label), string_entry("Request"@, request)]
}

/// Appends a pair.
pub(crate) fn push_pair<'a>(pairs: &mut Vec<(&'a str, PlistValue)>, key: &'a str, value: PlistValue)
    ensures
        pair_views(final(pairs)@) == pair_views(old(pairs)@).push((key@, value@)),
{
    let ghost before = pairs@;
    pairs.push((key, value));
    assert(pair_views(pairs@) =~= pair_views(before).push((key@, value@)));
}

/// Appends a string entry when the string is given.
pub(crate) fn push_opt_string<'a>(pairs: &mut Vec<(&'a str, PlistValue)>, key: &'a str, v: Option<&str>)
    ensures
        pair_views(final(pairs)@) == pair_views(old(pairs)@) + opt_string_entry(key@, opt_str(v)),
{
    let ghost before = pairs@;
    match v {
        Some(s) => {
            push_pair(pairs, key, PlistValue::String(String::from_str(s)));
            assert(pair_views(pairs@) =~= pair_views(before) + opt_string_entry(key@, opt_str(v)));
        },
        None => {
            assert(pair_views(pairs@) =~= pair_views(before) + opt_string_entry(key@, opt_str(v)));
        },
    }
}

/// The pairs of a label and a request name.
fn labelled_pairs<'a>(label: &str, request: &str) -> (r: Vec<(&'a str, PlistValue)>)
    ensures
        pair_views(r@) == labelled(label@, request@),
{
    let mut pairs: Vec<(&'a str, PlistValue)> = Vec::new();
    push_pair(&mut pairs, "Label", PlistValue::String(String::from_str(label)));
    push_pair(&mut pairs, "Request", PlistValue::String(String::from_str(request)));
    assert(pair_views(pairs@) =~= labelled(label@, request@));
    pairs
}

/// The `GetValue` request: `Key` and `Domain` are sent when given.
pub fn get_value_request(label: &str, key: Option<&str>, domain: Option<&str>) -> (r: PlistDict)
    ensures
        r@ == dict_from(
            labelled(label@, "GetValue"@) + opt_string_entry("Key"@, opt_str(key)) + opt_string_entry(
                "Domain"@,
                opt_str(domain),
            ),
        ),
{
    let mut pairs = labelled_pairs(label, "GetValue");
    push_opt_string(&mut pairs, "Key", key);
    push_opt_string(&mut pairs, "Domain", domain);
    dict_from_pairs(pairs)
}

/// The value a `GetValue` reply carries under `Value`; a reply without one
/// is unexpected.
pub fn value_of_reply(reply: &PlistDict) -> (r: Result<PlistValue, IdeviceError>)
    ensures
        match lookup(reply@, "Value"@) {
            Some(v) => r matches Ok(x) && x@ == v,
            None => r matches Err(IdeviceError::UnexpectedResponse),
        },
{
    match reply.get("Value") {
        Some(v) => Ok(v.deep_clone()),
        None => Err(IdeviceError::UnexpectedResponse),
    }
}

/// The `SetValue` request: `Domain` is sent when given.
pub fn set_value_request(label: &str, key: &str, value: PlistValue, domain: Option<&str>) -> (r: PlistDict)
    ensures
        r@ == dict_from(
            labelled(label@, "SetValue"@) + seq![string_entry("Key"@, key@), ("Value"@, value@)]
                + opt_string_entry("Domain"@, opt_str(domain)),
        ),
{
    let ghost v = value@;
    let mut pairs = labelled_pairs(label, "SetValue");
    push_pair(&mut pairs, "Key", PlistValue::String(String::from_str(key)));
    push_pair(&mut pairs, "Value", value);
    let ghost mid = pair_views(pairs@);
    push_opt_string(&mut pairs, "Domain", domain);
    assert(mid =~= labelled(label@, "SetValue"@) + seq![string_entry("Key"@, key@), ("Value"@, v)]);
    dict_from_pairs(pairs)
}

/// The `RemoveValue` request: `Domain` is sent when given.
pub fn remove_value_request(label: &str, key: &str, domain: Option<&str>) -> (r: PlistDict)
    ensures
        r@ == dict_from(
            labelled(label@, "RemoveValue"@) + seq![string_entry("Key"@, key@)] + opt_string_entry(
                "Domain"@,
                opt_str(domain),
            ),
        ),
{
    let mut pairs = labelled_pairs(label, "RemoveValue");
    push_pair(&mut pairs, "Key", PlistValue::String(String::from_str(key)));
    let ghost mid = pair_views(pairs@);
    push_opt_string(&mut pairs, "Domain", domain);
    assert(mid =~= labelled(label@, "RemoveValue"@) + seq![string_entry("Key"@, key@)]);
    dict_from_pairs(pairs)
}

/// The `Unpair` request, carrying the host's `HostID` in a `PairRecord`.
pub fn unpair_request(label: &str, host_id: &str) -> (r: PlistDict)
    ensures
        r@ == dict_from(
            labelled(label@, "Unpair"@) + seq![
                ("PairRecord"@, PlistView::Dictionary(seq![string_entry("HostID"@, host_id@)])),
            ],
        ),
{
    let mut record = PlistDict::new();
    record.insert(String::from_str("HostID"), PlistValue::String(String::from_str(host_id)));
    assert(record@ =~= seq![string_entry("HostID"@, host_id@)]);
    let ghost rv = record@;
    let mut pairs = labelled_pairs(label, "Unpair");
    push_pair(&mut pairs, "PairRecord", PlistValue::Dictionary(record));
    assert(pair_views(pairs@) =~= labelled(label@, "Unpair"@) + seq![
        ("PairRecord"@, PlistView::Dictionary(rv)),
    ]);
    dict_from_pairs(pairs)
}

/// Whether a reply reports a failure: it carries an `Error` string.
pub open spec fn reports_error(reply: Seq<(Seq<char>, PlistView)>) -> bool {
    view_string(lookup(reply, "Error"@)) is Some
}

/// Checks a reply to `RemoveValue`, `Unpair` or `StopSession`: one with an
/// `Error` string is a failure.
pub fn check_reply(reply: &PlistDict) -> (r: Result<(), IdeviceError>)
    ensures
        reports_error(reply@) ==> r matches Err(IdeviceError::UnexpectedResponse),
        !reports_error(reply@) ==> r is Ok,
{
    match reply.get("Error") {
        Some(PlistValue::String(_)) => Err(IdeviceError::UnexpectedResponse),
        _ => Ok(()),
    }
}

/// Where the first `.` of a string is at or after `i`, or its length.
pub open spec fn dot_from(s: Seq<char>, i: nat) -> nat
    decreases s.len() - i,
{
    if i >= s.len() {
        s.len()
    } else if s[i as int] == '.' {
        i
    } else {
        dot_from(s, i + 1)
    }
}

/// What `str::parse::<u8>` gives: an optional `+`, then one or more decimal
/// digits whose value fits.
pub open spec fn parse_u8_spec(s: Seq<char>) -> Option<u8> {
    let d = unsigned_digits(s);
    if d.len() > 0 && (forall|i: int| 0 <= i < d.len() ==> is_decimal_digit(#[trigger] d[i]))
        && decimal_value(d) <= u8::MAX {
        Some(decimal_value(d) as u8)
    } else {
        None
    }
}

/// Whether a product version belongs to a device older than iOS 5: its
/// text up to the first `.` is a `u8` below 5. Without a version, or with
/// one whose first part is no number, it is not.
pub open spec fn legacy_version(version: Option<Seq<char>>) -> bool {
    match version {
        Some(v) => match parse_u8_spec(v.take(dot_from(v, 0) as int)) {
            Some(major) => major < 5,
            None => false,
        },
        None => false,
    }
}

/// Whether the device needs the legacy session settings, by its
/// `ProductVersion`.
pub fn is_legacy_version(version: Option<&str>) -> (r: bool)
    ensures
        r == legacy_version(opt_str(version)),
{
    match version {
        None => false,
        Some(v) => {
            let chars = str_chars(v);
            let n = chars.len();
            let mut i: usize = 0;
            while i < n && chars[i] != '.'
                invariant
                    n == chars@.len(),
                    chars@ == v@,
                    i <= n,
                    dot_from(v@, 0) == dot_from(v@, i as nat),
                decreases n - i,
            {
                assert(dot_from(v@, i as nat) == dot_from(v@, (i + 1) as nat));
                i = i + 1;
            }
            assert(dot_from(v@, i as nat) == i);
            assert(chars@.subrange(0, i as int) =~= v@.take(i as int));
            match parse_usize(chars.as_slice(), 0, i) {
                Some(major) => major < 5,
                None => false,
            }
        },
    }
}

/// The `StartSession` request, with the pairing record's host and system
/// identifiers.
pub fn start_session_request(label: &str, host_id: &str, system_buid: &str) -> (r: PlistDict)
    ensures
        r@ == dict_from(
            labelled(label@, "StartSession"@) + seq![
                string_entry("HostID"@, host_id@),
                string_entry("SystemBUID"@, system_buid@),
            ],
        ),
{
    let mut pairs = labelled_pairs(label, "StartSession");
    push_pair(&mut pairs, "HostID", PlistValue::String(String::from_str(host_id)));
    push_pair(&mut pairs, "SystemBUID", PlistValue::String(String::from_str(system_buid)));
    assert(pair_views(pairs@) =~= labelled(label@, "StartSession"@) + seq![
        string_entry("HostID"@, host_id@),
        string_entry("SystemBUID"@, system_buid@),
    ]);
    dict_from_pairs(pairs)
}

/// The view of an optional string.
pub open spec fn opt_string(v: Option<String>) -> Option<Seq<char>> {
    match v {
        Some(s) => Some(s@),
        None => None,
    }
}

/// Checks the reply to `StartSession`: the session must enable SSL; the
/// `SessionID` it carries, if a string, is returned.
pub fn session_reply(reply: &PlistDict) -> (r: Result<Option<String>, IdeviceError>)
    ensures
        view_bool(lookup(reply@, "EnableSessionSSL"@)) == Some(true) ==> (r matches Ok(id) && opt_string(id)
            == view_string(lookup(reply@, "SessionID"@))),
        view_bool(lookup(reply@, "EnableSessionSSL"@)) != Some(true) ==> r matches Err(
            IdeviceError::UnexpectedResponse,
        ),
{
    match reply.get("EnableSessionSSL") {
        Some(PlistValue::Boolean(true)) => {},
        _ => return Err(IdeviceError::UnexpectedResponse),
    }
    match reply.get("SessionID") {
        Some(PlistValue::String(id)) => Ok(Some(id.clone())),
        _ => Ok(None),
    }
}

/// The `StopSession` request, with the session's identifier when there is
/// one.
pub fn stop_session_request(label: &str, session_id: Option<&str>) -> (r: PlistDict)
    ensures
        r@ == dict_from(labelled(label@, "StopSession"@) + opt_string_entry("SessionID"@, opt_str(session_id))),
{
    let mut pairs = labelled_pairs(label, "StopSession");
    push_opt_string(&mut pairs, "SessionID", session_id);
    dict_from_pairs(pairs)
}

/// The `StartService` request: an escrow bag, when given, unlocks the
/// device's data protection for the service.
pub fn start_service_request(identifier: &str, escrow_bag: Option<Vec<u8>>) -> (r: PlistDict)
    ensures
        r@ == dict_from(
            seq![string_entry("Request"@, "StartService"@), string_entry("Service"@, identifier@)]
                + match escrow_bag {
                Some(b) => seq![("EscrowBag"@, PlistView::Data(b@))],
                None => Seq::empty(),
            },
        ),
{
    let mut pairs: Vec<(&str, PlistValue)> = Vec::new();
    push_pair(&mut pairs, "Request", PlistValue::String(String::from_str("StartService")));
    push_pair(&mut pairs, "Service", PlistValue::String(String::from_str(identifier)));
    let ghost head = pair_views(pairs@);
    assert(head =~= seq![string_entry("Request"@, "StartService"@), string_entry("Service"@, identifier@)]);
    match escrow_bag {
        Some(bag) => {
            let ghost b = bag@;
            push_pair(&mut pairs, "EscrowBag", PlistValue::Data(bag));
            assert(pair_views(pairs@) =~= head + seq![("EscrowBag"@, PlistView::Data(b))]);
        },
        None => {
            assert(pair_views(pairs@) =~= head + Seq::<(Seq<char>, PlistView)>::empty());
        },
    }
    dict_from_pairs(pairs)
}

/// Reads the reply to `StartService`: the port (its low 16 bits) and
/// whether to use SSL (`false` when the reply does not say, as over USB).
/// A reply without an unsigned `Port` is unexpected.
pub fn service_reply(reply: &PlistDict) -> (r: Result<(u16, bool), IdeviceError>)
    ensures
        match view_unsigned(lookup(reply@, "Port"@)) {
            Some(p) => r == Ok::<(u16, bool), IdeviceError>(
                (
                    (p % 0x1_0000) as u16,
                    view_bool(lookup(reply@, "EnableServiceSSL"@)) == Some(true),
                ),
            ),
            None => r matches Err(IdeviceError::UnexpectedResponse),
        },
{
    let ssl = match reply.get("EnableServiceSSL") {
        Some(PlistValue::Boolean(b)) => *b,
        _ => false,
    };
    match reply.get("Port") {
        Some(v) => match v.as_unsigned_integer() {
            Some(p) => Ok(((p % 0x1_0000) as u16, ssl)),
            None => Err(IdeviceError::UnexpectedResponse),
        },
        None => Err(IdeviceError::UnexpectedResponse),
    }
}

/// What a pair request needs from the device: its public key (data) and its
/// Wi-Fi address (a string), from the two `GetValue` answers.
pub fn pair_inputs(public_key: &PlistValue, wifi_address: &PlistValue) -> (r: Result<
    (Vec<u8>, String),
    IdeviceError,
>)
    ensures
        match (public_key@, wifi_address@) {
            (PlistView::Data(k), PlistView::String(w)) => r matches Ok((a, b)) && a@ == k && b@ == w,
            _ => r matches Err(IdeviceError::UnexpectedResponse),
        },
{
    let key = match public_key {
        PlistValue::Data(k) => k.clone(),
        _ => return Err(IdeviceError::UnexpectedResponse),
    };
    match wifi_address {
        PlistValue::String(w) => Ok((key, w.clone())),
        _ => Err(IdeviceError::UnexpectedResponse),
    }
}

/// The entries of the host's pair record, before the device accepts it.
pub open spec fn pair_record_entries(
    device_public_key: Seq<u8>,
    device_certificate: Seq<u8>,
    host_certificate: Seq<u8>,
    host_id: Seq<char>,
    root_private_key: Seq<u8>,
    wifi_mac: Seq<char>,
    system_buid: Seq<char>,
) -> Seq<(Seq<char>, PlistView)> {
    seq![
        ("DevicePublicKey"@, PlistView::Data(device_public_key)),
        ("DeviceCertificate"@, PlistView::Data(device_certificate)),
        ("HostCertificate"@, PlistView::Data(host_certificate)),
        string_entry("HostID"@, host_id),
        ("RootCertificate"@, PlistView::Data(host_certificate)),
        ("RootPrivateKey"@, PlistView::Data(root_private_key)),
        string_entry("WiFiMACAddress"@, wifi_mac),
        string_entry("SystemBUID"@, system_buid),
    ]
}

/// The host's pair record: the device's key, the certificates made for it
/// (the host certificate also serves as the root certificate), the host's
/// identity and the root private key. The host private key is added once
/// the device accepts.
pub fn pair_record(
    device_public_key: Vec<u8>,
    device_certificate: Vec<u8>,
    host_certificate: Vec<u8>,
    host_id: &str,
    root_private_key: Vec<u8>,
    wifi_mac: &str,
    system_buid: &str,
) -> (r: PlistDict)
    ensures
        r@ == dict_from(
            pair_record_entries(
                device_public_key@,
                device_certificate@,
                host_certificate@,
                host_id@,
                root_private_key@,
                wifi_mac@,
                system_buid@,
            ),
        ),
{
    let ghost e = pair_record_entries(
        device_public_key@,
        device_certificate@,
        host_certificate@,
        host_id@,
        root_private_key@,
        wifi_mac@,
        system_buid@,
    );
    let root_certificate = vstd::slice::slice_to_vec(host_certificate.as_slice());
    let mut pairs: Vec<(&str, PlistValue)> = Vec::new();
    push_pair(&mut pairs, "DevicePublicKey", PlistValue::Data(device_public_key));
    push_pair(&mut pairs, "DeviceCertificate", PlistValue::Data(device_certificate));
    push_pair(&mut pairs, "HostCertificate", PlistValue::Data(host_certificate));
    push_pair(&mut pairs, "HostID", PlistValue::String(String::from_str(host_id)));
    push_pair(&mut pairs, "RootCertificate", PlistValue::Data(root_certificate));
    push_pair(&mut pairs, "RootPrivateKey", PlistValue::Data(root_private_key));
    push_pair(&mut pairs, "WiFiMACAddress", PlistValue::String(String::from_str(wifi_mac)));
    push_pair(&mut pairs, "SystemBUID", PlistValue::String(String::from_str(system_buid)));
    assert(pair_views(pairs@) =~= e);
    dict_from_pairs(pairs)
}

/// The `Pair` request: the pair record, protocol version 2 and extended
/// pairing errors; `HostName` is sent when given.
pub fn pair_request(label: &str, host_name: Option<&str>, pair_record: &PlistDict) -> (r: PlistDict)
    ensures
        r@ == dict_from(
            labelled(label@, "Pair"@) + opt_string_entry("HostName"@, opt_str(host_name)) + seq![
                ("PairRecord"@, PlistView::Dictionary(pair_record@)),
                string_entry("ProtocolVersion"@, "2"@),
                (
                    "PairingOptions"@,
                    PlistView::Dictionary(seq![("ExtendedPairingErrors"@, PlistView::Boolean(true))]),
                ),
            ],
        ),
{
    let mut options = PlistDict::new();
    options.insert(String::from_str("ExtendedPairingErrors"), PlistValue::Boolean(true));
    assert(options@ =~= seq![("ExtendedPairingErrors"@, PlistView::Boolean(true))]);
    let ghost ov = options@;
    let mut pairs = labelled_pairs(label, "Pair");
    push_opt_string(&mut pairs, "HostName", host_name);
    let ghost mid = pair_views(pairs@);
    push_pair(&mut pairs, "PairRecord", PlistValue::Dictionary(pair_record.deep_clone()));
    push_pair(&mut pairs, "ProtocolVersion", PlistValue::String(String::from_str("2")));
    push_pair(&mut pairs, "PairingOptions", PlistValue::Dictionary(options));
    assert(pair_views(pairs@) =~= mid + seq![
        ("PairRecord"@, PlistView::Dictionary(pair_record@)),
        string_entry("ProtocolVersion"@, "2"@),
        ("PairingOptions"@, PlistView::Dictionary(ov)),
    ]);
    dict_from_pairs(pairs)
}

/// The pair record once the device has accepted: the host private key
/// added, and the device's escrow bag when its reply carries one.
pub fn accepted_pair_record(pair_record: PlistDict, host_private_key: Vec<u8>, reply: &PlistDict) -> (r: PlistDict)
    ensures
        r@ == ({
            let with_key = inserted(pair_record@, "HostPrivateKey"@, PlistView::Data(host_private_key@));
            match lookup(reply@, "EscrowBag"@) {
                Some(PlistView::Data(bag)) => inserted(with_key, "EscrowBag"@, PlistView::Data(bag)),
                _ => with_key,
            }
        }),
{
    let mut record = pair_record;
    record.insert(String::from_str("HostPrivateKey"), PlistValue::Data(host_private_key));
    match reply.get("EscrowBag") {
        Some(PlistValue::Data(bag)) => {
            record.insert(String::from_str("EscrowBag"), PlistValue::Data(bag.clone()));
        },
        _ => {},
    }
    record
}

/// The request that sends the device to recovery mode.
pub fn enter_recovery_request() -> (r: PlistDict)
    ensures
        r@ == seq![string_entry("Request"@, "EnterRecovery"@)],
{
    let mut d = PlistDict::new();
    d.insert(String::from_str("Request"), PlistValue::String(String::from_str("EnterRecovery")));
    assert(d@ =~= seq![string_entry("Request"@, "EnterRecovery"@)]);
    d
}

/// Checks the reply to `EnterRecovery`: the device acknowledges by echoing
/// the request's name.
pub fn enter_recovery_reply(reply: &PlistDict) -> (r: Result<(), IdeviceError>)
    ensures
        view_string(lookup(reply@, "Request"@)) == Some("EnterRecovery"@) ==> r is Ok,
        view_string(lookup(reply@, "Request"@)) != Some("EnterRecovery"@) ==> r matches Err(
            IdeviceError::UnexpectedResponse,
        ),
{
    match reply.get("Request") {
        Some(PlistValue::String(s)) => {
            if crate::text::str_equal(s.as_str(), "EnterRecovery") {
                Ok(())
            } else {
                Err(IdeviceError::UnexpectedResponse)
            }
        },
        _ => Err(IdeviceError::UnexpectedResponse),
    }
}

} // verus!
