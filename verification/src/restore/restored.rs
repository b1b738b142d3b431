//! `restored`, the service of a device booted into the restore ramdisk:
//! its requests and the checks on its replies.

use vstd::prelude::*;

use crate::error::IdeviceError;
use crate::lockdown::string_entry;
use crate::plist::{lookup, view_string, view_unsigned, PlistDict, PlistValue, PlistView};
use crate::restore::options::{dict_from, dict_from_pairs, pair_views};
use crate::usbmuxd::devices::{Connection, UsbmuxdDevice};
use vstd::string::StringExecFns;

verus! {

/// The port `restored` listens on.
pub const SERVICE_PORT: u16 = 62078;

/// The label the host gives its requests.
pub const DEFAULT_LABEL: &'static str = "idevice";

/// A request of a name, with the label.
fn labelled_request(request: &str, label: &str) -> (r: PlistDict)
    ensures
        r@ == dict_from(seq![string_entry("Request"@, request@), string_entry("Label"@, label@)]),
{
    let pairs = vec![
        ("Request", PlistValue::String(String::from_str(request))),
        ("Label", PlistValue::String(String::from_str(label))),
    ];
    assert(pair_views(pairs@) =~= seq![string_entry("Request"@, request@), string_entry("Label"@, label@)]);
    dict_from_pairs(pairs)
}

/// The request that asks what service answers.
pub fn query_type_request(label: &str) -> (r: PlistDict)
    ensures
        r@ == dict_from(seq![string_entry("Request"@, "QueryType"@), string_entry("Label"@, label@)]),
{
    labelled_request("QueryType", label)
}

/// Reads the reply to `QueryType`: the service must be `restored`; the
/// protocol version it gives replaces the current one.
pub fn query_type_reply(reply: &PlistDict, current: PlistValue) -> (r: Result<PlistValue, IdeviceError>)
    ensures
        view_string(lookup(reply@, "Type"@)) == Some("com.apple.mobile.restored"@) ==> (r matches Ok(v)
            && v@ == match lookup(reply@, "RestoreProtocolVersion"@) {
            Some(x) => x,
            None => current@,
        }),
        view_string(lookup(reply@, "Type"@)) != Some("com.apple.mobile.restored"@) ==> r matches Err(
            IdeviceError::UnexpectedResponse,
        ),
{
    match reply.get("Type") {
        Some(PlistValue::String(t)) => {
            if !crate::text::str_equal(t.as_str(), "com.apple.mobile.restored") {
                return Err(IdeviceError::UnexpectedResponse);
            }
        },
        _ => return Err(IdeviceError::UnexpectedResponse),
    }
    match reply.get("RestoreProtocolVersion") {
        Some(v) => Ok(v.deep_clone()),
        None => Ok(current),
    }
}

/// The request for one value.
pub fn query_value_request(label: &str, key: &str) -> (r: PlistDict)
    ensures
        r@ == dict_from(
            seq![
                string_entry("Request"@, "QueryValue"@),
                string_entry("Label"@, label@),
                string_entry("QueryKey"@, key@),
            ],
        ),
{
    let pairs = vec![
        ("Request", PlistValue::String(String::from_str("QueryValue"))),
        ("Label", PlistValue::String(String::from_str(label))),
        ("QueryKey", PlistValue::String(String::from_str(key))),
    ];
    assert(pair_views(pairs@) =~= seq![
        string_entry("Request"@, "QueryValue"@),
        string_entry("Label"@, label@),
        string_entry("QueryKey"@, key@),
    ]);
    dict_from_pairs(pairs)
}

/// The value a `QueryValue` reply carries under the key asked for.
pub fn query_value_reply(reply: PlistDict, key: &str) -> (r: Result<PlistValue, IdeviceError>)
    ensures
        match lookup(reply@, key@) {
            Some(v) => r matches Ok(x) && x@ == v,
            None => r matches Err(IdeviceError::UnexpectedResponse),
        },
{
    let mut reply = reply;
    match reply.remove(key) {
        Some(v) => Ok(v),
        None => Err(IdeviceError::UnexpectedResponse),
    }
}

/// The hardware information, which must be a dictionary.
pub fn hardware_info(value: PlistValue) -> (r: Result<PlistDict, IdeviceError>)
    ensures
        match value@ {
            PlistView::Dictionary(d) => r matches Ok(x) && x@ == d,
            _ => r matches Err(IdeviceError::UnexpectedResponse),
        },
{
    match value {
        PlistValue::Dictionary(d) => Ok(d),
        _ => Err(IdeviceError::UnexpectedResponse),
    }
}

/// The device's ECID: the hardware information's unsigned `UniqueChipID`.
pub fn ecid_of(hardware: &PlistDict) -> (r: Result<u64, IdeviceError>)
    ensures
        match view_unsigned(lookup(hardware@, "UniqueChipID"@)) {
            Some(e) => r == Ok::<u64, IdeviceError>(e),
            None => r matches Err(IdeviceError::UnexpectedResponse),
        },
{
    match hardware.get("UniqueChipID") {
        Some(v) => match v.as_unsigned_integer() {
            Some(e) => Ok(e),
            None => Err(IdeviceError::UnexpectedResponse),
        },
        None => Err(IdeviceError::UnexpectedResponse),
    }
}

/// The request that starts the restore, with the protocol version and the
/// options.
pub fn start_restore_request(label: &str, protocol_version: PlistValue, options: PlistDict) -> (r: PlistDict)
    ensures
        r@ == dict_from(
            seq![
                string_entry("Request"@, "StartRestore"@),
                string_entry("Label"@, label@),
                ("RestoreProtocolVersion"@, protocol_version@),
                ("RestoreOptions"@, PlistView::Dictionary(options@)),
            ],
        ),
{
    let ghost v = protocol_version@;
    let ghost o = options@;
    let pairs = vec![
        ("Request", PlistValue::String(String::from_str("StartRestore"))),
        ("Label", PlistValue::String(String::from_str(label))),
        ("RestoreProtocolVersion", protocol_version),
        ("RestoreOptions", PlistValue::Dictionary(options)),
    ];
    assert(pair_views(pairs@) =~= seq![
        string_entry("Request"@, "StartRestore"@),
        string_entry("Label"@, label@),
        ("RestoreProtocolVersion"@, v),
        ("RestoreOptions"@, PlistView::Dictionary(o)),
    ]);
    dict_from_pairs(pairs)
}

/// The request that reboots the device.
pub fn reboot_request(label: &str) -> (r: PlistDict)
    ensures
        r@ == dict_from(seq![string_entry("Request"@, "Reboot"@), string_entry("Label"@, label@)]),
{
    labelled_request("Reboot", label)
}

/// The request that ends the session.
pub fn goodbye_request(label: &str) -> (r: PlistDict)
    ensures
        r@ == dict_from(seq![string_entry("Request"@, "Goodbye"@), string_entry("Label"@, label@)]),
{
    labelled_request("Goodbye", label)
}

/// A message from `restored`, which must be a dictionary.
pub fn message_dict(value: PlistValue) -> (r: Result<PlistDict, IdeviceError>)
    ensures
        match value@ {
            PlistView::Dictionary(d) => r matches Ok(x) && x@ == d,
            _ => r matches Err(IdeviceError::UnexpectedResponse),
        },
{
    hardware_info(value)
}

/// The muxer IDs of the USB devices of a listing, in order: the ones that
/// may be the restoring device.
pub open spec fn usb_device_ids(devices: Seq<UsbmuxdDevice>) -> Seq<u32>
    decreases devices.len(),
{
    if devices.len() == 0 {
        Seq::empty()
    } else {
        let prev = usb_device_ids(devices.drop_last());
        if devices.last().connection_type is Usb {
            prev.push(devices.last().device_id)
        } else {
            prev
        }
    }
}

/// The devices to try when looking for a restoring device by its ECID.
pub fn usb_candidates(devices: &Vec<UsbmuxdDevice>) -> (r: Vec<u32>)
    ensures
        r@ == usb_device_ids(devices@),
{
    let mut out: Vec<u32> = Vec::new();
    let n = devices.len();
    let mut i: usize = 0;
    while i < n
        invariant
            n == devices@.len(),
            i <= n,
            out@ == usb_device_ids(devices@.take(i as int)),
        decreases n - i,
    {
        assert(devices@.take(i + 1).drop_last() =~= devices@.take(i as int));
        let d = &devices[i];
        match d.connection_type {
            Connection::Usb => {
                out.push(d.device_id);
            },
            _ => {},
        }
        i = i + 1;
    }
    assert(devices@.take(n as int) =~= devices@);
    out
}

} // verus!
