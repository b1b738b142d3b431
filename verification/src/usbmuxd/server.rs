//! The muxer's side of the usbmuxd protocol: the requests clients send and
//! the responses and events the muxer sends back.

use vstd::prelude::*;

use crate::error::IdeviceError;
use crate::plist::{inserted, lookup, view_values, PlistDict, PlistValue, PlistView};
use crate::text::str_equal;
use crate::usbmuxd::errors::UsbmuxdError;
use vstd::string::StringExecFns;

verus! {

/// A request sent by a usbmuxd client to the muxer.
#[derive(Debug)]
pub enum UsbmuxdServerRequest {
    /// List every attached device.
    ListDevices,
    /// Subscribe to attach and detach events for the life of the connection.
    Listen,
    /// Read this host's BUID.
    ReadBuid,
    /// Read a stored pairing record by UDID.
    ReadPairRecord {
        /// `PairRecordID`: the device UDID.
        pair_record_id: String,
    },
    /// Persist a pairing record.
    SavePairRecord {
        /// `PairRecordID`, if the client supplied one.
        pair_record_id: Option<String>,
        /// `DeviceID`, the fallback when `PairRecordID` is absent.
        device_id: Option<u64>,
        /// Raw serialized pairing record (`PairRecordData`).
        pair_record_data: Vec<u8>,
    },
    /// Open a connection to a port on a device.
    Connect {
        /// usbmuxd-assigned `DeviceID`.
        device_id: u64,
        /// Target port in host byte order.
        port: u16,
    },
}

/// Whether `e` is the usbmuxd error that a missing (`missing`) or
/// wrongly typed field `key` is reported as.
pub open spec fn field_error(e: IdeviceError, key: Seq<char>, missing: bool) -> bool {
    if missing {
        e matches IdeviceError::Usbmuxd(UsbmuxdError::MissingField(k)) && k@ == key
    } else {
        e matches IdeviceError::Usbmuxd(UsbmuxdError::UnexpectedFieldType(k)) && k@ == key
    }
}

/// The port a `PortNumber` integer names: its low 16 bits, with the two
/// bytes swapped from network order.
pub open spec fn port_of(i: int) -> u16 {
    let low = (i % 0x1_0000) as u16;
    ((low % 0x100) * 0x100 + low / 0x100) as u16
}

/// Whether `r` is the decoding of a request dictionary.
pub open spec fn decoded_request(plist: Seq<(Seq<char>, PlistView)>, r: Result<UsbmuxdServerRequest, IdeviceError>) -> bool {
    match lookup(plist, "MessageType"@) {
        None => r matches Err(e) && field_error(e, "MessageType"@, true),
        Some(PlistView::String(t)) => if t == "ListDevices"@ {
            r matches Ok(UsbmuxdServerRequest::ListDevices)
        } else if t == "Listen"@ {
            r matches Ok(UsbmuxdServerRequest::Listen)
        } else if t == "ReadBUID"@ {
            r matches Ok(UsbmuxdServerRequest::ReadBuid)
        } else if t == "ReadPairRecord"@ {
            match lookup(plist, "PairRecordID"@) {
                Some(PlistView::String(id)) => r matches Ok(
                    UsbmuxdServerRequest::ReadPairRecord { pair_record_id },
                ) && pair_record_id@ == id,
                Some(_) => r matches Err(e) && field_error(e, "PairRecordID"@, false),
                None => r matches Err(e) && field_error(e, "PairRecordID"@, true),
            }
        } else if t == "SavePairRecord"@ {
            match lookup(plist, "PairRecordData"@) {
                Some(PlistView::Data(d)) => r matches Ok(
                    UsbmuxdServerRequest::SavePairRecord { pair_record_id, device_id, pair_record_data },
                ) && pair_record_data@ == d && match lookup(plist, "PairRecordID"@) {
                    Some(PlistView::String(id)) => pair_record_id matches Some(x) && x@ == id,
                    _ => pair_record_id is None,
                } && device_id == crate::plist::view_unsigned(lookup(plist, "DeviceID"@)),
                Some(_) => r matches Err(e) && field_error(e, "PairRecordData"@, false),
                None => r matches Err(e) && field_error(e, "PairRecordData"@, true),
            }
        } else if t == "Connect"@ {
            match lookup(plist, "DeviceID"@) {
                None => r matches Err(e) && field_error(e, "DeviceID"@, true),
                Some(PlistView::Integer(d)) => if 0 <= d <= u64::MAX {
                    match lookup(plist, "PortNumber"@) {
                        None => r matches Err(e) && field_error(e, "PortNumber"@, true),
                        Some(PlistView::Integer(p)) => if i64::MIN <= p <= u64::MAX {
                            r matches Ok(UsbmuxdServerRequest::Connect { device_id, port })
                                && device_id == d && port == port_of(p)
                        } else {
                            r matches Err(e) && field_error(e, "PortNumber"@, false)
                        },
                        Some(_) => r matches Err(e) && field_error(e, "PortNumber"@, false),
                    }
                } else {
                    r matches Err(e) && field_error(e, "DeviceID"@, false)
                },
                Some(_) => r matches Err(e) && field_error(e, "DeviceID"@, false),
            }
        } else {
            r matches Err(IdeviceError::Usbmuxd(UsbmuxdError::UnknownMessageType(m))) && m@ == t
        },
        Some(_) => r matches Err(e) && field_error(e, "MessageType"@, false),
    }
}

/// Reads a string field.
fn get_string(plist: &PlistDict, key: &'static str) -> (r: Result<String, IdeviceError>)
    ensures
        match lookup(plist@, key@) {
            Some(PlistView::String(s)) => r matches Ok(x) && x@ == s,
            Some(_) => r matches Err(e) && field_error(e, key@, false),
            None => r matches Err(e) && field_error(e, key@, true),
        },
{
    match plist.get(key) {
        Some(PlistValue::String(s)) => Ok(s.clone()),
        Some(_) => Err(IdeviceError::Usbmuxd(UsbmuxdError::UnexpectedFieldType(key))),
        None => Err(IdeviceError::Usbmuxd(UsbmuxdError::MissingField(key))),
    }
}

/// Swaps the two bytes of a port number.
fn swap_port(low: u16) -> (r: u16)
    ensures
        r == ((low % 0x100) * 0x100 + low / 0x100) as u16,
{
    (low % 0x100) * 0x100 + low / 0x100
}

impl UsbmuxdServerRequest {
    /// Decodes a client request from its dictionary.
    ///
    /// A missing or wrongly typed `MessageType` or required field is
    /// reported as such; a message type that is not one of the standard
    /// ones is an unknown-message-type error.
    pub fn decode(plist: &PlistDict) -> (r: Result<UsbmuxdServerRequest, IdeviceError>)
        ensures
            decoded_request(plist@, r),
    {
        let message_type = match plist.get("MessageType") {
            Some(PlistValue::String(s)) => s,
            Some(_) => return Err(
                IdeviceError::Usbmuxd(UsbmuxdError::UnexpectedFieldType("MessageType")),
            ),
            None => return Err(IdeviceError::Usbmuxd(UsbmuxdError::MissingField("MessageType"))),
        };
        let t = message_type.as_str();
        if str_equal(t, "ListDevices") {
            Ok(UsbmuxdServerRequest::ListDevices)
        } else if str_equal(t, "Listen") {
            Ok(UsbmuxdServerRequest::Listen)
        } else if str_equal(t, "ReadBUID") {
            Ok(UsbmuxdServerRequest::ReadBuid)
        } else if str_equal(t, "ReadPairRecord") {
            match get_string(plist, "PairRecordID") {
                Ok(id) => Ok(UsbmuxdServerRequest::ReadPairRecord { pair_record_id: id }),
                Err(e) => Err(e),
            }
        } else if str_equal(t, "SavePairRecord") {
            let data = match plist.get("PairRecordData") {
                Some(PlistValue::Data(d)) => vstd::slice::slice_to_vec(d.as_slice()),
                Some(_) => return Err(
                    IdeviceError::Usbmuxd(UsbmuxdError::UnexpectedFieldType("PairRecordData")),
                ),
                None => return Err(
                    IdeviceError::Usbmuxd(UsbmuxdError::MissingField("PairRecordData")),
                ),
            };
            let id = match plist.get("PairRecordID") {
                Some(PlistValue::String(s)) => Some(s.clone()),
                _ => None,
            };
            let device_id = match plist.get("DeviceID") {
                Some(v) => v.as_unsigned_integer(),
                None => None,
            };
            Ok(
                UsbmuxdServerRequest::SavePairRecord {
                    pair_record_id: id,
                    device_id,
                    pair_record_data: data,
                },
            )
        } else if str_equal(t, "Connect") {
            let device_id = match plist.get("DeviceID") {
                Some(PlistValue::Integer(i)) => {
                    if 0 <= *i && *i <= 0xFFFF_FFFF_FFFF_FFFF {
                        *i as u64
                    } else {
                        return Err(
                            IdeviceError::Usbmuxd(UsbmuxdError::UnexpectedFieldType("DeviceID")),
                        );
                    }
                },
                Some(_) => return Err(
                    IdeviceError::Usbmuxd(UsbmuxdError::UnexpectedFieldType("DeviceID")),
                ),
                None => return Err(IdeviceError::Usbmuxd(UsbmuxdError::MissingField("DeviceID"))),
            };
            let port = match plist.get("PortNumber") {
                Some(PlistValue::Integer(i)) => {
                    if -0x8000_0000_0000_0000 <= *i && *i <= 0xFFFF_FFFF_FFFF_FFFF {
                        let low = (*i % 0x1_0000 + 0x1_0000) % 0x1_0000;
                        assert(low == *i % 0x1_0000);
                        swap_port(low as u16)
                    } else {
                        return Err(
                            IdeviceError::Usbmuxd(UsbmuxdError::UnexpectedFieldType("PortNumber")),
                        );
                    }
                },
                Some(_) => return Err(
                    IdeviceError::Usbmuxd(UsbmuxdError::UnexpectedFieldType("PortNumber")),
                ),
                None => return Err(IdeviceError::Usbmuxd(UsbmuxdError::MissingField("PortNumber"))),
            };
            Ok(UsbmuxdServerRequest::Connect { device_id, port })
        } else {
            Err(IdeviceError::Usbmuxd(UsbmuxdError::UnknownMessageType(message_type.clone())))
        }
    }
}

/// A response (or broadcast event) the muxer sends back to a client.
#[derive(Debug)]
pub enum UsbmuxdServerResponse {
    /// `{ MessageType: Result, Number: n }`; 0 is success.
    Result(u32),
    /// `{ DeviceList: [...] }`, the reply to a device listing.
    DeviceList(Vec<PlistValue>),
    /// `{ PairRecordData: <data> }`, the reply to a pairing record read.
    PairRecord(Vec<u8>),
    /// `{ BUID: <string> }`, the reply to a BUID read.
    Buid(String),
    /// An `Attached` broadcast: the full payload.
    Attached(PlistDict),
    /// A `Detached` broadcast for the given `DeviceID`.
    Detached(u64),
}

/// The dictionary of a response.
pub open spec fn response_entries(r: UsbmuxdServerResponse) -> Seq<(Seq<char>, PlistView)> {
    match r {
        UsbmuxdServerResponse::Result(n) => seq![
            ("MessageType"@, PlistView::String("Result"@)),
            ("Number"@, PlistView::Integer(n as int)),
        ],
        UsbmuxdServerResponse::DeviceList(d) => seq![("DeviceList"@, PlistView::Array(view_values(d@)))],
        UsbmuxdServerResponse::PairRecord(d) => seq![("PairRecordData"@, PlistView::Data(d@))],
        UsbmuxdServerResponse::Buid(b) => seq![("BUID"@, PlistView::String(b@))],
        UsbmuxdServerResponse::Attached(p) => p@,
        UsbmuxdServerResponse::Detached(id) => seq![
            ("MessageType"@, PlistView::String("Detached"@)),
            ("DeviceID"@, PlistView::Integer(id as int)),
        ],
    }
}

/// A dictionary of two entries with distinct keys.
fn two_entries(k1: &str, v1: PlistValue, k2: &str, v2: PlistValue) -> (r: PlistDict)
    requires
        k1@ != k2@,
    ensures
        r@ == seq![(k1@, v1@), (k2@, v2@)],
{
    let mut d = PlistDict::new();
    d.insert(String::from_str(k1), v1);
    let ghost e1 = d@;
    assert(e1.drop_last() =~= Seq::<(Seq<char>, PlistView)>::empty());
    proof {
        crate::plist::lemma_key_index(e1, k2@);
    }
    d.insert(String::from_str(k2), v2);
    assert(d@ =~= seq![(k1@, v1@), (k2@, v2@)]);
    d
}

/// A dictionary of one entry.
fn one_entry(k: &str, v: PlistValue) -> (r: PlistDict)
    ensures
        r@ == seq![(k@, v@)],
{
    let mut d = PlistDict::new();
    d.insert(String::from_str(k), v);
    assert(d@ =~= seq![(k@, v@)]);
    d
}

impl UsbmuxdServerResponse {
    /// The response's dictionary.
    pub fn into_dictionary(self) -> (r: PlistDict)
        ensures
            r@ == response_entries(self),
    {
        proof {
            reveal_strlit("MessageType");
            reveal_strlit("Number");
            reveal_strlit("DeviceID");
        }
        assert("MessageType"@.len() == 11 && "Number"@.len() == 6 && "DeviceID"@.len() == 8);
        match self {
            UsbmuxdServerResponse::Result(n) => two_entries(
                "MessageType",
                PlistValue::String(String::from_str("Result")),
                "Number",
                PlistValue::Integer(n as i128),
            ),
            UsbmuxdServerResponse::DeviceList(d) => one_entry("DeviceList", PlistValue::Array(d)),
            UsbmuxdServerResponse::PairRecord(d) => one_entry("PairRecordData", PlistValue::Data(d)),
            UsbmuxdServerResponse::Buid(b) => one_entry("BUID", PlistValue::String(b)),
            UsbmuxdServerResponse::Attached(p) => p,
            UsbmuxdServerResponse::Detached(id) => two_entries(
                "MessageType",
                PlistValue::String(String::from_str("Detached")),
                "DeviceID",
                PlistValue::Integer(id as i128),
            ),
        }
    }
}

} // verus!
