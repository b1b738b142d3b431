//! The devices a usbmuxd listing reports: how each is connected, read from
//! its properties and, for network devices, from its socket address bytes.

use vstd::prelude::*;

use crate::error::IdeviceError;
use crate::tcp::packets::IpAddress;
use crate::text::str_equal;
use vstd::string::StringExecFns;

verus! {

/// How a device is connected.
#[derive(Debug)]
pub enum Connection {
    /// Over USB.
    Usb,
    /// Over the network, at an address.
    Network(IpAddress),
    /// Another or an unreadable connection type, described.
    Unknown(String),
}

/// A device the muxer reports.
#[derive(Debug)]
pub struct UsbmuxdDevice {
    /// How the device is connected.
    pub connection_type: Connection,
    /// The device's UDID.
    pub udid: String,
    /// The muxer's ID for the device.
    pub device_id: u32,
}

/// A device's properties in a listing.
#[derive(Debug)]
pub struct DevicePropertiesResponse {
    /// `ConnectionType`.
    pub connection_type: String,
    /// `NetworkAddress`: a socket address's bytes.
    pub network_address: Option<Vec<u8>>,
    /// `SerialNumber`.
    pub serial_number: String,
}

/// One device of a listing.
#[derive(Debug)]
pub struct DeviceListResponse {
    /// `DeviceID`.
    pub device_id: u32,
    /// `Properties`.
    pub properties: DevicePropertiesResponse,
}

/// A device listing.
#[derive(Debug)]
pub struct ListDevicesResponse {
    /// `DeviceList`.
    pub device_list: Vec<DeviceListResponse>,
}

/// The upper-case hexadecimal digit of a nibble.
pub open spec fn hex_upper(n: u8) -> char {
    if n < 10 {
        (n + 48) as char
    } else {
        (n + 55) as char
    }
}

/// A byte as two upper-case hexadecimal digits.
pub open spec fn hex_byte(b: u8) -> Seq<char> {
    seq![hex_upper(b / 16), hex_upper(b % 16)]
}

/// Whether a socket address names the address family `family`, either in
/// its first byte or, after the length byte `len_byte`, in its second.
pub open spec fn names_family(addr: Seq<u8>, len_byte: u8, family: u8) -> bool {
    addr[0] == family || (addr.len() >= 2 && addr[0] == len_byte && addr[1] == family)
}

/// What a network device's socket address bytes say, given the platform's
/// IPv4 and IPv6 address family numbers: none (an unexpected response)
/// when the bytes are too short for what they name; otherwise the address,
/// or an unknown connection described by the family byte.
pub open spec fn network_connection(addr: Seq<u8>, inet: u8, inet6: u8) -> Option<NetworkKind> {
    if addr.len() < 8 {
        None
    } else if names_family(addr, 0x10, inet) {
        if addr.len() < 16 {
            None
        } else {
            Some(NetworkKind::V4(addr.subrange(4, 8)))
        }
    } else if names_family(addr, 0x1C, inet6) {
        if addr.len() < 28 {
            None
        } else {
            Some(NetworkKind::V6(addr.subrange(8, 24)))
        }
    } else if addr[0] == 0x1C && addr[1] != inet6 {
        Some(NetworkKind::Unknown("Network "@ + hex_byte(addr[1])))
    } else if addr[0] == 0x10 && addr[1] != inet {
        Some(NetworkKind::Unknown("Network "@ + hex_byte(addr[1])))
    } else {
        Some(NetworkKind::Unknown("Network "@ + hex_byte(addr[0])))
    }
}

/// An address's octets are the socket address's own bytes: an IPv4 socket
/// address of at least 16 bytes gives the four octets at bytes 4 to 7, and
/// an IPv6 one (not also naming IPv4) of at least 28 bytes gives the sixteen
/// octets at bytes 8 to 23, each in order.
pub proof fn law_network_address_octets(addr: Seq<u8>, inet: u8, inet6: u8)
    ensures
        addr.len() >= 16 && names_family(addr, 0x10, inet) ==> (network_connection(addr, inet, inet6) matches Some(
            NetworkKind::V4(o),
        ) && o.len() == 4 && forall|k: int| 0 <= k < 4 ==> o[k] == addr[4 + k]),
        addr.len() >= 28 && !names_family(addr, 0x10, inet) && names_family(addr, 0x1C, inet6) ==> (network_connection(
            addr,
            inet,
            inet6,
        ) matches Some(NetworkKind::V6(o)) && o.len() == 16 && forall|k: int| 0 <= k < 16 ==> o[k] == addr[8 + k]),
{
}

/// A network connection's kind, by value.
pub enum NetworkKind {
    /// An IPv4 address's octets.
    V4(Seq<u8>),
    /// An IPv6 address's octets.
    V6(Seq<u8>),
    /// An unknown family, described.
    Unknown(Seq<char>),
}

/// Whether `c` is the connection `k` describes.
pub open spec fn connection_is(c: Connection, k: NetworkKind) -> bool {
    match k {
        NetworkKind::V4(o) => c matches Connection::Network(IpAddress::V4(a)) && a@ == o,
        NetworkKind::V6(o) => c matches Connection::Network(IpAddress::V6(a)) && a@ == o,
        NetworkKind::Unknown(d) => c matches Connection::Unknown(s) && s@ == d,
    }
}

/// The digit of a nibble.
fn hex_digit_text(n: u8) -> (r: &'static str)
    requires
        n < 16,
    ensures
        r@ == seq![hex_upper(n)],
{
    let r = if n == 0 { "0" } else if n == 1 { "1" } else if n == 2 { "2" } else if n == 3 { "3" }
    else if n == 4 { "4" } else if n == 5 { "5" } else if n == 6 { "6" } else if n == 7 { "7" }
    else if n == 8 { "8" } else if n == 9 { "9" } else if n == 10 { "A" } else if n == 11 { "B" }
    else if n == 12 { "C" } else if n == 13 { "D" } else if n == 14 { "E" } else { "F" };
    proof {
        reveal_strlit("0");
        reveal_strlit("1");
        reveal_strlit("2");
        reveal_strlit("3");
        reveal_strlit("4");
        reveal_strlit("5");
        reveal_strlit("6");
        reveal_strlit("7");
        reveal_strlit("8");
        reveal_strlit("9");
        reveal_strlit("A");
        reveal_strlit("B");
        reveal_strlit("C");
        reveal_strlit("D");
        reveal_strlit("E");
        reveal_strlit("F");
    }
    assert(r@ =~= seq![hex_upper(n)]);
    r
}

/// The description of an unknown family byte.
fn unknown_family(b: u8) -> (r: String)
    ensures
        r@ == "Network "@ + hex_byte(b),
{
    let mut s = String::from_str("Network ");
    s.append(hex_digit_text(b / 16));
    s.append(hex_digit_text(b % 16));
    assert(s@ =~= "Network "@ + hex_byte(b));
    s
}

/// Reads a network device's socket address bytes.
///
/// Fails with an unexpected-response error when the bytes are too short
/// for the family they name.
pub fn network_address_connection(addr: &[u8], inet: u8, inet6: u8) -> (r: Result<Connection, IdeviceError>)
    ensures
        match network_connection(addr@, inet, inet6) {
            Some(k) => r matches Ok(c) && connection_is(c, k),
            None => r matches Err(IdeviceError::UnexpectedResponse),
        },
{
    let n = addr.len();
    if n < 8 {
        return Err(IdeviceError::UnexpectedResponse);
    }
    let is_v4 = addr[0] == inet || (addr[0] == 0x10 && addr[1] == inet);
    let is_v6 = addr[0] == inet6 || (addr[0] == 0x1C && addr[1] == inet6);
    if is_v4 {
        if n < 16 {
            return Err(IdeviceError::UnexpectedResponse);
        }
        let o: [u8; 4] = [addr[4], addr[5], addr[6], addr[7]];
        assert(o@ =~= addr@.subrange(4, 8));
        Ok(Connection::Network(IpAddress::V4(o)))
    } else if is_v6 {
        if n < 28 {
            return Err(IdeviceError::UnexpectedResponse);
        }
        let mut o = [0u8; 16];
        let mut i: usize = 0;
        while i < 16
            invariant
                addr@.len() >= 28,
                i <= 16,
                forall|k: int| 0 <= k < i ==> o@[k] == addr@[8 + k],
            decreases 16 - i,
        {
            o[i] = addr[8 + i];
            i = i + 1;
        }
        assert(o@ =~= addr@.subrange(8, 24));
        Ok(Connection::Network(IpAddress::V6(o)))
    } else if addr[0] == 0x1C && addr[1] != inet6 {
        Ok(Connection::Unknown(unknown_family(addr[1])))
    } else if addr[0] == 0x10 && addr[1] != inet {
        Ok(Connection::Unknown(unknown_family(addr[1])))
    } else {
        Ok(Connection::Unknown(unknown_family(addr[0])))
    }
}

/// What a listed device's connection is: USB for `USB`; for `Network`, its
/// socket address (none without one); anything else unknown, described by
/// the connection type.
pub open spec fn device_connection(
    connection_type: Seq<char>,
    network_address: Option<Seq<u8>>,
    inet: u8,
    inet6: u8,
) -> Option<Option<NetworkKind>> {
    if connection_type == "Network"@ {
        match network_address {
            Some(a) => match network_connection(a, inet, inet6) {
                Some(k) => Some(Some(k)),
                None => None,
            },
            None => None,
        }
    } else if connection_type == "USB"@ {
        Some(None)
    } else {
        Some(Some(NetworkKind::Unknown(connection_type)))
    }
}

/// Whether `r` is the device that a listing entry describes, given the
/// platform's IPv4 and IPv6 address family numbers: it fails with an
/// unexpected-response error for a network device without a usable
/// socket address.
pub open spec fn listed_device(
    e: DeviceListResponse,
    inet: u8,
    inet6: u8,
    r: Result<UsbmuxdDevice, IdeviceError>,
) -> bool {
    match device_connection(
        e.properties.connection_type@,
        match e.properties.network_address {
            Some(a) => Some(a@),
            None => None,
        },
        inet,
        inet6,
    ) {
        None => r matches Err(IdeviceError::UnexpectedResponse),
        Some(k) => r matches Ok(d) && d.udid@ == e.properties.serial_number@ && d.device_id == e.device_id
            && match k {
            None => d.connection_type is Usb,
            Some(n) => connection_is(d.connection_type, n),
        },
    }
}

/// This platform's IPv4 address family number (`libc::AF_INET`), as a
/// byte; it differs between platforms, so nothing is stated of it.
#[verifier::external_body]
fn af_inet() -> u8 {
    libc::AF_INET as u8
}

/// This platform's IPv6 address family number (`libc::AF_INET6`), as a
/// byte; it differs between platforms, so nothing is stated of it.
#[verifier::external_body]
fn af_inet6() -> u8 {
    libc::AF_INET6 as u8
}

impl DeviceListResponse {
    /// The device a listing entry describes, with this platform's address
    /// family numbers.
    pub fn into_usbmuxd_dev(self) -> (r: Result<UsbmuxdDevice, IdeviceError>)
        ensures
            exists|inet: u8, inet6: u8| #[trigger] listed_device(self, inet, inet6, r),
    {
        let inet = af_inet();
        let inet6 = af_inet6();
        let ghost e = self;
        let r = self.into_usbmuxd_dev_for(inet, inet6);
        assert(listed_device(e, inet, inet6, r));
        r
    }

    /// The device a listing entry describes, given the platform's IPv4 and
    /// IPv6 address family numbers.
    pub fn into_usbmuxd_dev_for(self, inet: u8, inet6: u8) -> (r: Result<UsbmuxdDevice, IdeviceError>)
        ensures
            listed_device(self, inet, inet6, r),
    {
        let t = self.properties.connection_type.as_str();
        let connection_type = if str_equal(t, "Network") {
            match &self.properties.network_address {
                Some(a) => match network_address_connection(a.as_slice(), inet, inet6) {
                    Ok(c) => c,
                    Err(e) => return Err(e),
                },
                None => return Err(IdeviceError::UnexpectedResponse),
            }
        } else if str_equal(t, "USB") {
            Connection::Usb
        } else {
            Connection::Unknown(self.properties.connection_type.clone())
        };
        Ok(
            UsbmuxdDevice {
                connection_type,
                udid: self.properties.serial_number,
                device_id: self.device_id,
            },
        )
    }
}

} // verus!
