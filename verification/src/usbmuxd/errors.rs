//! Errors of the USB multiplexer daemon protocol.

use vstd::prelude::*;

verus! {

/// Errors specific to the USB multiplexer daemon protocol.
#[derive(Debug)]
pub enum UsbmuxdError {
    /// The device refused the connection.
    ConnectionRefused,
    /// Bad command.
    BadCommand,
    /// Bad device.
    BadDevice,
    /// Bad protocol version.
    BadVersion,
    /// A request lacked a required field.
    MissingField(&'static str),
    /// A request field had an unexpected type.
    UnexpectedFieldType(&'static str),
    /// An unknown or unsupported message type.
    UnknownMessageType(String),
}

/// The sub-error code of each usbmuxd error, as exposed to FFI consumers.
pub open spec fn usbmuxd_sub_code(e: UsbmuxdError) -> i32 {
    match e {
        UsbmuxdError::ConnectionRefused => 1,
        UsbmuxdError::BadCommand => 2,
        UsbmuxdError::BadDevice => 3,
        UsbmuxdError::BadVersion => 4,
        UsbmuxdError::MissingField(_) => 5,
        UsbmuxdError::UnexpectedFieldType(_) => 6,
        UsbmuxdError::UnknownMessageType(_) => 7,
    }
}

impl UsbmuxdError {
    /// The error's sub-error code.
    pub fn sub_code(&self) -> (r: i32)
        ensures
            r == usbmuxd_sub_code(*self),
    {
        match self {
            UsbmuxdError::ConnectionRefused => 1,
            UsbmuxdError::BadCommand => 2,
            UsbmuxdError::BadDevice => 3,
            UsbmuxdError::BadVersion => 4,
            UsbmuxdError::MissingField(_) => 5,
            UsbmuxdError::UnexpectedFieldType(_) => 6,
            UsbmuxdError::UnknownMessageType(_) => 7,
        }
    }
}

/// Law: errors of different kinds have different sub-error codes, and every
/// code lies in 1..=7.
pub proof fn law_usbmuxd_sub_codes_distinguish_kinds(a: UsbmuxdError, b: UsbmuxdError)
    ensures
        1 <= usbmuxd_sub_code(a) <= 7,
        usbmuxd_sub_code(a) == usbmuxd_sub_code(b) <==> (a is ConnectionRefused && b is ConnectionRefused)
            || (a is BadCommand && b is BadCommand) || (a is BadDevice && b is BadDevice) || (
        a is BadVersion && b is BadVersion) || (a is MissingField && b is MissingField) || (
        a is UnexpectedFieldType && b is UnexpectedFieldType) || (a is UnknownMessageType
            && b is UnknownMessageType),
{
}

} // verus!
