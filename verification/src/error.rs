use vstd::prelude::*;

use crate::restore::errors::RestoreError;
use crate::usbmuxd::errors::UsbmuxdError;

verus! {

/// Errors reported by the protocol logic of this library.
#[derive(Debug)]
pub enum IdeviceError {
    /// The device sent something this library did not expect.
    UnexpectedResponse,
    /// A TLV8 record claims more bytes than remain.
    MalformedTlv,
    /// A TLV8 record has a type code outside the known table.
    UnknownTlv(u8),
    /// A field needed more bytes than were there; holds the two sizes in the
    /// order the reporting code gives them.
    NotEnoughBytes(usize, usize),
    /// An offset computation overflowed.
    IntegerOverflow,
    /// A fixed-size string field was not valid UTF-8.
    Utf8,
    /// A restore-flow failure.
    Restore(RestoreError),
    /// The peer reset an HTTP/2 stream.
    HttpStreamReset,
    /// The peer sent an HTTP/2 setting this library does not know.
    UnknownHttpSetting(u16),
    /// The peer closed the HTTP/2 connection; holds its debug message.
    HttpGoAway(String),
    /// An HTTP/2 frame of an unknown type.
    UnknownFrame(u8),
    /// A build manifest lacked what the restore needs.
    BadBuildManifest,
    /// An error described only by its message.
    UnknownErrorType(String),
    /// An internal failure described by its message.
    InternalError(String),
    /// Text that should be base64 was not.
    Base64Decode,
    /// The device refused to verify the pairing.
    PairVerifyFailed,
    /// A usbmuxd protocol failure.
    Usbmuxd(UsbmuxdError),
    /// No host or device identifier was given where one is needed.
    InvalidHostID,
    /// What was asked for is not there.
    NotFound,
    /// misagent reported a nonzero status.
    MisagentFailure,
}

} // verus!
