//! FDR, the trust channel a device opens during a restore: little-endian
//! framing, the handshakes, and what each message asks the host to do.

use vstd::prelude::*;

use crate::error::IdeviceError;
use crate::http2::frame::utf8_lossy;
use crate::lockdown::string_entry;
use crate::plist::{lookup, view_string, view_unsigned, PlistDict, PlistValue, PlistView};
use crate::restore::options::{dict_from, dict_from_pairs, pair_views};
use vstd::string::StringExecFns;

verus! {

/// The device port of FDR's control channel.
pub const FDR_CTRL_PORT: u16 = 0x43A;

/// The protocol version the host speaks on the control channel.
pub const CTRL_PROTO_VERSION: i64 = 2;

/// The most bytes a proxy request is read in one go.
pub const CHUNK_SIZE: u32 = 0x10_0000;

/// The command that opens the control channel, NUL-terminated.
pub open spec fn ctrl_command() -> Seq<u8> {
    seq![0x42u8, 0x65, 0x67, 0x69, 0x6E, 0x43, 0x74, 0x72, 0x6C, 0x00]
}

/// The command that opens a connection channel, NUL-terminated.
pub open spec fn hello_command() -> Seq<u8> {
    seq![0x48u8, 0x65, 0x6C, 0x6C, 0x6F, 0x43, 0x6F, 0x6E, 0x6E, 0x00]
}

/// `BeginCtrl` and a NUL, the control channel's opening bytes.
pub fn ctrl_command_bytes() -> (r: Vec<u8>)
    ensures
        r@ == ctrl_command(),
{
    let r = vec![0x42u8, 0x65, 0x67, 0x69, 0x6E, 0x43, 0x74, 0x72, 0x6C, 0x00];
    assert(r@ =~= ctrl_command());
    r
}

/// `HelloConn` and a NUL, a connection channel's opening bytes.
pub fn hello_command_bytes() -> (r: Vec<u8>)
    ensures
        r@ == hello_command(),
{
    let r = vec![0x48u8, 0x65, 0x6C, 0x6C, 0x6F, 0x43, 0x6F, 0x6E, 0x6E, 0x00];
    assert(r@ =~= hello_command());
    r
}

/// The control handshake's request: the opening command as data and the
/// protocol version.
pub fn ctrl_request() -> (r: PlistDict)
    ensures
        r@ == dict_from(
            seq![
                ("Command"@, PlistView::Data(ctrl_command())),
                ("CtrlProtoVersion"@, PlistView::Integer(CTRL_PROTO_VERSION as int)),
            ],
        ),
{
    let pairs = vec![
        ("Command", PlistValue::Data(ctrl_command_bytes())),
        ("CtrlProtoVersion", PlistValue::Integer(2)),
    ];
    assert(pair_views(pairs@) =~= seq![
        ("Command"@, PlistView::Data(ctrl_command())),
        ("CtrlProtoVersion"@, PlistView::Integer(CTRL_PROTO_VERSION as int)),
    ]);
    dict_from_pairs(pairs)
}

/// The port of the connection channels, from the control handshake's
/// reply: its unsigned `ConnPort`, low 16 bits.
pub fn ctrl_reply(reply: &PlistDict) -> (r: Result<u16, IdeviceError>)
    ensures
        match view_unsigned(lookup(reply@, "ConnPort"@)) {
            Some(p) => r == Ok::<u16, IdeviceError>((p % 0x1_0000) as u16),
            None => r matches Err(IdeviceError::UnexpectedResponse),
        },
{
    match reply.get("ConnPort") {
        Some(v) => match v.as_unsigned_integer() {
            Some(p) => Ok((p % 0x1_0000) as u16),
            None => Err(IdeviceError::UnexpectedResponse),
        },
        None => Err(IdeviceError::UnexpectedResponse),
    }
}

/// Checks a connection channel's handshake reply: its `Command` must be
/// `HelloConn`.
pub fn hello_reply(reply: &PlistDict) -> (r: Result<(), IdeviceError>)
    ensures
        view_string(lookup(reply@, "Command"@)) == Some("HelloConn"@) ==> r is Ok,
        view_string(lookup(reply@, "Command"@)) != Some("HelloConn"@) ==> r matches Err(
            IdeviceError::UnexpectedResponse,
        ),
{
    match reply.get("Command") {
        Some(PlistValue::String(c)) => {
            if crate::text::str_equal(c.as_str(), "HelloConn") {
                Ok(())
            } else {
                Err(IdeviceError::UnexpectedResponse)
            }
        },
        _ => Err(IdeviceError::UnexpectedResponse),
    }
}

/// The four little-endian bytes of a length.
pub open spec fn le32_bytes(x: u32) -> Seq<u8> {
    seq![
        (x % 0x100) as u8,
        ((x / 0x100) % 0x100) as u8,
        ((x / 0x1_0000) % 0x100) as u8,
        (x / 0x100_0000) as u8,
    ]
}

/// The length prefix of a plist body: its size as a little-endian 32-bit
/// number (wrapping).
pub fn plist_length_prefix(body_len: usize) -> (r: Vec<u8>)
    ensures
        r@ == le32_bytes((body_len as nat % 0x1_0000_0000) as u32),
{
    let wide: u64 = body_len as u64;
    let x: u32 = (wide % 0x1_0000_0000) as u32;
    let r = vec![(x % 0x100) as u8, ((x / 0x100) % 0x100) as u8, ((x / 0x1_0000) % 0x100) as u8, (x / 0x100_0000) as u8];
    assert(r@ =~= le32_bytes(x));
    r
}

/// The length a plist body's prefix gives.
pub fn plist_length(prefix: &[u8]) -> (r: u32)
    requires
        prefix@.len() == 4,
    ensures
        r == prefix@[0] + prefix@[1] * 0x100 + prefix@[2] * 0x1_0000 + prefix@[3] * 0x100_0000,
{
    (prefix[0] as u32) + (prefix[1] as u32) * 0x100 + (prefix[2] as u32) * 0x1_0000 + (prefix[3] as u32)
        * 0x100_0000
}

/// What a message on an FDR channel asks for, by its tag.
#[derive(Debug, Clone, Copy, PartialEq, Eq, Structural)]
pub enum FdrMessage {
    /// Open another connection channel (after two bytes of payload).
    Sync,
    /// Proxy a connection to a host; the channel becomes the proxy.
    Proxy,
    /// A plist command follows.
    Plist,
    /// A tag this library does not know; it is passed over.
    Unknown(u16),
}

/// What a tag asks for.
pub open spec fn fdr_message_of(tag: u16) -> FdrMessage {
    if tag == 0x1 {
        FdrMessage::Sync
    } else if tag == 0x105 {
        FdrMessage::Proxy
    } else if tag == 0xBBAA {
        FdrMessage::Plist
    } else {
        FdrMessage::Unknown(tag)
    }
}

/// Reads a message's tag: two bytes, little-endian.
pub fn fdr_message(tag_bytes: &[u8]) -> (r: FdrMessage)
    requires
        tag_bytes@.len() == 2,
    ensures
        r == fdr_message_of((tag_bytes@[0] + tag_bytes@[1] * 0x100) as u16),
{
    let tag: u16 = (tag_bytes[0] as u16) + (tag_bytes[1] as u16) * 0x100;
    if tag == 0x1 {
        FdrMessage::Sync
    } else if tag == 0x105 {
        FdrMessage::Proxy
    } else if tag == 0xBBAA {
        FdrMessage::Plist
    } else {
        FdrMessage::Unknown(tag)
    }
}

/// Whether a plist command is a ping, to be answered with a pong.
pub fn is_ping(command: &PlistDict) -> (r: bool)
    ensures
        r == (view_string(lookup(command@, "Command"@)) == Some("Ping"@)),
{
    match command.get("Command") {
        Some(PlistValue::String(c)) => crate::text::str_equal(c.as_str(), "Ping"),
        _ => false,
    }
}

/// The answer to a ping.
pub fn pong() -> (r: PlistDict)
    ensures
        r@ == seq![("Pong"@, PlistView::Boolean(true))],
{
    let mut d = PlistDict::new();
    d.insert(String::from_str("Pong"), PlistValue::Boolean(true));
    assert(d@ =~= seq![("Pong"@, PlistView::Boolean(true))]);
    d
}

/// The acknowledgement of a proxy request: 5, little-endian.
pub fn proxy_ack() -> (r: Vec<u8>)
    ensures
        r@ == seq![5u8, 0],
{
    let r = vec![5u8, 0];
    assert(r@ =~= seq![5u8, 0]);
    r
}

/// Whether a proxy request is echoed back: it has at least three bytes.
pub open spec fn proxy_echoed(request: Seq<u8>) -> bool {
    request.len() >= 3
}

/// Where a proxy request asks to connect: a request that starts 0, 3, a
/// host's length and the host, and ends with a big-endian port; the host
/// is decoded lossily. Other requests ask for nothing.
pub open spec fn proxy_target_of(request: Seq<u8>) -> Option<(Seq<char>, u16)> {
    if request.len() >= 3 && request[0] == 0 && request[1] == 3 && 3 + request[2] + 2 <= request.len() {
        Some(
            (
                utf8_lossy(request.subrange(3, 3 + request[2] as int)),
                (request[request.len() - 2] * 0x100 + request[request.len() - 1]) as u16,
            ),
        )
    } else {
        None
    }
}

/// Whether a proxy request is echoed.
pub fn proxy_echoes(request: &[u8]) -> (r: bool)
    ensures
        r == proxy_echoed(request@),
{
    request.len() >= 3
}

/// Where a proxy request asks to connect, if it is a connect request.
pub fn proxy_target(request: &[u8]) -> (r: Option<(String, u16)>)
    ensures
        match proxy_target_of(request@) {
            Some((host, port)) => r matches Some((h, p)) && h@ == host && p == port,
            None => r is None,
        },
{
    let n = request.len();
    if n < 3 || request[0] != 0 || request[1] != 3 {
        return None;
    }
    let hostlen = request[2] as usize;
    if 3 + hostlen + 2 > n {
        return None;
    }
    let host_bytes = vstd::slice::slice_subrange(request, 3, 3 + hostlen);
    let host = crate::http2::frame::lossy_string(host_bytes);
    let port: u16 = (request[n - 2] as u16) * 0x100 + (request[n - 1] as u16);
    Some((host, port))
}

} // verus!
