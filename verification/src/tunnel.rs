//! The CDTunnel packet tunnel: handshake framing, the tunnel parameters the
//! device answers with, and IPv6 packet framing on the tunnel.

use vstd::prelude::*;

use crate::bytes::append_bytes;
use crate::error::IdeviceError;
use crate::tcp::packets::{be16, be16_bytes};

verus! {

/// Size of an IPv6 header.
pub const IPV6_HEADER_SIZE: usize = 40;

/// MTU asked for in the handshake.
pub const DEFAULT_MTU: u16 = 16000;

/// The tunnel parameters the device hands out.
#[derive(Debug, Clone)]
pub struct TunnelInfo {
    /// The client's tunnel address.
    pub client_address: String,
    /// Netmask of the tunnel network.
    pub netmask: String,
    /// The device's tunnel address.
    pub server_address: String,
    /// Tunnel MTU.
    pub mtu: u16,
    /// The device's RSD port on the tunnel.
    pub server_rsd_port: u16,
}

/// An established tunnel over a stream `R`.
#[derive(Debug)]
pub struct CdTunnel<R> {
    /// The underlying stream.
    pub(crate) inner: R,
    /// The tunnel parameters.
    pub info: TunnelInfo,
}

impl<R> CdTunnel<R> {
    /// The underlying stream.
    pub closed spec fn stream(&self) -> R {
        self.inner
    }

    /// The tunnel parameters.
    pub closed spec fn parameters(&self) -> TunnelInfo {
        self.info
    }

    /// A tunnel over `inner` with the parameters of its handshake.
    pub fn from_parts(inner: R, info: TunnelInfo) -> (r: CdTunnel<R>)
        ensures
            r.stream() == inner,
            r.parameters() == info,
    {
        CdTunnel { inner, info }
    }

    /// Gives back the underlying stream.
    pub fn into_inner(self) -> (r: R)
        ensures
            r == self.stream(),
    {
        self.inner
    }
}

/// The ASCII bytes `CDTunnel` that frame handshake messages.
pub open spec fn cdtunnel_magic() -> Seq<u8> {
    seq![0x43u8, 0x44, 0x54, 0x75, 0x6E, 0x6E, 0x65, 0x6C]
}

/// A handshake message on the wire: the magic, the body length as a
/// big-endian 16-bit value (modulo 2^16), then the body.
pub open spec fn handshake_frame(body: Seq<u8>) -> Seq<u8> {
    cdtunnel_magic() + be16_bytes((body.len() % 0x1_0000) as u16) + body
}

/// Frames a handshake message.
pub fn frame_handshake(body: &[u8]) -> (r: Vec<u8>)
    ensures
        r@ == handshake_frame(body@),
{
    let magic: [u8; 8] = [0x43u8, 0x44, 0x54, 0x75, 0x6E, 0x6E, 0x65, 0x6C];
    let mut out: Vec<u8> = Vec::new();
    append_bytes(&mut out, &magic);
    let len = (body.len() % 0x1_0000) as u16;
    out.push((len / 0x100) as u8);
    out.push((len % 0x100) as u8);
    append_bytes(&mut out, body);
    assert(out@ =~= handshake_frame(body@));
    out
}

/// Whether a handshake reply starts with the magic.
pub fn is_handshake_magic(bytes: &[u8]) -> (r: bool)
    ensures
        r == (bytes@ == cdtunnel_magic()),
{
    let magic: [u8; 8] = [0x43u8, 0x44, 0x54, 0x75, 0x6E, 0x6E, 0x65, 0x6C];
    assert(magic@ =~= cdtunnel_magic());
    crate::bytes::bytes_equal(bytes, &magic)
}

/// The parts of the device's handshake reply that the tunnel uses.
#[derive(Debug, Clone)]
pub struct HandshakeReply {
    /// Whether the reply has `clientParameters`.
    pub has_client_parameters: bool,
    /// `clientParameters.address`, when a string.
    pub client_address: Option<String>,
    /// `clientParameters.mtu`, when an unsigned integer.
    pub client_mtu: Option<u64>,
    /// `clientParameters.netmask`, when a string.
    pub client_netmask: Option<String>,
    /// `serverAddress`, when a string.
    pub server_address: Option<String>,
    /// `serverRSDPort`, when an unsigned integer.
    pub server_rsd_port: Option<u64>,
}

/// The tunnel parameters a handshake reply gives: the two addresses are
/// required; the MTU defaults to 1500, the port to 0, the netmask to empty;
/// numbers are kept modulo 2^16.
pub open spec fn tunnel_info_of(r: HandshakeReply, info: TunnelInfo) -> bool {
    &&& info.client_address@ == r.client_address->0@
    &&& info.server_address@ == r.server_address->0@
    &&& info.netmask@ == match r.client_netmask {
        Some(n) => n@,
        None => Seq::empty(),
    }
    &&& info.mtu == match r.client_mtu {
        Some(m) => (m % 0x1_0000) as u16,
        None => 1500u16,
    }
    &&& info.server_rsd_port == match r.server_rsd_port {
        Some(p) => (p % 0x1_0000) as u16,
        None => 0u16,
    }
}

/// Whether a handshake reply has what the tunnel needs.
pub open spec fn handshake_complete(r: HandshakeReply) -> bool {
    r.has_client_parameters && r.client_address is Some && r.server_address is Some
}

/// Reads the tunnel parameters from the device's handshake reply.
pub fn tunnel_info_from_reply(reply: HandshakeReply) -> (r: Result<TunnelInfo, IdeviceError>)
    ensures
        match r {
            Ok(info) => handshake_complete(reply) && tunnel_info_of(reply, info),
            Err(e) => !handshake_complete(reply) && e matches IdeviceError::UnexpectedResponse,
        },
{
    if !reply.has_client_parameters {
        return Err(IdeviceError::UnexpectedResponse);
    }
    let client_address = match reply.client_address {
        Some(a) => a,
        None => return Err(IdeviceError::UnexpectedResponse),
    };
    let mtu = match reply.client_mtu {
        Some(m) => (m % 0x1_0000) as u16,
        None => 1500,
    };
    let server_address = match reply.server_address {
        Some(a) => a,
        None => return Err(IdeviceError::UnexpectedResponse),
    };
    let server_rsd_port = match reply.server_rsd_port {
        Some(p) => (p % 0x1_0000) as u16,
        None => 0,
    };
    let netmask = match reply.client_netmask {
        Some(n) => n,
        None => String::new(),
    };
    Ok(TunnelInfo { client_address, netmask, server_address, mtu, server_rsd_port })
}

/// The payload length an IPv6 header read from the tunnel announces.
pub fn tunnel_payload_len(header: &[u8; 40]) -> (r: usize)
    ensures
        r == be16(header@[4], header@[5]),
{
    (header[4] as usize) * 0x100 + header[5] as usize
}

/// A device connected through tunneld.
#[derive(Debug, Clone)]
pub struct TunneldDevice {
    /// Network interface name.
    pub interface: String,
    /// Tunnel IP address.
    pub tunnel_address: String,
    /// Tunnel port number.
    pub tunnel_port: u16,
}

} // verus!
