//! The per-connection state of the userspace TCP stack that tunnels run
//! over: what an incoming segment does to a connection, and the buffers
//! between the connection and its user.
//!
//! The stack assumes a reliable transport: acknowledgements are not
//! tracked, retransmissions are dropped, and segments are expected in
//! order.

use vstd::prelude::*;

use crate::tcp::packets::TcpPacket;

verus! {

/// Why a connection stopped.
#[derive(Debug, Clone, Copy, PartialEq, Eq, Structural)]
pub enum ConnectionFault {
    /// The peer reset the connection.
    ConnectionReset,
    /// The peer closed the connection.
    UnexpectedEof,
}

/// Where a connection is.
#[derive(Debug, Clone, Copy, PartialEq, Eq, Structural)]
pub enum ConnectionStatus {
    /// The SYN was sent; the SYN-ACK has not come.
    WaitingForSyn,
    /// The connection is open.
    Connected,
    /// The connection stopped.
    Error(ConnectionFault),
}

/// One connection's state.
#[derive(Debug)]
pub struct ConnectionState {
    /// The next sequence number the host sends.
    pub seq: u32,
    /// The acknowledgement number the host sends.
    pub ack: u32,
    /// The host's port.
    pub host_port: u16,
    /// The peer's port.
    pub peer_port: u16,
    /// Received bytes not yet read.
    pub read_buffer: Vec<u8>,
    /// Bytes queued to send.
    pub write_buffer: Vec<u8>,
    /// Where the connection is.
    pub status: ConnectionStatus,
    /// The end of the peer's data seen so far.
    pub peer_seq: u32,
}

/// What the host answers to a segment.
#[derive(Debug, Clone, Copy, PartialEq, Eq, Structural)]
pub enum SegmentReply {
    /// Send an ACK.
    Ack,
    /// Send nothing.
    Nothing,
}

/// A random 32-bit number.
///
/// Calls `rand::random::<u32>()` of the rand crate; what it returns rests on
/// chance, so nothing is stated of it.
#[verifier::external_body]
fn random_u32() -> u32 {
    rand::random::<u32>()
}

impl ConnectionState {
    /// A connection waiting for its SYN-ACK, starting at a random sequence
    /// number.
    pub fn new(host_port: u16, peer_port: u16) -> (r: ConnectionState)
        ensures
            r.ack == 0,
            r.host_port == host_port,
            r.peer_port == peer_port,
            r.read_buffer@ == Seq::<u8>::empty(),
            r.write_buffer@ == Seq::<u8>::empty(),
            r.status == ConnectionStatus::WaitingForSyn,
            r.peer_seq == 0,
    {
        ConnectionState::with_initial_seq(host_port, peer_port, random_u32())
    }

    /// A connection waiting for its SYN-ACK, starting at sequence number
    /// `initial_seq`.
    pub fn with_initial_seq(host_port: u16, peer_port: u16, initial_seq: u32) -> (r: ConnectionState)
        ensures
            r.seq == initial_seq,
            r.ack == 0,
            r.host_port == host_port,
            r.peer_port == peer_port,
            r.read_buffer@ == Seq::<u8>::empty(),
            r.write_buffer@ == Seq::<u8>::empty(),
            r.status == ConnectionStatus::WaitingForSyn,
            r.peer_seq == 0,
    {
        ConnectionState {
            seq: initial_seq,
            ack: 0,
            host_port,
            peer_port,
            read_buffer: Vec::new(),
            write_buffer: Vec::new(),
            status: ConnectionStatus::WaitingForSyn,
            peer_seq: 0,
        }
    }
}

/// `a + b` modulo 2^32.
pub open spec fn add32(a: u32, b: int) -> u32 {
    ((a + b) % 0x1_0000_0000) as u32
}

/// Whether a segment is a keep-alive probe: an ACK without payload whose
/// sequence number is one before what the host acknowledges.
pub open spec fn is_keepalive(c: ConnectionState, s: TcpPacket) -> bool {
    s.flags.ack && s.payload@.len() == 0 && add32(s.sequence_number, 1) == c.ack
}

/// The connection after a segment that is neither a keep-alive probe nor a
/// retransmission: the peer's data end and the acknowledgement advance
/// (by one for an empty segment before the connection is open), payload is
/// buffered, RST and FIN stop the connection, and a SYN-ACK opens it.
pub open spec fn segment_applied(c: ConnectionState, s: TcpPacket, after: ConnectionState) -> bool {
    let len = s.payload@.len() as int;
    let status1 = if s.flags.rst {
        ConnectionStatus::Error(ConnectionFault::ConnectionReset)
    } else {
        c.status
    };
    let status2 = if s.flags.fin {
        ConnectionStatus::Error(ConnectionFault::UnexpectedEof)
    } else {
        status1
    };
    &&& after.peer_seq == add32(s.sequence_number, len)
    &&& after.ack == add32(
        s.sequence_number,
        if len == 0 && c.status != ConnectionStatus::Connected {
            1
        } else {
            len
        },
    )
    &&& after.read_buffer@ == if s.flags.psh || len > 0 {
        c.read_buffer@ + s.payload@
    } else {
        c.read_buffer@
    }
    &&& after.seq == if s.flags.syn && s.flags.ack {
        add32(c.seq, 1)
    } else {
        c.seq
    }
    &&& after.status == if s.flags.syn && s.flags.ack {
        ConnectionStatus::Connected
    } else {
        status2
    }
    &&& after.write_buffer@ == c.write_buffer@
    &&& after.host_port == c.host_port
    &&& after.peer_port == c.peer_port
}

/// Whether a segment asks for an ACK once applied: it carries payload or
/// PSH, FIN, or SYN with ACK.
pub open spec fn segment_acked(s: TcpPacket) -> bool {
    s.flags.psh || s.payload@.len() > 0 || s.flags.fin || (s.flags.syn && s.flags.ack)
}

/// Whether two states are the same connection state.
pub open spec fn same_state(a: ConnectionState, b: ConnectionState) -> bool {
    &&& a.seq == b.seq
    &&& a.ack == b.ack
    &&& a.host_port == b.host_port
    &&& a.peer_port == b.peer_port
    &&& a.read_buffer@ == b.read_buffer@
    &&& a.write_buffer@ == b.write_buffer@
    &&& a.status == b.status
    &&& a.peer_seq == b.peer_seq
}

/// Applies an incoming segment to its connection and says whether to ACK
/// it.
///
/// A keep-alive probe changes nothing and is acknowledged; a retransmission
/// (one that starts before the peer's data end) changes nothing and is
/// dropped; any other segment is applied as `segment_applied` states.
pub fn process_segment(state: &mut ConnectionState, segment: &TcpPacket) -> (r: SegmentReply)
    requires
        segment.payload@.len() <= u32::MAX,
    ensures
        is_keepalive(*old(state), *segment) ==> r == SegmentReply::Ack && same_state(
            *final(state),
            *old(state),
        ),
        !is_keepalive(*old(state), *segment) && old(state).peer_seq > segment.sequence_number ==> r
            == SegmentReply::Nothing && same_state(*final(state), *old(state)),
        !is_keepalive(*old(state), *segment) && old(state).peer_seq <= segment.sequence_number ==> (
        segment_applied(*old(state), *segment, *final(state)) && (r == SegmentReply::Ack
            <==> segment_acked(*segment))),
{
    let len = segment.payload.len();
    if segment.flags.ack && len == 0 && segment.sequence_number.wrapping_add(1) == state.ack {
        return SegmentReply::Ack;
    }
    if state.peer_seq > segment.sequence_number {
        return SegmentReply::Nothing;
    }
    let len32 = len as u32;
    let was_connected = state.status == ConnectionStatus::Connected;
    state.peer_seq = segment.sequence_number.wrapping_add(len32);
    state.ack = segment.sequence_number.wrapping_add(
        if len == 0 && !was_connected {
            1
        } else {
            len32
        },
    );
    let mut reply = SegmentReply::Nothing;
    if segment.flags.psh || len > 0 {
        reply = SegmentReply::Ack;
        crate::bytes::append_bytes(&mut state.read_buffer, segment.payload.as_slice());
    }
    if segment.flags.rst {
        state.status = ConnectionStatus::Error(ConnectionFault::ConnectionReset);
    }
    if segment.flags.fin {
        reply = SegmentReply::Ack;
        state.status = ConnectionStatus::Error(ConnectionFault::UnexpectedEof);
    }
    if segment.flags.syn && segment.flags.ack {
        reply = SegmentReply::Ack;
        state.seq = state.seq.wrapping_add(1);
        state.status = ConnectionStatus::Connected;
    }
    reply
}

/// Records that `len` bytes were pushed: the sequence number advances by
/// `len`.
pub fn advance_after_push(state: &mut ConnectionState, len: u32)
    ensures
        final(state).seq == add32(old(state).seq, len as int),
        final(state).ack == old(state).ack,
        final(state).status == old(state).status,
        final(state).read_buffer@ == old(state).read_buffer@,
        final(state).write_buffer@ == old(state).write_buffer@,
        final(state).peer_seq == old(state).peer_seq,
        final(state).host_port == old(state).host_port,
        final(state).peer_port == old(state).peer_port,
{
    state.seq = state.seq.wrapping_add(len);
}

/// Queues bytes to send.
pub fn queue_send(state: &mut ConnectionState, payload: &[u8])
    ensures
        final(state).write_buffer@ == old(state).write_buffer@ + payload@,
        final(state).read_buffer@ == old(state).read_buffer@,
        final(state).seq == old(state).seq,
        final(state).ack == old(state).ack,
        final(state).status == old(state).status,
        final(state).peer_seq == old(state).peer_seq,
        final(state).host_port == old(state).host_port,
        final(state).peer_port == old(state).peer_port,
{
    crate::bytes::append_bytes(&mut state.write_buffer, payload);
}

/// Takes the queued bytes to send, leaving none.
pub fn take_write_buffer(state: &mut ConnectionState) -> (r: Vec<u8>)
    ensures
        r@ == old(state).write_buffer@,
        final(state).write_buffer@ == Seq::<u8>::empty(),
        final(state).read_buffer@ == old(state).read_buffer@,
        final(state).seq == old(state).seq,
        final(state).ack == old(state).ack,
        final(state).status == old(state).status,
        final(state).peer_seq == old(state).peer_seq,
        final(state).host_port == old(state).host_port,
        final(state).peer_port == old(state).peer_port,
{
    let mut out: Vec<u8> = Vec::new();
    std::mem::swap(&mut out, &mut state.write_buffer);
    out
}

/// Buffers received bytes.
pub fn cache_read(state: &mut ConnectionState, payload: &[u8])
    ensures
        final(state).read_buffer@ == old(state).read_buffer@ + payload@,
        final(state).write_buffer@ == old(state).write_buffer@,
        final(state).seq == old(state).seq,
        final(state).ack == old(state).ack,
        final(state).status == old(state).status,
        final(state).peer_seq == old(state).peer_seq,
        final(state).host_port == old(state).host_port,
        final(state).peer_port == old(state).peer_port,
{
    crate::bytes::append_bytes(&mut state.read_buffer, payload);
}

/// Takes up to `to_copy` received bytes from the front of the buffer.
pub fn uncache(state: &mut ConnectionState, to_copy: usize) -> (r: Vec<u8>)
    ensures
        ({
            let n = if to_copy > old(state).read_buffer@.len() {
                old(state).read_buffer@.len() as int
            } else {
                to_copy as int
            };
            &&& r@ == old(state).read_buffer@.take(n)
            &&& final(state).read_buffer@ == old(state).read_buffer@.skip(n)
        }),
        final(state).write_buffer@ == old(state).write_buffer@,
        final(state).seq == old(state).seq,
        final(state).ack == old(state).ack,
        final(state).status == old(state).status,
        final(state).peer_seq == old(state).peer_seq,
        final(state).host_port == old(state).host_port,
        final(state).peer_port == old(state).peer_port,
{
    let n = if to_copy > state.read_buffer.len() {
        state.read_buffer.len()
    } else {
        to_copy
    };
    let head = vstd::slice::slice_to_vec(&state.read_buffer.as_slice()[0..n]);
    let len = state.read_buffer.len();
    let tail = vstd::slice::slice_to_vec(&state.read_buffer.as_slice()[n..len]);
    state.read_buffer = tail;
    assert(head@ =~= old(state).read_buffer@.take(n as int));
    assert(state.read_buffer@ =~= old(state).read_buffer@.skip(n as int));
    head
}

/// Takes every received byte.
pub fn uncache_all(state: &mut ConnectionState) -> (r: Vec<u8>)
    ensures
        r@ == old(state).read_buffer@,
        final(state).read_buffer@ == Seq::<u8>::empty(),
        final(state).write_buffer@ == old(state).write_buffer@,
        final(state).seq == old(state).seq,
        final(state).ack == old(state).ack,
        final(state).status == old(state).status,
        final(state).peer_seq == old(state).peer_seq,
        final(state).host_port == old(state).host_port,
        final(state).peer_port == old(state).peer_port,
{
    let mut out: Vec<u8> = Vec::new();
    std::mem::swap(&mut out, &mut state.read_buffer);
    out
}

/// What a read of a connection gets now.
#[derive(Debug)]
pub enum ReadOutcome {
    /// The buffered bytes.
    Data(Vec<u8>),
    /// The connection stopped.
    Closed(ConnectionFault),
    /// Nothing yet; more segments must be processed.
    Pending,
}

/// A read of a connection: the buffered bytes when there are any, else the
/// fault when it has stopped, else nothing yet.
pub fn try_recv(state: &mut ConnectionState) -> (r: ReadOutcome)
    ensures
        old(state).read_buffer@.len() > 0 ==> (r matches ReadOutcome::Data(d) && d@ == old(
            state,
        ).read_buffer@ && final(state).read_buffer@ == Seq::<u8>::empty()),
        old(state).read_buffer@.len() == 0 ==> final(state).read_buffer@ == Seq::<u8>::empty() && match old(
            state,
        ).status {
            ConnectionStatus::Error(f) => r matches ReadOutcome::Closed(g) && g == f,
            _ => r is Pending,
        },
        final(state).write_buffer@ == old(state).write_buffer@,
        final(state).seq == old(state).seq,
        final(state).ack == old(state).ack,
        final(state).status == old(state).status,
        final(state).peer_seq == old(state).peer_seq,
        final(state).host_port == old(state).host_port,
        final(state).peer_port == old(state).peer_port,
{
    if state.read_buffer.len() > 0 {
        return ReadOutcome::Data(uncache_all(state));
    }
    match state.status {
        ConnectionStatus::Error(f) => ReadOutcome::Closed(f),
        _ => ReadOutcome::Pending,
    }
}

} // verus!
