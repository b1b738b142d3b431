//! The HTTP/2 frames that the XPC transport exchanges with a device.
//!
//! A frame on the wire is a nine-byte header (24-bit length, type, flags,
//! 32-bit stream id) followed by its body. Reading the header and the body
//! is the caller's I/O; [`Frame::decode`] turns them into a frame.

use vstd::prelude::*;

use crate::bytes::append_bytes;
use crate::error::IdeviceError;
use crate::tcp::packets::{be16, be32, be32_bytes, lemma_be32_roundtrip};
use vstd::utf8::{decode_utf8, valid_utf8};

verus! {

/// A frame that can be written to the wire.
pub trait HttpFrame {
    /// The frame's bytes: header and body.
    fn serialize(&self) -> Vec<u8>;
}

/// A frame read from the device.
#[derive(Debug)]
pub enum Frame {
    /// A SETTINGS frame.
    Settings(SettingsFrame),
    /// A WINDOW_UPDATE frame.
    WindowUpdate(WindowUpdateFrame),
    /// A HEADERS frame.
    Headers(HeadersFrame),
    /// A DATA frame.
    Data(DataFrame),
}

/// A SETTINGS frame.
#[derive(Debug, Clone)]
pub struct SettingsFrame {
    /// The settings, in order.
    pub settings: Vec<Setting>,
    /// Stream id.
    pub stream_id: u32,
    /// Frame flags.
    pub flags: u8,
}

/// One HTTP/2 setting.
#[derive(Debug, Clone, Copy, PartialEq, Eq, Structural)]
pub enum Setting {
    /// SETTINGS_MAX_CONCURRENT_STREAMS (0x03).
    MaxConcurrentStreams(u32),
    /// SETTINGS_INITIAL_WINDOW_SIZE (0x04).
    InitialWindowSize(u32),
}

/// A WINDOW_UPDATE frame.
#[derive(Debug, Clone)]
pub struct WindowUpdateFrame {
    /// Window size increment.
    pub increment_size: u32,
    /// Stream id.
    pub stream_id: u32,
}

/// A HEADERS frame; only used to open new streams, so it carries no header
/// block.
#[derive(Debug, Clone)]
pub struct HeadersFrame {
    /// Stream id.
    pub stream_id: u32,
}

/// A DATA frame.
#[derive(Debug, Clone)]
pub struct DataFrame {
    /// Stream id.
    pub stream_id: u32,
    /// Payload.
    pub payload: Vec<u8>,
}

// ---------------------------------------------------------------------------
// Wire format
// ---------------------------------------------------------------------------

/// The low 24 bits of `n`, big-endian: a frame length field.
pub open spec fn be24_bytes(n: nat) -> Seq<u8> {
    seq![((n / 0x1_0000) % 0x100) as u8, ((n / 0x100) % 0x100) as u8, (n % 0x100) as u8]
}

/// The six bytes of a setting: its identifier, then its value.
pub open spec fn setting_bytes(s: Setting) -> Seq<u8> {
    match s {
        Setting::MaxConcurrentStreams(m) => seq![0x00u8, 0x03] + be32_bytes(m),
        Setting::InitialWindowSize(w) => seq![0x00u8, 0x04] + be32_bytes(w),
    }
}

/// The settings, each as its six bytes, in order.
pub open spec fn settings_bytes(ss: Seq<Setting>) -> Seq<u8>
    decreases ss.len(),
{
    if ss.len() == 0 {
        Seq::empty()
    } else {
        settings_bytes(ss.drop_last()) + setting_bytes(ss.last())
    }
}

/// A SETTINGS frame on the wire.
pub open spec fn settings_frame_bytes(settings: Seq<Setting>, stream_id: u32, flags: u8) -> Seq<u8> {
    let body = settings_bytes(settings);
    be24_bytes(body.len()) + seq![0x04u8, flags] + be32_bytes(stream_id) + body
}

/// A WINDOW_UPDATE frame on the wire.
pub open spec fn window_update_frame_bytes(increment_size: u32, stream_id: u32) -> Seq<u8> {
    seq![0x00u8, 0x00, 0x04, 0x08, 0x00] + be32_bytes(stream_id) + be32_bytes(increment_size)
}

/// A HEADERS frame on the wire (no header block, END_HEADERS set).
pub open spec fn headers_frame_bytes(stream_id: u32) -> Seq<u8> {
    seq![0x00u8, 0x00, 0x00, 0x01, 0x04] + be32_bytes(stream_id)
}

/// A DATA frame on the wire.
pub open spec fn data_frame_bytes(stream_id: u32, payload: Seq<u8>) -> Seq<u8> {
    be24_bytes(payload.len()) + seq![0x00u8, 0x00] + be32_bytes(stream_id) + payload
}

fn push_be32(out: &mut Vec<u8>, x: u32)
    ensures
        final(out)@ == old(out)@ + be32_bytes(x),
{
    out.push((x / 0x100_0000) as u8);
    out.push(((x / 0x1_0000) % 0x100) as u8);
    out.push(((x / 0x100) % 0x100) as u8);
    out.push((x % 0x100) as u8);
    assert(final(out)@ =~= old(out)@ + be32_bytes(x));
}

fn push_be24(out: &mut Vec<u8>, n: usize)
    ensures
        final(out)@ == old(out)@ + be24_bytes(n as nat),
{
    out.push(((n / 0x1_0000) % 0x100) as u8);
    out.push(((n / 0x100) % 0x100) as u8);
    out.push((n % 0x100) as u8);
    assert(final(out)@ =~= old(out)@ + be24_bytes(n as nat));
}

impl Setting {
    /// The setting's six bytes.
    pub fn serialize(&self) -> (r: Vec<u8>)
        ensures
            r@ == setting_bytes(*self),
    {
        let mut res: Vec<u8> = Vec::new();
        match self {
            Setting::MaxConcurrentStreams(m) => {
                res.push(0x00);
                res.push(0x03);
                push_be32(&mut res, *m);
            },
            Setting::InitialWindowSize(s) => {
                res.push(0x00);
                res.push(0x04);
                push_be32(&mut res, *s);
            },
        }
        assert(res@ =~= setting_bytes(*self));
        res
    }
}

impl HttpFrame for SettingsFrame {
    fn serialize(&self) -> (r: Vec<u8>)
        ensures
            r@ == settings_frame_bytes(self.settings@, self.stream_id, self.flags),
    {
        let mut settings: Vec<u8> = Vec::new();
        let mut i: usize = 0;
        while i < self.settings.len()
            invariant
                i <= self.settings@.len(),
                settings@ == settings_bytes(self.settings@.take(i as int)),
                settings@.len() == 6 * i,
            decreases self.settings.len() - i,
        {
            let one = self.settings[i].serialize();
            assert(self.settings@.take(i + 1).drop_last() =~= self.settings@.take(i as int));
            append_bytes(&mut settings, one.as_slice());
            i = i + 1;
        }
        assert(self.settings@.take(i as int) =~= self.settings@);
        let mut res: Vec<u8> = Vec::new();
        push_be24(&mut res, settings.len());
        res.push(0x04);
        res.push(self.flags);
        push_be32(&mut res, self.stream_id);
        append_bytes(&mut res, settings.as_slice());
        assert(res@ =~= settings_frame_bytes(self.settings@, self.stream_id, self.flags));
        res
    }
}

impl HttpFrame for WindowUpdateFrame {
    fn serialize(&self) -> (r: Vec<u8>)
        ensures
            r@ == window_update_frame_bytes(self.increment_size, self.stream_id),
    {
        let mut res: Vec<u8> = Vec::new();
        res.push(0x00);
        res.push(0x00);
        res.push(0x04);
        res.push(0x08);
        res.push(0x00);
        push_be32(&mut res, self.stream_id);
        push_be32(&mut res, self.increment_size);
        assert(res@ =~= window_update_frame_bytes(self.increment_size, self.stream_id));
        res
    }
}

impl HttpFrame for HeadersFrame {
    fn serialize(&self) -> (r: Vec<u8>)
        ensures
            r@ == headers_frame_bytes(self.stream_id),
    {
        let mut res: Vec<u8> = Vec::new();
        res.push(0x00);
        res.push(0x00);
        res.push(0x00);
        res.push(0x01);
        res.push(0x04);
        push_be32(&mut res, self.stream_id);
        assert(res@ =~= headers_frame_bytes(self.stream_id));
        res
    }
}

impl HttpFrame for DataFrame {
    fn serialize(&self) -> (r: Vec<u8>)
        ensures
            r@ == data_frame_bytes(self.stream_id, self.payload@),
    {
        let mut res: Vec<u8> = Vec::new();
        push_be24(&mut res, self.payload.len());
        res.push(0x00);
        res.push(0x00);
        push_be32(&mut res, self.stream_id);
        append_bytes(&mut res, self.payload.as_slice());
        assert(res@ =~= data_frame_bytes(self.stream_id, self.payload@));
        res
    }
}

// ---------------------------------------------------------------------------
// Decoding
// ---------------------------------------------------------------------------

/// The frame header fields: body length, type, flags and stream id.
pub open spec fn frame_header_of(h: Seq<u8>) -> (u32, u8, u8, u32) {
    (
        (h[0] as nat * 0x1_0000 + h[1] as nat * 0x100 + h[2] as nat) as u32,
        h[3],
        h[4],
        be32(h, 5) as u32,
    )
}

/// The setting that an identifier and value give, for the two identifiers
/// this transport knows.
pub open spec fn setting_of(id: nat, value: u32) -> Setting {
    if id == 3 {
        Setting::MaxConcurrentStreams(value)
    } else {
        Setting::InitialWindowSize(value)
    }
}

/// The settings a SETTINGS body holds, read six bytes at a time until fewer
/// than two bytes remain; an unknown identifier or a value cut short is an
/// error.
pub open spec fn settings_decoded(body: Seq<u8>) -> Result<Seq<Setting>, IdeviceError>
    decreases body.len(),
{
    if body.len() < 2 {
        Ok(Seq::empty())
    } else {
        let id = be16(body[0], body[1]);
        if id != 3 && id != 4 {
            Err(IdeviceError::UnknownHttpSetting(id as u16))
        } else if body.len() < 6 {
            Err(IdeviceError::NotEnoughBytes((body.len() - 2) as usize, 4))
        } else {
            match settings_decoded(body.skip(6)) {
                Ok(rest) => Ok(seq![setting_of(id, be32(body, 2) as u32)] + rest),
                Err(e) => Err(e),
            }
        }
    }
}

/// What `String::from_utf8_lossy` makes of some bytes.
pub uninterp spec fn utf8_lossy(bytes: Seq<u8>) -> Seq<char>;

/// Decodes bytes as UTF-8 with `String::from_utf8_lossy`.
///
/// The contract states what std documents: valid UTF-8 is decoded as it is;
/// what an invalid sequence becomes (U+FFFD replacements) is left to the
/// name `utf8_lossy`.
#[verifier::external_body]
pub(crate) fn lossy_string(bytes: &[u8]) -> (r: String)
    ensures
        r@ == utf8_lossy(bytes@),
        valid_utf8(bytes@) ==> r@ == decode_utf8(bytes@),
{
    String::from_utf8_lossy(bytes).to_string()
}

/// The debug message of a GOAWAY body: the bytes after the last-stream id
/// and error code, or `<MISSING>` when the body is shorter than that.
pub open spec fn goaway_message(body: Seq<u8>, m: Seq<char>) -> bool {
    if body.len() < 8 {
        m == "<MISSING>"@
    } else {
        m == utf8_lossy(body.skip(8))
    }
}

/// What [`Frame::decode`] gives for a frame of type `frame_type` with `body`.
pub open spec fn frame_decoded(
    frame_type: u8,
    flags: u8,
    stream_id: u32,
    body: Seq<u8>,
    r: Result<Frame, IdeviceError>,
) -> bool {
    if frame_type == 0x00 {
        r matches Ok(Frame::Data(d)) && d.stream_id == stream_id && d.payload@ == body
    } else if frame_type == 0x01 {
        r matches Ok(Frame::Headers(h)) && h.stream_id == stream_id
    } else if frame_type == 0x03 {
        r matches Err(IdeviceError::HttpStreamReset)
    } else if frame_type == 0x04 {
        match settings_decoded(body) {
            Ok(ss) => r matches Ok(Frame::Settings(s)) && s.settings@ == ss && s.stream_id
                == stream_id && s.flags == flags,
            Err(e) => r == Err::<Frame, IdeviceError>(e),
        }
    } else if frame_type == 0x07 {
        r matches Err(IdeviceError::HttpGoAway(m)) && goaway_message(body, m@)
    } else if frame_type == 0x08 {
        if body.len() != 4 {
            r matches Err(IdeviceError::UnexpectedResponse)
        } else {
            r matches Ok(Frame::WindowUpdate(w)) && w.increment_size == be32(body, 0)
                && w.stream_id == stream_id
        }
    } else {
        r matches Err(IdeviceError::UnknownFrame(t)) && t == frame_type
    }
}

fn read_be32(s: &[u8], at: usize) -> (r: u32)
    requires
        at + 4 <= s@.len(),
    ensures
        r == be32(s@, at as int),
{
    (s[at] as u32) * 0x100_0000 + (s[at + 1] as u32) * 0x1_0000 + (s[at + 2] as u32) * 0x100 + (s[at
        + 3] as u32)
}

/// Reads the settings of a SETTINGS body.
fn decode_settings(body: &[u8]) -> (r: Result<Vec<Setting>, IdeviceError>)
    ensures
        match settings_decoded(body@) {
            Ok(ss) => r matches Ok(v) && v@ == ss,
            Err(e) => r == Err::<Vec<Setting>, IdeviceError>(e),
        },
{
    let mut settings: Vec<Setting> = Vec::new();
    let mut pos: usize = 0;
    proof {
        assert(body@.skip(0) =~= body@);
        match settings_decoded(body@) {
            Ok(r) => {
                assert(settings@ + r =~= r);
            },
            Err(_) => {},
        }
    }
    while body.len() - pos >= 2
        invariant
            pos <= body@.len(),
            settings_decoded(body@) == match settings_decoded(body@.skip(pos as int)) {
                Ok(rest) => Ok(settings@ + rest),
                Err(e) => Err::<Seq<Setting>, IdeviceError>(e),
            },
        decreases body.len() - pos,
    {
        let ghost rest = body@.skip(pos as int);
        let id = (body[pos] as u16) * 0x100 + (body[pos + 1] as u16);
        assert(id == be16(rest[0], rest[1]));
        if id != 3 && id != 4 {
            return Err(IdeviceError::UnknownHttpSetting(id));
        }
        if body.len() - pos < 6 {
            return Err(IdeviceError::NotEnoughBytes(body.len() - pos - 2, 4));
        }
        let value = read_be32(body, pos + 2);
        assert(value == be32(rest, 2));
        let s = if id == 3 {
            Setting::MaxConcurrentStreams(value)
        } else {
            Setting::InitialWindowSize(value)
        };
        assert(rest.skip(6) =~= body@.skip(pos + 6));
        proof {
            match settings_decoded(rest.skip(6)) {
                Ok(tail) => {
                    assert(settings@.push(s) + tail =~= settings@ + (seq![s] + tail));
                },
                Err(_) => {},
            }
        }
        settings.push(s);
        pos = pos + 6;
    }
    assert(settings@ + Seq::<Setting>::empty() =~= settings@);
    Ok(settings)
}

impl Frame {
    /// The body length, type, flags and stream id of a nine-byte frame
    /// header.
    pub fn header_fields(header: [u8; 9]) -> (r: (u32, u8, u8, u32))
        ensures
            r == frame_header_of(header@),
    {
        let len = (header[0] as u32) * 0x1_0000 + (header[1] as u32) * 0x100 + header[2] as u32;
        let stream_id = (header[5] as u32) * 0x100_0000 + (header[6] as u32) * 0x1_0000
            + (header[7] as u32) * 0x100 + (header[8] as u32);
        (len, header[3], header[4], stream_id)
    }

    /// Decodes a frame from its type, flags, stream id and body.
    ///
    /// RST_STREAM and GOAWAY frames, unknown frame types, unknown settings
    /// and malformed WINDOW_UPDATE bodies are errors.
    pub fn decode(frame_type: u8, flags: u8, stream_id: u32, body: Vec<u8>) -> (r: Result<
        Frame,
        IdeviceError,
    >)
        ensures
            frame_decoded(frame_type, flags, stream_id, body@, r),
    {
        match frame_type {
            0x00 => Ok(Frame::Data(DataFrame { stream_id, payload: body })),
            0x01 => Ok(Frame::Headers(HeadersFrame { stream_id })),
            0x03 => Err(IdeviceError::HttpStreamReset),
            0x04 => {
                match decode_settings(body.as_slice()) {
                    Ok(settings) => Ok(Frame::Settings(SettingsFrame { settings, stream_id, flags })),
                    Err(e) => Err(e),
                }
            },
            0x07 => {
                let msg = if body.len() < 8 {
                    "<MISSING>".to_owned()
                } else {
                    let tail = slice_from(body.as_slice(), 8);
                    lossy_string(tail.as_slice())
                };
                Err(IdeviceError::HttpGoAway(msg))
            },
            0x08 => {
                if body.len() != 4 {
                    return Err(IdeviceError::UnexpectedResponse);
                }
                let window = read_be32(body.as_slice(), 0);
                Ok(Frame::WindowUpdate(WindowUpdateFrame { increment_size: window, stream_id }))
            },
            _ => Err(IdeviceError::UnknownFrame(frame_type)),
        }
    }
}

/// The bytes of `s` from `start` on.
fn slice_from(s: &[u8], start: usize) -> (r: Vec<u8>)
    requires
        start <= s@.len(),
    ensures
        r@ == s@.skip(start as int),
{
    let mut out: Vec<u8> = Vec::new();
    let mut i = start;
    while i < s.len()
        invariant
            start <= i <= s@.len(),
            out@ == s@.subrange(start as int, i as int),
        decreases s.len() - i,
    {
        out.push(s[i]);
        i = i + 1;
        assert(out@ =~= s@.subrange(start as int, i as int));
    }
    assert(out@ =~= s@.skip(start as int));
    out
}

/// Law: a DATA frame written to the wire reads back, through its header and
/// body, as the same stream and payload, for payloads below 2^24 bytes.
#[verifier::spinoff_prover]
#[verifier::rlimit(40)]
pub proof fn law_data_frame_roundtrip(stream_id: u32, payload: Seq<u8>)
    requires
        payload.len() < 0x100_0000,
    ensures
        ({
            let w = data_frame_bytes(stream_id, payload);
            let h = frame_header_of(w.take(9));
            &&& h.0 == payload.len()
            &&& h.1 == 0x00
            &&& h.3 == stream_id
            &&& w.skip(9) == payload
        }),
{
    let w = data_frame_bytes(stream_id, payload);
    assert(w.skip(9) =~= payload);
    assert(w.take(9)[5] == w[5] && w.take(9)[6] == w[6] && w.take(9)[7] == w[7] && w.take(9)[8]
        == w[8]);
}

/// Law: a SETTINGS frame written to the wire decodes back to the same
/// settings, stream id and flags.
#[verifier::spinoff_prover]
#[verifier::rlimit(40)]
pub proof fn law_settings_frame_roundtrip(settings: Seq<Setting>, stream_id: u32, flags: u8)
    requires
        6 * settings.len() < 0x100_0000,
    ensures
        ({
            let w = settings_frame_bytes(settings, stream_id, flags);
            let h = frame_header_of(w.take(9));
            &&& h.0 == 6 * settings.len()
            &&& h.1 == 0x04
            &&& h.2 == flags
            &&& h.3 == stream_id
            &&& w.skip(9).len() == h.0
            &&& settings_decoded(w.skip(9)) == Ok::<Seq<Setting>, IdeviceError>(settings)
        }),
{
    let w = settings_frame_bytes(settings, stream_id, flags);
    lemma_settings_bytes_len(settings);
    assert(w.skip(9) =~= settings_bytes(settings));
    lemma_settings_decode(settings);
}

proof fn lemma_settings_bytes_len(ss: Seq<Setting>)
    ensures
        settings_bytes(ss).len() == 6 * ss.len(),
    decreases ss.len(),
{
    if ss.len() > 0 {
        lemma_settings_bytes_len(ss.drop_last());
    }
}

proof fn lemma_settings_decode(ss: Seq<Setting>)
    ensures
        settings_decoded(settings_bytes(ss)) == Ok::<Seq<Setting>, IdeviceError>(ss),
    decreases ss.len(),
{
    if ss.len() > 0 {
        let first = ss[0];
        let rest = ss.skip(1);
        lemma_settings_bytes_cons(first, rest);
        assert(seq![first] + rest =~= ss);
        lemma_settings_decode(rest);
        let b = settings_bytes(ss);
        let fb = setting_bytes(first);
        assert(b == fb + settings_bytes(rest));
        assert(b.skip(6) =~= settings_bytes(rest));
        match first {
            Setting::MaxConcurrentStreams(m) => {
                lemma_be32_roundtrip(m);
                assert(b[0] == 0 && b[1] == 3);
                assert(b[2] == be32_bytes(m)[0] && b[3] == be32_bytes(m)[1] && b[4] == be32_bytes(
                    m,
                )[2] && b[5] == be32_bytes(m)[3]);
            },
            Setting::InitialWindowSize(w) => {
                lemma_be32_roundtrip(w);
                assert(b[0] == 0 && b[1] == 4);
                assert(b[2] == be32_bytes(w)[0] && b[3] == be32_bytes(w)[1] && b[4] == be32_bytes(
                    w,
                )[2] && b[5] == be32_bytes(w)[3]);
            },
        }
        let id = be16(b[0], b[1]);
        assert(setting_of(id, be32(b, 2) as u32) == first);
        assert(settings_decoded(b.skip(6)) == Ok::<Seq<Setting>, IdeviceError>(rest));
        assert(settings_decoded(b) == Ok::<Seq<Setting>, IdeviceError>(seq![first] + rest));
        assert(seq![first] + rest =~= ss);
    } else {
        assert(settings_bytes(ss) =~= Seq::<u8>::empty());
        assert(ss =~= Seq::<Setting>::empty());
    }
}

proof fn lemma_settings_bytes_cons(first: Setting, rest: Seq<Setting>)
    ensures
        settings_bytes(seq![first] + rest) == setting_bytes(first) + settings_bytes(rest),
    decreases rest.len(),
{
    if rest.len() == 0 {
        assert(seq![first] + rest =~= seq![first]);
        assert(seq![first].drop_last() =~= Seq::<Setting>::empty());
        assert(settings_bytes(Seq::<Setting>::empty()) =~= Seq::<u8>::empty());
        assert(settings_bytes(rest) =~= Seq::<u8>::empty());
        assert(setting_bytes(first) + settings_bytes(rest) =~= setting_bytes(first));
        assert(settings_bytes(seq![first]) =~= Seq::<u8>::empty() + setting_bytes(first));
    } else {
        lemma_settings_bytes_cons(first, rest.drop_last());
        assert((seq![first] + rest).drop_last() =~= seq![first] + rest.drop_last());
        assert((seq![first] + rest).last() == rest.last());
        assert(setting_bytes(first) + settings_bytes(rest.drop_last()) + setting_bytes(rest.last())
            =~= setting_bytes(first) + (settings_bytes(rest.drop_last()) + setting_bytes(
            rest.last(),
        )));
    }
}

} // verus!
