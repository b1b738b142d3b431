//! Recovery and DFU protocol over a consumer-provided USB transport.
//!
//! The USB transfers themselves are the caller's I/O (its transport); this
//! module holds the device state and decides what to send: iBoot commands,
//! string descriptor decoding, and the DFU upload packets with their salted
//! CRC-32.

use vstd::prelude::*;

use crate::bytes::append_bytes;
use crate::error::IdeviceError;
use crate::restore::errors::RestoreError;
use crate::restore::mode::{DeviceInfo, Mode, mode_product_id};
use vstd::string::{StringExecFns, StringSliceAdditionalSpecFns};

verus! {

/// Default USB transfer timeout (milliseconds).
pub const USB_TIMEOUT_MS: u32 = 10_000;

/// Bulk transfer chunk size in recovery mode.
pub const TRANSFER_SIZE_RECOVERY: usize = 0x8000;

/// Control transfer chunk size in DFU and WTF mode.
pub const TRANSFER_SIZE_DFU: usize = 0x800;

/// The parameters of a USB control transfer setup packet.
#[derive(Debug, Clone, Copy, PartialEq, Eq, Structural)]
pub struct ControlSetup {
    /// `bmRequestType`.
    pub request_type: u8,
    /// `bRequest`.
    pub request: u8,
    /// `wValue`.
    pub value: u16,
    /// `wIndex`.
    pub index: u16,
}

impl ControlSetup {
    /// A setup packet with the given fields.
    pub fn new(request_type: u8, request: u8, value: u16, index: u16) -> (r: ControlSetup)
        ensures
            r == (ControlSetup { request_type, request, value, index }),
    {
        ControlSetup { request_type, request, value, index }
    }
}

/// A device in recovery or DFU mode, driven over a transport `T`.
#[derive(Debug)]
pub struct RecoveryDevice<T> {
    transport: T,
    mode: Mode,
    info: DeviceInfo,
}

impl<T> RecoveryDevice<T> {
    /// The device's mode.
    pub closed spec fn device_mode(&self) -> Mode {
        self.mode
    }

    /// The device's identifiers.
    pub closed spec fn device_info(&self) -> DeviceInfo {
        self.info
    }

    /// Opens a recovery or DFU device from its transport, the product id of
    /// its device descriptor and its parsed serial string; fails when the
    /// product id is not one of the recovery-family modes.
    pub fn new(transport: T, product_id: u16, info: DeviceInfo) -> (r: Result<
        RecoveryDevice<T>,
        IdeviceError,
    >)
        ensures
            match r {
                Ok(d) => mode_product_id(d.device_mode()) == product_id && d.device_info() == info,
                Err(e) => (forall|m: Mode| mode_product_id(m) != product_id) && e matches IdeviceError::Restore(
                    RestoreError::Recovery(_),
                ),
            },
    {
        match Mode::from_product_id(product_id) {
            Some(mode) => Ok(RecoveryDevice { transport, mode, info }),
            None => Err(
                IdeviceError::Restore(
                    RestoreError::Recovery("not an Apple recovery/DFU product id".to_owned()),
                ),
            ),
        }
    }

    /// The device's current mode.
    pub fn mode(&self) -> (r: Mode)
        ensures
            r == self.device_mode(),
    {
        self.mode
    }

    /// The parsed device identifiers.
    pub fn info(&self) -> (r: &DeviceInfo)
        ensures
            *r == self.device_info(),
    {
        &self.info
    }

    /// The transport, for the caller to perform transfers on.
    pub fn transport_mut(&mut self) -> (r: &mut T)
        ensures
            final(self).device_mode() == old(self).device_mode(),
            final(self).device_info() == old(self).device_info(),
    {
        &mut self.transport
    }

    /// Whether configuring the device also claims interface 1 (alternate
    /// setting 1): recovery modes above the second one do.
    pub fn claims_second_interface(&self) -> (r: bool)
        ensures
            r == (!(self.device_mode() is Wtf || self.device_mode() is Dfu) && mode_product_id(self.device_mode())
                > mode_product_id(Mode::Recovery2)),
    {
        self.mode.is_recovery() && self.mode.product_id() > Mode::Recovery2.product_id()
    }
}

// ---------------------------------------------------------------------------
// iBoot commands
// ---------------------------------------------------------------------------

/// The bytes of an iBoot command: the command, NUL-terminated.
pub fn command_bytes(command: &str) -> (r: Vec<u8>)
    ensures
        r@ == command.spec_bytes().push(0),
{
    let mut data: Vec<u8> = Vec::new();
    append_bytes(&mut data, command.as_bytes());
    data.push(0);
    data
}

/// The command that reads an environment variable.
pub fn getenv_command(name: &str) -> (r: String)
    ensures
        r@ == "getenv "@ + name@,
{
    let mut c = String::from_str("getenv ");
    c.append(name);
    c
}

/// The command that sets an environment variable.
pub fn setenv_command(name: &str, value: &str) -> (r: String)
    ensures
        r@ == "setenv "@ + name@ + " "@ + value@,
{
    let mut c = String::from_str("setenv ");
    c.append(name);
    c.append(" ");
    c.append(value);
    c
}

/// Checks one recovery-mode bulk write: `sent` bytes of a chunk of `len`.
pub fn check_recovery_write(sent: usize, len: usize) -> (r: Result<(), IdeviceError>)
    ensures
        r is Ok <==> sent == len,
        r matches Err(e) ==> e matches IdeviceError::Restore(RestoreError::Recovery(_)),
{
    if sent != len {
        return Err(
            IdeviceError::Restore(RestoreError::Recovery("recovery upload short write".to_owned())),
        );
    }
    Ok(())
}

// ---------------------------------------------------------------------------
// String descriptors
// ---------------------------------------------------------------------------

/// The UTF-16 code units of a string descriptor: `[bLength, 0x03, units...]`,
/// read up to `bLength` (or the end of the data), little-endian, a trailing
/// odd byte dropped.
pub open spec fn descriptor_units(data: Seq<u8>) -> Seq<u16> {
    let end = if (data[0] as nat) < data.len() {
        data[0] as nat
    } else {
        data.len()
    };
    let n = if end >= 2 {
        (end - 2) / 2
    } else {
        0
    };
    Seq::new(n as nat, |i: int| (data[2 + 2 * i] as nat + data[3 + 2 * i] as nat * 0x100) as u16)
}

/// What `String::from_utf16_lossy` makes of some code units.
pub uninterp spec fn utf16_lossy(units: Seq<u16>) -> Seq<char>;

/// Decodes UTF-16 code units, invalid ones replaced, with
/// `String::from_utf16_lossy`. What the replacement gives is left to the name
/// `utf16_lossy`.
#[verifier::external_body]
fn utf16_string(units: &[u16]) -> (r: String)
    ensures
        r@ == utf16_lossy(units@),
{
    String::from_utf16_lossy(units)
}

/// Decodes a string descriptor read with `GET_DESCRIPTOR`; fails when it is
/// shorter than two bytes or not a string descriptor.
pub fn decode_string_descriptor(data: &[u8]) -> (r: Result<String, IdeviceError>)
    ensures
        match r {
            Ok(s) => data@.len() >= 2 && data@[1] == 0x03 && s@ == utf16_lossy(
                descriptor_units(data@),
            ),
            Err(e) => !(data@.len() >= 2 && data@[1] == 0x03) && e matches IdeviceError::Restore(
                RestoreError::Recovery(_),
            ),
        },
{
    if data.len() < 2 || data[1] != 0x03 {
        return Err(
            IdeviceError::Restore(
                RestoreError::Recovery("string descriptor malformed or absent".to_owned()),
            ),
        );
    }
    let end = if (data[0] as usize) < data.len() {
        data[0] as usize
    } else {
        data.len()
    };
    let n = if end >= 2 {
        (end - 2) / 2
    } else {
        0
    };
    let mut units: Vec<u16> = Vec::new();
    let mut i: usize = 0;
    while i < n
        invariant
            n == descriptor_units(data@).len(),
            2 + 2 * n <= data@.len(),
            i <= n,
            units@ == descriptor_units(data@).take(i as int),
        decreases n - i,
    {
        let u = (data[2 + 2 * i] as u16) + (data[3 + 2 * i] as u16) * 0x100;
        units.push(u);
        i = i + 1;
        assert(units@ =~= descriptor_units(data@).take(i as int));
    }
    assert(units@ =~= descriptor_units(data@));
    Ok(utf16_string(units.as_slice()))
}

// ---------------------------------------------------------------------------
// DFU upload
// ---------------------------------------------------------------------------

/// The salted suffix folded into the CRC and sent after the image.
pub open spec fn dfu_xbuf() -> Seq<u8> {
    seq![0xFFu8, 0xFF, 0xFF, 0xFF, 0xAC, 0x05, 0x00, 0x01, 0x55, 0x46, 0x44, 0x10]
}

/// Eight reflected CRC-32 shift steps (polynomial 0xEDB88320), `k` of them.
pub open spec fn crc_shift(crc: u32, k: nat) -> u32
    decreases k,
{
    if k == 0 {
        crc
    } else {
        let c = crc_shift(crc, (k - 1) as nat);
        if c & 1 != 0 {
            (c >> 1) ^ 0xEDB8_8320u32
        } else {
            c >> 1
        }
    }
}

/// The CRC register after feeding `data` into it.
pub open spec fn crc_feed(crc: u32, data: Seq<u8>) -> u32
    decreases data.len(),
{
    if data.len() == 0 {
        crc
    } else {
        crc_shift(crc_feed(crc, data.drop_last()) ^ (data.last() as u32), 8)
    }
}

/// The zlib CRC-32 of `data` continuing from `crc`.
pub open spec fn crc32_zlib_spec(crc: u32, data: Seq<u8>) -> u32 {
    crc_feed(crc ^ 0xFFFF_FFFFu32, data) ^ 0xFFFF_FFFFu32
}

/// The four little-endian bytes of a 32-bit value.
pub open spec fn le32_bytes(x: u32) -> Seq<u8> {
    seq![(x % 0x100) as u8, ((x / 0x100) % 0x100) as u8, ((x / 0x1_0000) % 0x100) as u8, (x
        / 0x100_0000) as u8]
}

/// What follows the image in a DFU upload: the salted suffix and the CRC of
/// the image and suffix, little-endian.
pub open spec fn dfu_trailer(buf: Seq<u8>) -> Seq<u8> {
    dfu_xbuf() + le32_bytes(crc32_zlib_spec(crc32_zlib_spec(0xFFFF_FFFFu32, buf), dfu_xbuf()))
}

/// The zlib CRC-32 of `data` continuing from `crc`.
fn crc32_zlib(crc: u32, data: &[u8]) -> (r: u32)
    ensures
        r == crc32_zlib_spec(crc, data@),
{
    let mut c = crc ^ 0xFFFF_FFFF;
    let ghost start = c;
    let mut i: usize = 0;
    while i < data.len()
        invariant
            i <= data@.len(),
            c == crc_feed(start, data@.take(i as int)),
        decreases data.len() - i,
    {
        let ghost before = c;
        c = c ^ (data[i] as u32);
        let ghost fed = c;
        let mut k: u32 = 0;
        while k < 8
            invariant
                k <= 8,
                c == crc_shift(fed, k as nat),
            decreases 8 - k,
        {
            c = if c & 1 != 0 {
                (c >> 1) ^ 0xEDB8_8320
            } else {
                c >> 1
            };
            k = k + 1;
        }
        assert(data@.take(i + 1).drop_last() =~= data@.take(i as int));
        i = i + 1;
    }
    assert(data@.take(i as int) =~= data@);
    c ^ 0xFFFF_FFFF
}

/// One DFU control transfer: its setup packet and its data.
#[derive(Debug, Clone)]
pub struct DfuTransfer {
    /// The setup packet.
    pub setup: ControlSetup,
    /// The data sent.
    pub data: Vec<u8>,
}

/// The DNLOAD setup packet for packet number `index`.
pub open spec fn dnload(index: u16) -> ControlSetup {
    ControlSetup { request_type: 0x21, request: 1, value: index, index: 0 }
}

/// Where the packet that starts at `offset` ends.
pub open spec fn dfu_packet_end(len: nat, offset: nat) -> nat {
    if offset + TRANSFER_SIZE_DFU < len {
        offset + TRANSFER_SIZE_DFU as nat
    } else {
        len
    }
}

/// The data of the transfers that send the packet at `offset`: the chunk,
/// and for the last chunk the trailer with it (or after it, in a transfer of
/// its own, when both do not fit in one packet).
pub open spec fn dfu_packet_data(buf: Seq<u8>, offset: nat) -> Seq<Seq<u8>> {
    let end = dfu_packet_end(buf.len(), offset);
    let chunk = buf.subrange(offset as int, end as int);
    if end < buf.len() {
        seq![chunk]
    } else if chunk.len() + 16 > TRANSFER_SIZE_DFU {
        seq![chunk, dfu_trailer(buf)]
    } else {
        seq![chunk + dfu_trailer(buf)]
    }
}

/// The transfers that send the packet of `buf` at `offset`, numbered
/// `index`, and where the next packet starts.
pub fn dfu_packet(buf: &[u8], offset: usize, index: u16) -> (r: (Vec<DfuTransfer>, usize))
    requires
        offset < buf@.len(),
    ensures
        r.1 == dfu_packet_end(buf@.len(), offset as nat),
        r.0@.len() == dfu_packet_data(buf@, offset as nat).len(),
        forall|k: int|
            0 <= k < r.0@.len() ==> (#[trigger] r.0@[k]).setup == dnload(index) && r.0@[k].data@
                == dfu_packet_data(buf@, offset as nat)[k],
{
    let end = if buf.len() - offset > TRANSFER_SIZE_DFU {
        offset + TRANSFER_SIZE_DFU
    } else {
        buf.len()
    };
    let setup = ControlSetup::new(0x21, 1, index, 0);
    let mut chunk: Vec<u8> = Vec::new();
    let mut i = offset;
    while i < end
        invariant
            offset <= i <= end <= buf@.len(),
            chunk@ == buf@.subrange(offset as int, i as int),
        decreases end - i,
    {
        chunk.push(buf[i]);
        i = i + 1;
        assert(chunk@ =~= buf@.subrange(offset as int, i as int));
    }
    let mut out: Vec<DfuTransfer> = Vec::new();
    if end < buf.len() {
        out.push(DfuTransfer { setup, data: chunk });
        return (out, end);
    }
    let mut crc = crc32_zlib(0xFFFF_FFFF, buf);
    let xbuf: [u8; 12] = [0xFFu8, 0xFF, 0xFF, 0xFF, 0xAC, 0x05, 0x00, 0x01, 0x55, 0x46, 0x44, 0x10];
    assert(xbuf@ =~= dfu_xbuf());
    crc = crc32_zlib(crc, &xbuf);
    let mut trailer: Vec<u8> = Vec::new();
    append_bytes(&mut trailer, &xbuf);
    trailer.push((crc % 0x100) as u8);
    trailer.push(((crc / 0x100) % 0x100) as u8);
    trailer.push(((crc / 0x1_0000) % 0x100) as u8);
    trailer.push((crc / 0x100_0000) as u8);
    assert(trailer@ =~= dfu_trailer(buf@));
    if chunk.len() + trailer.len() > TRANSFER_SIZE_DFU {
        out.push(DfuTransfer { setup, data: chunk });
        out.push(DfuTransfer { setup, data: trailer });
    } else {
        let mut combined = chunk;
        append_bytes(&mut combined, trailer.as_slice());
        out.push(DfuTransfer { setup, data: combined });
    }
    (out, end)
}

/// The zero-length DNLOAD that ends a DFU upload of `len` bytes: its packet
/// number is the packet count, as a 16-bit value.
pub fn dfu_finish_setup(len: usize) -> (r: ControlSetup)
    ensures
        r == dnload(((len + TRANSFER_SIZE_DFU - 1) / (TRANSFER_SIZE_DFU as int) % 0x1_0000) as u16),
{
    let packets = len / TRANSFER_SIZE_DFU + if len % TRANSFER_SIZE_DFU != 0 {
        1
    } else {
        0
    };
    ControlSetup::new(0x21, 1, (packets % 0x1_0000) as u16, 0)
}

/// What to do with the DFU state the device reports before an upload.
#[derive(Debug)]
pub enum DfuStart {
    /// The device is idle (state 2): upload.
    Upload,
    /// The device is in an error state (10): send `CLRSTATUS`
    /// (`bRequest` 4), then fail with the error.
    ClearStatus(IdeviceError),
    /// Any other state: send `ABORT` (`bRequest` 6), then fail with the error.
    Abort(IdeviceError),
}

/// Decides on the first byte of the device's DFU state.
pub fn dfu_start(state: Option<u8>) -> (r: DfuStart)
    ensures
        state == Some(2u8) ==> r is Upload,
        state == Some(10u8) ==> r matches DfuStart::ClearStatus(IdeviceError::Restore(
            RestoreError::Recovery(_),
        )),
        state != Some(2u8) && state != Some(10u8) ==> r matches DfuStart::Abort(
            IdeviceError::Restore(RestoreError::Recovery(_)),
        ),
{
    match state {
        Some(2) => DfuStart::Upload,
        Some(10) => DfuStart::ClearStatus(
            IdeviceError::Restore(
                RestoreError::Recovery("DFU error state; issued CLRSTATUS".to_owned()),
            ),
        ),
        _ => DfuStart::Abort(
            IdeviceError::Restore(
                RestoreError::Recovery("unexpected DFU state; issued ABORT".to_owned()),
            ),
        ),
    }
}

/// All the data a DFU upload sends from `offset` on, in order.
pub open spec fn dfu_sent_from(buf: Seq<u8>, offset: nat) -> Seq<u8>
    decreases buf.len() - offset,
{
    if offset >= buf.len() {
        Seq::empty()
    } else {
        let d = dfu_packet_data(buf, offset);
        let here = if d.len() == 2 {
            d[0] + d[1]
        } else {
            d[0]
        };
        here + dfu_sent_from(buf, dfu_packet_end(buf.len(), offset))
    }
}

/// Law: a DFU upload sends the whole image, in order, then the salted
/// suffix and the CRC.
pub proof fn law_dfu_upload_sends_image_then_trailer(buf: Seq<u8>)
    requires
        buf.len() > 0,
    ensures
        dfu_sent_from(buf, 0) == buf + dfu_trailer(buf),
{
    lemma_dfu_sent_from(buf, 0);
    assert(buf.subrange(0, buf.len() as int) =~= buf);
}

proof fn lemma_dfu_sent_from(buf: Seq<u8>, offset: nat)
    requires
        offset < buf.len(),
    ensures
        dfu_sent_from(buf, offset) == buf.subrange(offset as int, buf.len() as int) + dfu_trailer(
            buf,
        ),
    decreases buf.len() - offset,
{
    let end = dfu_packet_end(buf.len(), offset);
    let chunk = buf.subrange(offset as int, end as int);
    if end < buf.len() {
        lemma_dfu_sent_from(buf, end);
        assert(chunk + (buf.subrange(end as int, buf.len() as int) + dfu_trailer(buf))
            =~= buf.subrange(offset as int, buf.len() as int) + dfu_trailer(buf));
    } else {
        assert(dfu_sent_from(buf, end) =~= Seq::<u8>::empty());
        assert(chunk =~= buf.subrange(offset as int, buf.len() as int));
        if chunk.len() + 16 > TRANSFER_SIZE_DFU {
            assert(dfu_packet_data(buf, offset) =~= seq![chunk, dfu_trailer(buf)]);
        } else {
            assert(dfu_packet_data(buf, offset) =~= seq![chunk + dfu_trailer(buf)]);
        }
        assert(dfu_sent_from(buf, offset) =~= chunk + dfu_trailer(buf));
    }
}

} // verus!
