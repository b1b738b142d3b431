//! Baseband firmware (MBN) stitching.

use vstd::prelude::*;

use crate::bytes::{append_bytes, bytes_equal};
use crate::error::IdeviceError;
use crate::restore::errors::RestoreError;
use vstd::slice::slice_to_vec;

verus! {

/// Header size of an MBN v1 container (ten `u32` fields).
pub const MBN_V1_HEADER: usize = 40;

/// Header size of an MBN v2 container (fourteen `u32` fields).
pub const MBN_V2_HEADER: usize = 56;

/// Offset of the MBN BIN magic.
pub const MBN_BIN_MAGIC_OFFSET: usize = 1;

/// The MBN v1 magic.
pub open spec fn mbn_v1_magic() -> Seq<u8> {
    seq![0x0au8, 0x00, 0x00, 0x00]
}

/// The MBN v2 magic.
pub open spec fn mbn_v2_magic() -> Seq<u8> {
    seq![0xd1u8, 0xdc, 0x4b, 0x84, 0x34, 0x10, 0xd7, 0x73]
}

/// The MBN BIN magic, found at [`MBN_BIN_MAGIC_OFFSET`].
pub open spec fn mbn_bin_magic() -> Seq<u8> {
    seq![0x04u8, 0x00, 0xea, 0x6c, 0x69, 0x48, 0x55]
}

/// The little-endian `u32` at `offset`, when four bytes are there.
pub open spec fn u32_le_at(data: Seq<u8>, offset: int) -> Option<u32> {
    if 0 <= offset && offset + 4 <= data.len() {
        Some(
            (data[offset] as nat + data[offset + 1] as nat * 0x100 + data[offset + 2] as nat
                * 0x1_0000 + data[offset + 3] as nat * 0x100_0000) as u32,
        )
    } else {
        None
    }
}

/// The image size that an MBN header records: the data size plus the header
/// for the v1 and v2 containers, the total size for the BIN form.
pub open spec fn mbn_image_size(data: Seq<u8>) -> Option<nat> {
    if data.len() > 8 && data.take(8) == mbn_v2_magic() {
        match u32_le_at(data, 40) {
            Some(s) => Some(s as nat + MBN_V2_HEADER as nat),
            None => None,
        }
    } else if data.len() > 4 && data.take(4) == mbn_v1_magic() {
        match u32_le_at(data, 32) {
            Some(s) => Some(s as nat + MBN_V1_HEADER as nat),
            None => None,
        }
    } else if data.len() > 8 && data.subrange(1, 8) == mbn_bin_magic() {
        match u32_le_at(data, 4) {
            Some(s) => Some(s as nat),
            None => None,
        }
    } else {
        None
    }
}

/// Reads a little-endian `u32` at `offset`, if in range.
fn read_u32_le(data: &[u8], offset: usize) -> (r: Option<u32>)
    ensures
        r == u32_le_at(data@, offset as int),
{
    if offset > data.len() || data.len() - offset < 4 {
        return None;
    }
    let v = (data[offset] as u32) + (data[offset + 1] as u32) * 0x100 + (data[offset + 2] as u32)
        * 0x1_0000 + (data[offset + 3] as u32) * 0x100_0000;
    Some(v)
}

/// Detects the image size an MBN header records (excluding any trailing
/// signature), for a sanity check against the input length.
pub fn detect_image_size(data: &[u8]) -> (r: Option<u64>)
    ensures
        match mbn_image_size(data@) {
            Some(n) => r == Some(n as u64),
            None => r is None,
        },
{
    let v2: [u8; 8] = [0xd1u8, 0xdc, 0x4b, 0x84, 0x34, 0x10, 0xd7, 0x73];
    let v1: [u8; 4] = [0x0au8, 0x00, 0x00, 0x00];
    let bin: [u8; 7] = [0x04u8, 0x00, 0xea, 0x6c, 0x69, 0x48, 0x55];
    assert(v2@ =~= mbn_v2_magic());
    assert(v1@ =~= mbn_v1_magic());
    assert(bin@ =~= mbn_bin_magic());
    if data.len() > 8 && bytes_equal(slice_prefix(data, 0, 8).as_slice(), &v2) {
        match read_u32_le(data, 40) {
            Some(s) => Some(s as u64 + MBN_V2_HEADER as u64),
            None => None,
        }
    } else if data.len() > 4 && bytes_equal(slice_prefix(data, 0, 4).as_slice(), &v1) {
        match read_u32_le(data, 32) {
            Some(s) => Some(s as u64 + MBN_V1_HEADER as u64),
            None => None,
        }
    } else if data.len() > 8 && bytes_equal(slice_prefix(data, 1, 8).as_slice(), &bin) {
        match read_u32_le(data, 4) {
            Some(s) => Some(s as u64),
            None => None,
        }
    } else {
        None
    }
}

/// The bytes of `data` from `start` to `end`.
fn slice_prefix(data: &[u8], start: usize, end: usize) -> (r: Vec<u8>)
    requires
        start <= end <= data@.len(),
    ensures
        r@ == data@.subrange(start as int, end as int),
{
    let mut out: Vec<u8> = Vec::new();
    let mut i = start;
    while i < end
        invariant
            start <= i <= end <= data@.len(),
            out@ == data@.subrange(start as int, i as int),
        decreases end - i,
    {
        out.push(data[i]);
        i = i + 1;
        assert(out@ =~= data@.subrange(start as int, i as int));
    }
    out
}

/// `data` with its final `blob.len()` bytes replaced by `blob`.
pub open spec fn stitched_mbn(data: Seq<u8>, blob: Seq<u8>) -> Seq<u8> {
    data.take(data.len() - blob.len()) + blob
}

/// Whether a stitch of `blob` into `data` is refused: either is empty, or the
/// blob is larger than the data.
pub open spec fn mbn_stitch_refused(data: Seq<u8>, blob: Seq<u8>) -> bool {
    data.len() == 0 || blob.len() == 0 || blob.len() > data.len()
}

/// Overwrites the trailing signature region of `data` with `blob`.
///
/// Fails with a baseband error if either input is empty or `blob` is larger
/// than `data`.
pub fn mbn_stitch(data: &[u8], blob: &[u8]) -> (res: Result<Vec<u8>, IdeviceError>)
    ensures
        match res {
            Ok(v) => !mbn_stitch_refused(data@, blob@) && v@ == stitched_mbn(data@, blob@),
            Err(e) => mbn_stitch_refused(data@, blob@) && e matches IdeviceError::Restore(
                RestoreError::Baseband(_),
            ),
        },
{
    if data.len() == 0 {
        return Err(IdeviceError::Restore(RestoreError::Baseband("mbn_stitch: data is empty".to_owned())));
    }
    if blob.len() == 0 {
        return Err(IdeviceError::Restore(RestoreError::Baseband("mbn_stitch: blob is empty".to_owned())));
    }
    if blob.len() > data.len() {
        return Err(
            IdeviceError::Restore(
                RestoreError::Baseband("mbn_stitch: blob larger than data".to_owned()),
            ),
        );
    }
    let stitch_offset = data.len() - blob.len();
    let mut out = slice_prefix(data, 0, stitch_offset);
    append_bytes(&mut out, blob);
    assert(out@ =~= stitched_mbn(data@, blob@));
    Ok(out)
}

} // verus!
