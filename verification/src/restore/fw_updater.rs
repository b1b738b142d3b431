//! Baseband firmware personalization: stitching the signature blobs of a
//! baseband ticket into the firmware files of the baseband archive, and the
//! requests for baseband and device-generated tickets.

use vstd::prelude::*;

use futures::executor::block_on;

use crate::error::IdeviceError;
use crate::plist::{
    dict_of, get_in, inserted, lookup, opt_get, removed, view_array, view_bool, view_dict,
    view_string, view_unsigned, view_values, PlistDict, PlistValue, PlistView,
};
use crate::tss::{common_tags, copied_keys, identity_tags, key_views, TSSRequest};
use crate::restore::errors::RestoreError;
use crate::restore::mbn::{mbn_stitch, mbn_stitch_refused, stitched_mbn};
use crate::text::{has_suffix, str_chars, str_ends_with, str_equal};
use crate::wda::find_char;
use vstd::string::StringExecFns;
use vstd::string::StringSliceAdditionalSpecFns;

verus! {

// ---------------------------------------------------------------------------
// Element names and firmware files
// ---------------------------------------------------------------------------

/// The firmware file a baseband ticket element signs, by baseband chip.
pub open spec fn bbfw_filename(elem: Seq<char>, bb_chip_id: Option<u64>) -> Option<Seq<char>> {
    if bb_chip_id == Some(0x1F30E1u64) {
        if elem == "Misc"@ {
            Some("multi_image.mbn"@)
        } else if elem == "RestoreSBL1"@ {
            Some("restorexbl_sc.elf"@)
        } else if elem == "SBL1"@ {
            Some("xbl_sc.elf"@)
        } else if elem == "TME"@ {
            Some("signed_firmware_soc_view.elf"@)
        } else {
            None
        }
    } else if elem == "RamPSI"@ {
        Some("psi_ram.fls"@)
    } else if elem == "FlashPSI"@ {
        Some("psi_flash.fls"@)
    } else if elem == "eDBL"@ {
        Some("dbl.mbn"@)
    } else if elem == "RestoreDBL"@ {
        Some("restoredbl.mbn"@)
    } else if elem == "DBL"@ {
        Some("dbl.mbn"@)
    } else if elem == "ENANDPRG"@ {
        Some("ENPRG.mbn"@)
    } else if elem == "RestoreSBL1"@ {
        Some("restoresbl1.mbn"@)
    } else if elem == "SBL1"@ {
        Some("sbl1.mbn"@)
    } else if elem == "RestorePSI"@ {
        Some("restorepsi.bin"@)
    } else if elem == "PSI"@ {
        Some("psi_ram.bin"@)
    } else if elem == "RestorePSI2"@ {
        Some("restorepsi2.bin"@)
    } else if elem == "PSI2"@ {
        Some("psi_ram2.bin"@)
    } else if elem == "Misc"@ {
        Some("multi_image.mbn"@)
    } else {
        None
    }
}

/// Maps a baseband ticket element name (such as `PSI`) to the firmware
/// file it signs.
pub fn bbfw_filename_for_element(elem: &str, bb_chip_id: Option<u64>) -> (r: Option<&'static str>)
    ensures
        match bbfw_filename(elem@, bb_chip_id) {
            Some(f) => r matches Some(x) && x@ == f,
            None => r is None,
        },
{
    if bb_chip_id == Some(0x1F30E1u64) {
        if str_equal(elem, "Misc") {
            Some("multi_image.mbn")
        } else if str_equal(elem, "RestoreSBL1") {
            Some("restorexbl_sc.elf")
        } else if str_equal(elem, "SBL1") {
            Some("xbl_sc.elf")
        } else if str_equal(elem, "TME") {
            Some("signed_firmware_soc_view.elf")
        } else {
            None
        }
    } else if str_equal(elem, "RamPSI") {
        Some("psi_ram.fls")
    } else if str_equal(elem, "FlashPSI") {
        Some("psi_flash.fls")
    } else if str_equal(elem, "eDBL") {
        Some("dbl.mbn")
    } else if str_equal(elem, "RestoreDBL") {
        Some("restoredbl.mbn")
    } else if str_equal(elem, "DBL") {
        Some("dbl.mbn")
    } else if str_equal(elem, "ENANDPRG") {
        Some("ENPRG.mbn")
    } else if str_equal(elem, "RestoreSBL1") {
        Some("restoresbl1.mbn")
    } else if str_equal(elem, "SBL1") {
        Some("sbl1.mbn")
    } else if str_equal(elem, "RestorePSI") {
        Some("restorepsi.bin")
    } else if str_equal(elem, "PSI") {
        Some("psi_ram.bin")
    } else if str_equal(elem, "RestorePSI2") {
        Some("restorepsi2.bin")
    } else if str_equal(elem, "PSI2") {
        Some("psi_ram2.bin")
    } else if str_equal(elem, "Misc") {
        Some("multi_image.mbn")
    } else {
        None
    }
}

/// The element a ticket key names: the key up to its first `-`.
pub open spec fn blob_element(key: Seq<char>) -> Seq<char> {
    key.take(find_char(key, '-', 0))
}

/// The element a ticket key names.
fn blob_element_of(key: &str) -> (r: String)
    ensures
        r@ == blob_element(key@),
{
    let chars = str_chars(key);
    let mut i: usize = 0;
    while i < chars.len() && chars[i] != '-'
        invariant
            chars@ == key@,
            i <= chars@.len(),
            find_char(key@, '-', 0) == find_char(key@, '-', i as int),
        decreases chars@.len() - i,
    {
        i = i + 1;
    }
    String::from_str(key.substring_char(0, i))
}

/// The position of the last `c` in `s`, or -1.
pub open spec fn last_index_of(s: Seq<char>, c: char) -> int
    decreases s.len(),
{
    if s.len() == 0 {
        -1
    } else if s.last() == c {
        s.len() - 1
    } else {
        last_index_of(s.drop_last(), c)
    }
}

/// The file-name part of an archive entry name: what follows its last `/`.
pub open spec fn file_segment(name: Seq<char>) -> Seq<char> {
    name.skip(last_index_of(name, '/') + 1)
}

/// Whether an archive entry is kept in the personalized archive: its file
/// name has a name before an `.fls`, `.mbn`, `.elf` or `.bin` extension.
pub open spec fn keeps_file(name: Seq<char>) -> bool {
    let seg = file_segment(name);
    seg.len() > 4 && (has_suffix(seg, ".fls"@) || has_suffix(seg, ".mbn"@) || has_suffix(
        seg,
        ".elf"@,
    ) || has_suffix(seg, ".bin"@))
}

proof fn lemma_last_index_of(s: Seq<char>, c: char)
    ensures
        -1 <= last_index_of(s, c) < s.len(),
    decreases s.len(),
{
    if s.len() > 0 {
        lemma_last_index_of(s.drop_last(), c);
    }
}

/// Whether an archive entry is kept in the personalized archive.
fn is_kept_file(name: &str) -> (r: bool)
    ensures
        r == keeps_file(name@),
{
    let chars = str_chars(name);
    let mut i: usize = chars.len();
    assert(name@.take(chars@.len() as int) =~= name@);
    while i > 0 && chars[i - 1] != '/'
        invariant
            chars@ == name@,
            i <= chars@.len(),
            last_index_of(name@, '/') == last_index_of(name@.take(i as int), '/'),
        decreases i,
    {
        assert(name@.take(i as int).drop_last() =~= name@.take(i - 1));
        i = i - 1;
    }
    proof {
        if i > 0 {
            assert(name@.take(i as int).last() == '/');
        } else {
            assert(name@.take(0) =~= Seq::<char>::empty());
        }
        lemma_last_index_of(name@, '/');
    }
    let seg = name.substring_char(i, chars.len());
    assert(seg@ =~= file_segment(name@));
    seg.unicode_len() > 4 && (str_ends_with(seg, ".fls") || str_ends_with(seg, ".mbn")
        || str_ends_with(seg, ".elf") || str_ends_with(seg, ".bin"))
}

// ---------------------------------------------------------------------------
// Stitching
// ---------------------------------------------------------------------------

/// Why stitching a baseband archive fails.
pub enum BasebandFault {
    /// The ticket has no `BasebandFirmware` dictionary.
    NoFirmwareDict,
    /// A ticket element names no known firmware file.
    NoMapping(Seq<char>),
    /// The firmware file needs a stitching this library does not do.
    Unsupported(Seq<char>),
    /// The archive lacks the firmware file.
    Missing(Seq<char>),
    /// The signature blob does not fit the firmware file.
    Stitch,
}

/// Whether `e` is the error reported for `f`.
pub open spec fn fault_error(f: BasebandFault, e: IdeviceError) -> bool {
    match f {
        BasebandFault::NoFirmwareDict => e matches IdeviceError::Restore(RestoreError::Baseband(m))
            && m@ == "BBTicket missing BasebandFirmware"@,
        BasebandFault::NoMapping(elem) => e matches IdeviceError::Restore(
            RestoreError::Baseband(m),
        ) && m@ == "no baseband file mapping for element `"@ + elem + "`"@,
        BasebandFault::Unsupported(file) => e matches IdeviceError::Restore(
            RestoreError::Unsupported(m),
        ) && m@ == "baseband stitching for `"@ + file + "` (Mav25/fls)"@,
        BasebandFault::Missing(file) => e matches IdeviceError::Restore(RestoreError::Baseband(m))
            && m@ == "baseband file `"@ + file + "` missing"@,
        BasebandFault::Stitch => e matches IdeviceError::Restore(RestoreError::Baseband(_)),
    }
}

/// The archive's files by name, later entries of a name replacing earlier
/// ones in place.
pub open spec fn file_map(files: Seq<(Seq<char>, Seq<u8>)>) -> Seq<(Seq<char>, PlistView)>
    decreases files.len(),
{
    if files.len() == 0 {
        Seq::empty()
    } else {
        inserted(file_map(files.drop_last()), files.last().0, PlistView::Data(files.last().1))
    }
}

/// The files after one ticket entry: a `-Blob` data entry is stitched into
/// the firmware file its element names.
pub open spec fn blob_step(
    fs: Seq<(Seq<char>, PlistView)>,
    key: Seq<char>,
    blob: PlistView,
    bb_chip_id: Option<u64>,
) -> Result<Seq<(Seq<char>, PlistView)>, BasebandFault> {
    if !has_suffix(key, "-Blob"@) {
        Ok(fs)
    } else {
        match blob {
            PlistView::Data(b) => {
                let elem = blob_element(key);
                match bbfw_filename(elem, bb_chip_id) {
                    None => Err(BasebandFault::NoMapping(elem)),
                    Some(f) => if bb_chip_id == Some(0x1F30E1u64) || has_suffix(f, ".fls"@) {
                        Err(BasebandFault::Unsupported(f))
                    } else {
                        match lookup(fs, f) {
                            Some(PlistView::Data(d)) => if mbn_stitch_refused(d, b) {
                                Err(BasebandFault::Stitch)
                            } else {
                                Ok(inserted(fs, f, PlistView::Data(stitched_mbn(d, b))))
                            },
                            _ => Err(BasebandFault::Missing(f)),
                        }
                    },
                }
            },
            _ => Ok(fs),
        }
    }
}

/// The files after every ticket entry, in order, or the first failure.
pub open spec fn stitched_files(
    fs: Seq<(Seq<char>, PlistView)>,
    blobs: Seq<(Seq<char>, PlistView)>,
    bb_chip_id: Option<u64>,
) -> Result<Seq<(Seq<char>, PlistView)>, BasebandFault>
    decreases blobs.len(),
{
    if blobs.len() == 0 {
        Ok(fs)
    } else {
        match stitched_files(fs, blobs.drop_last(), bb_chip_id) {
            Err(f) => Err(f),
            Ok(prev) => blob_step(prev, blobs.last().0, blobs.last().1, bb_chip_id),
        }
    }
}

/// The kept firmware files, in order.
pub open spec fn kept_files(fs: Seq<(Seq<char>, PlistView)>) -> Seq<(Seq<char>, Seq<u8>)>
    decreases fs.len(),
{
    if fs.len() == 0 {
        Seq::empty()
    } else {
        let prev = kept_files(fs.drop_last());
        match fs.last().1 {
            PlistView::Data(d) => if keeps_file(fs.last().0) {
                prev.push((fs.last().0, d))
            } else {
                prev
            },
            _ => prev,
        }
    }
}

/// The personalized archive's entries: the kept firmware files, stitched,
/// then the ticket's `BBTicket` as `bbticket.der` when it has one.
pub open spec fn baseband_archive(
    files: Seq<(Seq<char>, Seq<u8>)>,
    bbtss: Seq<(Seq<char>, PlistView)>,
    bb_chip_id: Option<u64>,
) -> Result<Seq<(Seq<char>, Seq<u8>)>, BasebandFault> {
    match view_dict(lookup(bbtss, "BasebandFirmware"@)) {
        None => Err(BasebandFault::NoFirmwareDict),
        Some(blobs) => match stitched_files(file_map(files), blobs, bb_chip_id) {
            Err(f) => Err(f),
            Ok(fs) => Ok(
                match lookup(bbtss, "BBTicket"@) {
                    Some(PlistView::Data(t)) => kept_files(fs).push(("bbticket.der"@, t)),
                    _ => kept_files(fs),
                },
            ),
        },
    }
}

/// Once stitching has failed, later ticket entries change nothing.
proof fn lemma_stitch_fault_sticks(
    fs: Seq<(Seq<char>, PlistView)>,
    blobs: Seq<(Seq<char>, PlistView)>,
    n: int,
    bb_chip_id: Option<u64>,
)
    requires
        0 <= n <= blobs.len(),
        stitched_files(fs, blobs.take(n), bb_chip_id) is Err,
    ensures
        stitched_files(fs, blobs, bb_chip_id) == stitched_files(fs, blobs.take(n), bb_chip_id),
    decreases blobs.len(),
{
    if n == blobs.len() {
        assert(blobs.take(n) =~= blobs);
    } else {
        assert(blobs.drop_last().take(n) =~= blobs.take(n));
        lemma_stitch_fault_sticks(fs, blobs.drop_last(), n, bb_chip_id);
    }
}

/// The views of named files.
pub open spec fn named_files(files: Seq<(String, Vec<u8>)>) -> Seq<(Seq<char>, Seq<u8>)> {
    files.map_values(|f: (String, Vec<u8>)| (f.0@, f.1@))
}

/// The entries of a zip archive, in its central directory's order: each
/// name (empty when it is not UTF-8) with the entry's bytes; none when the
/// archive or one of its entries cannot be read.
pub uninterp spec fn zip_entries_of(archive: Seq<u8>) -> Option<Seq<(Seq<char>, Seq<u8>)>>;

/// The archive that stores these entries, in order, uncompressed; none
/// when the writer refuses them.
pub uninterp spec fn stored_zip_of(entries: Seq<(Seq<char>, Seq<u8>)>) -> Option<Seq<u8>>;

/// Whether bytes `z[p..p + 4]` are `P`, `K`, `c`, `d`: a zip signature.
pub open spec fn zip_sig_at(z: Seq<u8>, p: int, c: u8, d: u8) -> bool {
    0 <= p && p + 4 <= z.len() && z[p] == 0x50u8 && z[p + 1] == 0x4bu8 && z[p + 2] == c && z[p + 3] == d
}

/// The little-endian `u16` at `z[i..i + 2]`.
pub open spec fn le16_at(z: Seq<u8>, i: int) -> int {
    z[i] as int + 256 * z[i + 1] as int
}

/// Whether the fields of an extra-field block fit in it from `cursor` on:
/// while more than four bytes remain, each field's four-byte header (id,
/// little-endian size) is followed by at least that many bytes.
pub open spec fn extra_fields_fit(b: Seq<u8>, cursor: nat) -> bool
    decreases b.len() - cursor,
{
    if cursor + 4 >= b.len() {
        true
    } else {
        let size = le16_at(b, cursor + 2 as int);
        if cursor + 4 + size > b.len() {
            false
        } else {
            extra_fields_fit(b, (cursor + 4 + size) as nat)
        }
    }
}

/// The extra-field block of a central directory record whose signature is
/// at `p`, as a reader takes it: after the 46-byte header and the name,
/// both cut short at the archive's end.
pub open spec fn cd_extra_block(z: Seq<u8>, p: int) -> Seq<u8> {
    let a = if p + 46 + le16_at(z, p + 28) <= z.len() {
        p + 46 + le16_at(z, p + 28)
    } else {
        z.len() as int
    };
    let b = if a + le16_at(z, p + 30) <= z.len() {
        a + le16_at(z, p + 30)
    } else {
        z.len() as int
    };
    z.subrange(a, b)
}

/// Whether async_zip's reader can be handed the archive: no zip64 end of
/// central directory locator signature anywhere (a zip64 directory's entry
/// count makes the reader reserve memory without bound), and the extra
/// fields of every central directory record signature with a whole header
/// after it fit their block (an overrunning field makes the reader's parse
/// underflow). Only these bytes are looked at, so an archive whose stored
/// data happens to hold such a signature is refused too.
pub open spec fn zip_readable(z: Seq<u8>) -> bool {
    &&& forall|p: int| !#[trigger] zip_sig_at(z, p, 0x06u8, 0x07u8)
    &&& forall|p: int|
        #[trigger] zip_sig_at(z, p, 0x01u8, 0x02u8) && p + 46 <= z.len() ==> extra_fields_fit(
            cd_extra_block(z, p),
            0,
        )
}

/// Whether the fields of the extra-field block `z[a..b]` fit in it.
fn extra_block_fits(z: &[u8], a: usize, b: usize) -> (r: bool)
    requires
        a <= b <= z@.len(),
    ensures
        r == extra_fields_fit(z@.subrange(a as int, b as int), 0),
{
    let ghost blk = z@.subrange(a as int, b as int);
    let n = b - a;
    let mut c: usize = 0;
    while c < n && n - c > 4
        invariant
            a <= b <= z@.len(),
            n == b - a,
            blk == z@.subrange(a as int, b as int),
            c <= n,
            extra_fields_fit(blk, c as nat) == extra_fields_fit(blk, 0),
        decreases n - c,
    {
        let size = z[a + c + 2] as usize + 256 * (z[a + c + 3] as usize);
        assert(blk[c + 2] == z@[a + c + 2] && blk[c + 3] == z@[a + c + 3]);
        if size > n - c - 4 {
            return false;
        }
        c = c + 4 + size;
    }
    true
}

/// Whether async_zip's reader can be handed the archive (see
/// [`zip_readable`]).
fn zip_readable_check(z: &[u8]) -> (r: bool)
    ensures
        r == zip_readable(z@),
{
    let n = z.len();
    let mut p: usize = 0;
    while p < n
        invariant
            n == z@.len(),
            p <= n,
            forall|q: int| 0 <= q < p ==> !#[trigger] zip_sig_at(z@, q, 0x06u8, 0x07u8),
            forall|q: int|
                0 <= q < p && #[trigger] zip_sig_at(z@, q, 0x01u8, 0x02u8) && q + 46 <= n ==> extra_fields_fit(
                    cd_extra_block(z@, q),
                    0,
                ),
        decreases n - p,
    {
        if n - p >= 4 && z[p] == 0x50u8 && z[p + 1] == 0x4bu8 {
            if z[p + 2] == 0x06u8 && z[p + 3] == 0x07u8 {
                assert(zip_sig_at(z@, p as int, 0x06u8, 0x07u8));
                return false;
            }
            if z[p + 2] == 0x01u8 && z[p + 3] == 0x02u8 && n - p >= 46 {
                let nl = z[p + 28] as usize + 256 * (z[p + 29] as usize);
                let el = z[p + 30] as usize + 256 * (z[p + 31] as usize);
                let a = if nl <= n - p - 46 {
                    p + 46 + nl
                } else {
                    n
                };
                let b = if el <= n - a {
                    a + el
                } else {
                    n
                };
                assert(z@.subrange(a as int, b as int) == cd_extra_block(z@, p as int));
                if !extra_block_fits(z, a, b) {
                    assert(zip_sig_at(z@, p as int, 0x01u8, 0x02u8));
                    return false;
                }
            }
        }
        p = p + 1;
    }
    assert forall|q: int| !#[trigger] zip_sig_at(z@, q, 0x06u8, 0x07u8) by {
        if 0 <= q < p {
        }
    }
    true
}

/// Reads every entry of a zip archive held in memory.
///
/// Calls async_zip's in-memory `ZipFileReader::new`, then
/// `reader_with_entry` and `read_to_end` for each entry, run to completion
/// with `futures::executor::block_on`; only bytes in memory are read. The
/// reader's parse panics on some malformed archives (an extra field that
/// overruns its block) and reserves memory without bound for a zip64
/// directory's entry count, so `requires` admits only archives that
/// [`zip_readable`] accepts. An entry whose name is not UTF-8 is named by
/// the empty string. The contract names the result; the error is
/// async_zip's message.
#[verifier::external_body]
fn read_zip(archive: &[u8]) -> (r: Result<Vec<(String, Vec<u8>)>, String>)
    requires
        zip_readable(archive@),
    ensures
        match zip_entries_of(archive@) {
            Some(es) => r matches Ok(v) && named_files(v@) == es,
            None => r is Err,
        },
{
    let reader = block_on(async_zip::base::read::mem::ZipFileReader::new(archive.to_vec())).map_err(|e| e.to_string())?;
    let mut out = Vec::new();
    for i in 0..reader.file().entries().len() {
        let name = reader.file().entries()[i].filename().as_str().unwrap_or_default().to_string();
        let mut entry = block_on(reader.reader_with_entry(i)).map_err(|e| e.to_string())?;
        let mut buf = Vec::new();
        block_on(futures::AsyncReadExt::read_to_end(&mut entry, &mut buf)).map_err(|e| e.to_string())?;
        out.push((name, buf));
    }
    Ok(out)
}

/// Writes entries into a new zip archive, each stored uncompressed.
///
/// Calls async_zip's `ZipFileWriter::new` over a `Vec`, then
/// `write_entry_whole` with a `ZipEntryBuilder` of `Compression::Stored`
/// for each entry and `close`, run with `futures::executor::block_on`.
/// An entry's date is the builder's fixed default, so the archive depends
/// on the entries alone; the contract names it. The error is async_zip's
/// message.
#[verifier::external_body]
fn write_stored_zip(entries: &Vec<(String, Vec<u8>)>) -> (r: Result<Vec<u8>, String>)
    ensures
        match stored_zip_of(named_files(entries@)) {
            Some(z) => r matches Ok(v) && v@ == z,
            None => r is Err,
        },
{
    let mut writer = async_zip::base::write::ZipFileWriter::new(Vec::new());
    for (name, data) in entries {
        let entry = async_zip::ZipEntryBuilder::new(name.clone().into(), async_zip::Compression::Stored);
        block_on(writer.write_entry_whole(entry, data)).map_err(|e| e.to_string())?;
    }
    block_on(writer.close()).map_err(|e| e.to_string())
}

/// Whether an error reports a baseband archive that could not be read or
/// written.
pub open spec fn zip_error(e: IdeviceError) -> bool {
    e matches IdeviceError::Restore(RestoreError::Ipsw(m)) && crate::text::has_prefix(m@, "baseband zip: "@)
}

/// The error of a baseband archive's read or write.
fn zip_failure(detail: String) -> (r: IdeviceError)
    ensures
        zip_error(r),
{
    let mut m = String::from_str("baseband zip: ");
    let ghost head = m@;
    m.append(detail.as_str());
    proof {
        reveal_strlit("baseband zip: ");
        assert(m@.take(head.len() as int) =~= head);
    }
    IdeviceError::Restore(RestoreError::Ipsw(m))
}

/// Personalizes a baseband firmware archive: reads its entries, stitches
/// the ticket's signature blobs into them (see [`stitch_baseband_files`])
/// and writes the result as a new archive, every entry stored.
///
/// Fails as stitching does; first when the ticket has no
/// `BasebandFirmware` dictionary, and with a baseband-zip error when the
/// archive is one the zip reader is not handed (see [`zip_readable`]),
/// cannot be read, or the result cannot be written.
pub fn sign_bbfw(bbfw: &[u8], bbtss: &PlistDict, bb_chip_id: Option<u64>) -> (r: Result<Vec<u8>, IdeviceError>)
    ensures
        view_dict(lookup(bbtss@, "BasebandFirmware"@)) is None ==> (r matches Err(e) && fault_error(
            BasebandFault::NoFirmwareDict,
            e,
        )),
        view_dict(lookup(bbtss@, "BasebandFirmware"@)) is Some && !zip_readable(bbfw@) ==> (r matches Err(
            e,
        ) && zip_error(e)),
        view_dict(lookup(bbtss@, "BasebandFirmware"@)) is Some && zip_readable(bbfw@) ==> match zip_entries_of(
            bbfw@,
        ) {
            None => r matches Err(e) && zip_error(e),
            Some(fs) => match baseband_archive(fs, bbtss@, bb_chip_id) {
                Err(f) => r matches Err(e) && fault_error(f, e),
                Ok(out) => match stored_zip_of(out) {
                    Some(z) => r matches Ok(v) && v@ == z,
                    None => r matches Err(e) && zip_error(e),
                },
            },
        },
{
    match bbtss.get("BasebandFirmware") {
        Some(PlistValue::Dictionary(_)) => {},
        _ => return Err(
            IdeviceError::Restore(
                RestoreError::Baseband(String::from_str("BBTicket missing BasebandFirmware")),
            ),
        ),
    }
    if !zip_readable_check(bbfw) {
        return Err(zip_failure(String::from_str("archive refused (zip64 or an overrunning extra field)")));
    }
    let files = match read_zip(bbfw) {
        Ok(f) => f,
        Err(d) => return Err(zip_failure(d)),
    };
    let out = stitch_baseband_files(&files, bbtss, bb_chip_id)?;
    match write_stored_zip(&out) {
        Ok(z) => Ok(z),
        Err(d) => Err(zip_failure(d)),
    }
}

/// The error for a stitching failure.
fn baseband_message(prefix: &str, name: &str, suffix: &str) -> (r: String)
    ensures
        r@ == prefix@ + name@ + suffix@,
{
    let mut m = String::from_str(prefix);
    m.append(name);
    m.append(suffix);
    m
}

/// Stitches the signature blobs of a baseband ticket into the firmware
/// files of the baseband archive `files` (its entries in order) and gives
/// the entries of the personalized archive.
///
/// Each `-Blob` data entry of the ticket's `BasebandFirmware` dictionary is
/// stitched into the file its element names; the firmware files are kept
/// and the ticket's `BBTicket` added as `bbticket.der`.
///
/// Fails when the ticket has no `BasebandFirmware` dictionary, an element
/// names no file, the file is an `.fls` one or the chip is Mav25, the
/// archive lacks the file, or the blob does not fit it.
pub fn stitch_baseband_files(
    files: &Vec<(String, Vec<u8>)>,
    bbtss: &PlistDict,
    bb_chip_id: Option<u64>,
) -> (r: Result<Vec<(String, Vec<u8>)>, IdeviceError>)
    ensures
        match baseband_archive(named_files(files@), bbtss@, bb_chip_id) {
            Ok(out) => r matches Ok(v) && named_files(v@) == out,
            Err(f) => r matches Err(e) && fault_error(f, e),
        },
{
    let ghost named = named_files(files@);
    let bbfw = match bbtss.get("BasebandFirmware") {
        Some(PlistValue::Dictionary(d)) => d,
        _ => return Err(
            IdeviceError::Restore(
                RestoreError::Baseband(String::from_str("BBTicket missing BasebandFirmware")),
            ),
        ),
    };
    let mut map = PlistDict::new();
    let mut i: usize = 0;
    while i < files.len()
        invariant
            i <= files@.len(),
            named == named_files(files@),
            map@ == file_map(named.take(i as int)),
        decreases files@.len() - i,
    {
        assert(named.take(i + 1).drop_last() =~= named.take(i as int));
        assert(named.take(i + 1).last() == (files@[i as int].0@, files@[i as int].1@));
        let name = files[i].0.clone();
        let data = vstd::slice::slice_to_vec(files[i].1.as_slice());
        map.insert(name, PlistValue::Data(data));
        i = i + 1;
    }
    assert(named.take(files@.len() as int) =~= named);
    let ghost blobs = bbfw@;
    let mut j: usize = 0;
    while j < bbfw.len()
        invariant
            j <= blobs.len(),
            blobs == bbfw@,
            view_dict(lookup(bbtss@, "BasebandFirmware"@)) == Some(blobs),
            named == named_files(files@),
            stitched_files(file_map(named), blobs.take(j as int), bb_chip_id) == Ok::<
                Seq<(Seq<char>, PlistView)>,
                BasebandFault,
            >(map@),
        decreases blobs.len() - j,
    {
        let (key, blob) = bbfw.entry(j);
        assert(blobs.take(j + 1).drop_last() =~= blobs.take(j as int));
        assert(blobs.take(j + 1).last() == blobs[j as int]);
        if str_ends_with(key.as_str(), "-Blob") {
            if let PlistValue::Data(b) = blob {
                let elem = blob_element_of(key.as_str());
                let fname = match bbfw_filename_for_element(elem.as_str(), bb_chip_id) {
                    Some(f) => f,
                    None => {
                        let m = baseband_message(
                            "no baseband file mapping for element `",
                            elem.as_str(),
                            "`",
                        );
                        proof {
                            lemma_stitch_fault_sticks(file_map(named), blobs, j + 1, bb_chip_id);
                        }
                        return Err(IdeviceError::Restore(RestoreError::Baseband(m)));
                    },
                };
                if bb_chip_id == Some(0x1F30E1u64) || str_ends_with(fname, ".fls") {
                    let m = baseband_message("baseband stitching for `", fname, "` (Mav25/fls)");
                    proof {
                        lemma_stitch_fault_sticks(file_map(named), blobs, j + 1, bb_chip_id);
                    }
                    return Err(IdeviceError::Restore(RestoreError::Unsupported(m)));
                }
                let data = match map.get(fname) {
                    Some(PlistValue::Data(d)) => d,
                    _ => {
                        let m = baseband_message("baseband file `", fname, "` missing");
                        proof {
                            lemma_stitch_fault_sticks(file_map(named), blobs, j + 1, bb_chip_id);
                        }
                        return Err(IdeviceError::Restore(RestoreError::Baseband(m)));
                    },
                };
                let stitched = match mbn_stitch(data.as_slice(), b.as_slice()) {
                    Ok(v) => v,
                    Err(e) => {
                        proof {
                            lemma_stitch_fault_sticks(file_map(named), blobs, j + 1, bb_chip_id);
                        }
                        return Err(e);
                    },
                };
                map.insert(String::from_str(fname), PlistValue::Data(stitched));
            }
        }
        j = j + 1;
    }
    assert(blobs.take(blobs.len() as int) =~= blobs);
    let ghost fs = map@;
    let mut out: Vec<(String, Vec<u8>)> = Vec::new();
    let mut k: usize = 0;
    while k < map.len()
        invariant
            k <= fs.len(),
            fs == map@,
            named_files(out@) == kept_files(fs.take(k as int)),
        decreases fs.len() - k,
    {
        let (name, value) = map.entry(k);
        assert(fs.take(k + 1).drop_last() =~= fs.take(k as int));
        assert(fs.take(k + 1).last() == fs[k as int]);
        if let PlistValue::Data(d) = value {
            if is_kept_file(name.as_str()) {
                let ghost before = out@;
                out.push((name.clone(), vstd::slice::slice_to_vec(d.as_slice())));
                assert(named_files(out@) =~= named_files(before).push((name@, d@)));
            }
        }
        k = k + 1;
    }
    assert(fs.take(fs.len() as int) =~= fs);
    if let Some(PlistValue::Data(t)) = bbtss.get("BBTicket") {
        let ghost before = out@;
        out.push((String::from_str("bbticket.der"), vstd::slice::slice_to_vec(t.as_slice())));
        assert(named_files(out@) =~= named_files(before).push(("bbticket.der"@, t@)));
    }
    Ok(out)
}


// ---------------------------------------------------------------------------
// Ticket requests
// ---------------------------------------------------------------------------

/// The build-identity keys a baseband request's parameters copy.
pub open spec fn bb_identity_keys() -> Seq<Seq<char>> {
    seq![
        "BbProvisioningManifestKeyHash"@,
        "BbActivationManifestKeyHash"@,
        "BbCalibrationManifestKeyHash"@,
        "BbFactoryActivationManifestKeyHash"@,
        "BbFDRSecurityKeyHash"@,
        "BbSkeyId"@,
        "PearlCertificationRootPub"@,
        "Ap,OSLongVersion"@,
    ]
}

/// The parameters of a baseband ticket request: the ECID, the nonce, chip
/// ID, certificate ID and serial number from the message's `Arguments`, the
/// build identity's `Manifest`, and its baseband key hashes.
pub open spec fn baseband_params(
    message: Seq<(Seq<char>, PlistView)>,
    ecid: u64,
    identity: Seq<(Seq<char>, PlistView)>,
) -> Seq<(Seq<char>, PlistView)> {
    let args = lookup(message, "Arguments"@);
    let e = seq![("ApECID"@, PlistView::Integer(ecid as int))];
    let e = match opt_get(args, "Nonce"@) {
        Some(n) => inserted(e, "BbNonce"@, n),
        None => e,
    };
    let e = match view_unsigned(opt_get(args, "ChipID"@)) {
        Some(c) => inserted(e, "BbChipID"@, PlistView::Integer(c as int)),
        None => e,
    };
    let e = match opt_get(args, "CertID"@) {
        Some(c) => inserted(e, "BbGoldCertId"@, c),
        None => e,
    };
    let e = match opt_get(args, "ChipSerialNo"@) {
        Some(c) => inserted(e, "BbSNUM"@, c),
        None => e,
    };
    let e = match lookup(identity, "Manifest"@) {
        Some(m) => inserted(e, "Manifest"@, m),
        None => e,
    };
    copied_keys(e, identity, bb_identity_keys())
}

/// Copies the listed keys of `src` into `dst`.
fn copy_keys(dst: &mut PlistDict, src: &PlistDict, keys: &[&str])
    ensures
        final(dst)@ == copied_keys(old(dst)@, src@, key_views(keys@)),
{
    let ghost start = dst@;
    let mut i: usize = 0;
    while i < keys.len()
        invariant
            i <= keys@.len(),
            dst@ == copied_keys(start, src@, key_views(keys@).take(i as int)),
        decreases keys@.len() - i,
    {
        let key = keys[i];
        assert(key_views(keys@).take(i + 1).drop_last() =~= key_views(keys@).take(i as int));
        assert(key_views(keys@).take(i + 1).last() == key@);
        if let Some(v) = src.get(key) {
            dst.insert(String::from_str(key), v.deep_clone());
        }
        i = i + 1;
    }
    assert(key_views(keys@).take(keys@.len() as int) =~= key_views(keys@));
}

/// The parameters of a baseband ticket request, and the baseband chip ID
/// the message's `Arguments` give.
pub fn baseband_parameters(message: &PlistDict, ecid: u64, build_identity: &PlistDict) -> (r: (
    PlistDict,
    Option<u64>,
))
    ensures
        r.0@ == baseband_params(message@, ecid, build_identity@),
        r.1 == view_unsigned(opt_get(lookup(message@, "Arguments"@), "ChipID"@)),
{
    let arguments = dict_of(message.get("Arguments"));
    let chip = match get_in(arguments, "ChipID") {
        Some(v) => v.as_unsigned_integer(),
        None => None,
    };
    let mut params = PlistDict::new();
    params.insert(String::from_str("ApECID"), PlistValue::Integer(ecid as i128));
    assert(params@ =~= seq![("ApECID"@, PlistView::Integer(ecid as int))]);
    if let Some(n) = get_in(arguments, "Nonce") {
        params.insert(String::from_str("BbNonce"), n.deep_clone());
    }
    if let Some(c) = chip {
        params.insert(String::from_str("BbChipID"), PlistValue::Integer(c as i128));
    }
    if let Some(c) = get_in(arguments, "CertID") {
        params.insert(String::from_str("BbGoldCertId"), c.deep_clone());
    }
    if let Some(c) = get_in(arguments, "ChipSerialNo") {
        params.insert(String::from_str("BbSNUM"), c.deep_clone());
    }
    if let Some(m) = build_identity.get("Manifest") {
        params.insert(String::from_str("Manifest"), m.deep_clone());
    }
    let keys = vec![
        "BbProvisioningManifestKeyHash",
        "BbActivationManifestKeyHash",
        "BbCalibrationManifestKeyHash",
        "BbFactoryActivationManifestKeyHash",
        "BbFDRSecurityKeyHash",
        "BbSkeyId",
        "PearlCertificationRootPub",
        "Ap,OSLongVersion",
    ];
    assert(key_views(keys@) =~= bb_identity_keys());
    copy_keys(&mut params, build_identity, keys.as_slice());
    (params, chip)
}

/// The strings among array items, in order.
pub open spec fn string_items(items: Seq<PlistView>) -> Seq<Seq<char>>
    decreases items.len(),
{
    if items.len() == 0 {
        Seq::empty()
    } else {
        match items.last() {
            PlistView::String(s) => string_items(items.drop_last()).push(s),
            _ => string_items(items.drop_last()),
        }
    }
}

/// The production mode a device-generated request asks for: the boolean of
/// the last `MessageArgInfo` key ending in `ProductionMode` (true when it
/// is not a boolean), true when there is none.
pub open spec fn production_mode(info: Seq<(Seq<char>, PlistView)>) -> bool
    decreases info.len(),
{
    if info.len() == 0 {
        true
    } else if crate::text::has_suffix(info.last().0, "ProductionMode"@) {
        match info.last().1 {
            PlistView::Boolean(b) => b,
            _ => true,
        }
    } else {
        production_mode(info.drop_last())
    }
}

/// A device-generated request entry: a dictionary with a `Digest` takes the
/// build identity manifest's digest for the same key when there is one;
/// anything else is sent unchanged.
pub open spec fn device_entry(
    key: Seq<char>,
    value: PlistView,
    manifest: Option<PlistView>,
) -> PlistView {
    match value {
        PlistView::Dictionary(node) => if lookup(node, "Digest"@) is Some {
            match opt_get(opt_get(manifest, key), "Digest"@) {
                Some(d) => PlistView::Dictionary(inserted(node, "Digest"@, d)),
                None => value,
            }
        } else {
            value
        },
        _ => value,
    }
}

/// The entries after the device-generated request's entries, in order.
pub open spec fn device_entries(
    es: Seq<(Seq<char>, PlistView)>,
    request: Seq<(Seq<char>, PlistView)>,
    manifest: Option<PlistView>,
) -> Seq<(Seq<char>, PlistView)>
    decreases request.len(),
{
    if request.len() == 0 {
        es
    } else {
        inserted(
            device_entries(es, request.drop_last(), manifest),
            request.last().0,
            device_entry(request.last().0, request.last().1, manifest),
        )
    }
}

/// The entries of a device-generated firmware ticket request, or none when
/// the arguments have no `DeviceGeneratedRequest` dictionary.
pub open spec fn device_generated_entries(
    es: Seq<(Seq<char>, PlistView)>,
    arguments: Seq<(Seq<char>, PlistView)>,
    board_id: u64,
    chip_id: u64,
    ecid: u64,
    identity: Seq<(Seq<char>, PlistView)>,
) -> Option<Seq<(Seq<char>, PlistView)>> {
    match view_dict(lookup(arguments, "DeviceGeneratedRequest"@)) {
        None => None,
        Some(device_request) => {
            let tags = match view_array(
                opt_get(lookup(arguments, "DeviceGeneratedTags"@), "BuildIdentityTags"@),
            ) {
                Some(items) => string_items(items),
                None => Seq::empty(),
            };
            let e = common_tags(es, board_id, chip_id, ecid, None, None);
            let e = identity_tags(e, identity, seq!["ApBoardID"@, "ApChipID"@]);
            let e = identity_tags(e, identity, tags);
            let e = inserted(e, "@BBTicket"@, PlistView::Boolean(true));
            let e = inserted(e, "ApSecurityMode"@, PlistView::Boolean(true));
            let mode = match view_dict(lookup(arguments, "MessageArgInfo"@)) {
                Some(info) => production_mode(info),
                None => true,
            };
            let e = inserted(e, "ApProductionMode"@, PlistView::Boolean(mode));
            let manifest = match lookup(identity, "Manifest"@) {
                Some(PlistView::Dictionary(m)) => Some(PlistView::Dictionary(m)),
                _ => None,
            };
            let e = device_entries(e, device_request, manifest);
            Some(removed(e, "RequiresUIDMode"@))
        },
    }
}

/// Builds the ticket request for a device-generated firmware request.
///
/// `request` is a fresh request; it gets the common tags, the board and
/// chip and the build-identity tags the device lists, the baseband flag,
/// security and production modes, and the device's request entries (with
/// the manifest's digests), without `RequiresUIDMode`.
///
/// Fails with a missing-field error when the arguments have no
/// `DeviceGeneratedRequest` dictionary.
pub fn device_generated_request(
    request: TSSRequest,
    arguments: &PlistDict,
    board_id: u64,
    chip_id: u64,
    ecid: u64,
    build_identity: &PlistDict,
) -> (r: Result<TSSRequest, IdeviceError>)
    ensures
        match device_generated_entries(request@, arguments@, board_id, chip_id, ecid, build_identity@) {
            Some(es) => r matches Ok(q) && q@ == es,
            None => r matches Err(e) && e matches IdeviceError::Restore(
                RestoreError::MissingField(m),
            ) && m@ == "DeviceGeneratedRequest"@,
        },
{
    let device_request = match arguments.get("DeviceGeneratedRequest") {
        Some(PlistValue::Dictionary(d)) => d,
        _ => return Err(
            IdeviceError::Restore(
                RestoreError::MissingField(String::from_str("DeviceGeneratedRequest")),
            ),
        ),
    };
    let tags_dict = dict_of(arguments.get("DeviceGeneratedTags"));
    let mut tags: Vec<&str> = Vec::new();
    if let Some(PlistValue::Array(items)) = get_in(tags_dict, "BuildIdentityTags") {
        let ghost iv = view_values(items@);
        let mut i: usize = 0;
        while i < items.len()
            invariant
                i <= items@.len(),
                iv == view_values(items@),
                key_views(tags@) == string_items(iv.take(i as int)),
            decreases items@.len() - i,
        {
            assert(iv.take(i + 1).drop_last() =~= iv.take(i as int));
            assert(iv.take(i + 1).last() == items@[i as int]@);
            if let PlistValue::String(s) = &items[i] {
                let ghost before = tags@;
                tags.push(s.as_str());
                assert(key_views(tags@) =~= key_views(before).push(s@));
            }
            i = i + 1;
        }
        assert(iv.take(items@.len() as int) =~= iv);
    } else {
        assert(key_views(tags@) =~= Seq::<Seq<char>>::empty());
    }
    let mut request = request;
    request.add_common_tags(board_id, chip_id, ecid, None, None);
    let board_chip = vec!["ApBoardID", "ApChipID"];
    assert(key_views(board_chip@) =~= seq!["ApBoardID"@, "ApChipID"@]);
    request.add_build_identity_tags(build_identity, board_chip.as_slice());
    request.add_build_identity_tags(build_identity, tags.as_slice());
    request.set_bb_ticket(true);
    request.insert(String::from_str("ApSecurityMode"), PlistValue::Boolean(true));
    let mut mode = true;
    if let Some(PlistValue::Dictionary(info)) = arguments.get("MessageArgInfo") {
        let mut i: usize = 0;
        while i < info.len()
            invariant
                i <= info@.len(),
                mode == production_mode(info@.take(i as int)),
            decreases info@.len() - i,
        {
            let (k, v) = info.entry(i);
            assert(info@.take(i + 1).drop_last() =~= info@.take(i as int));
            assert(info@.take(i + 1).last() == info@[i as int]);
            if str_ends_with(k.as_str(), "ProductionMode") {
                mode = match v {
                    PlistValue::Boolean(b) => *b,
                    _ => true,
                };
            }
            i = i + 1;
        }
        assert(info@.take(info@.len() as int) =~= info@);
    }
    request.insert(String::from_str("ApProductionMode"), PlistValue::Boolean(mode));
    let manifest = match build_identity.get("Manifest") {
        Some(PlistValue::Dictionary(m)) => Some(m),
        _ => None,
    };
    let ghost mv = match manifest {
        Some(m) => Some(PlistView::Dictionary(m@)),
        None => None,
    };
    let ghost start = request@;
    let mut j: usize = 0;
    while j < device_request.len()
        invariant
            j <= device_request@.len(),
            mv == match manifest {
                Some(m) => Some(PlistView::Dictionary(m@)),
                None => None::<PlistView>,
            },
            request@ == device_entries(start, device_request@.take(j as int), mv),
        decreases device_request@.len() - j,
    {
        let (k, v) = device_request.entry(j);
        assert(device_request@.take(j + 1).drop_last() =~= device_request@.take(j as int));
        assert(device_request@.take(j + 1).last() == device_request@[j as int]);
        let entry = match v {
            PlistValue::Dictionary(node) => {
                if node.contains_key("Digest") {
                    let digest = get_in(dict_of(get_in(manifest, k.as_str())), "Digest");
                    match digest {
                        Some(d) => {
                            let mut n = node.deep_clone();
                            n.insert(String::from_str("Digest"), d.deep_clone());
                            PlistValue::Dictionary(n)
                        },
                        None => v.deep_clone(),
                    }
                } else {
                    v.deep_clone()
                }
            },
            _ => v.deep_clone(),
        };
        request.insert(k.clone(), entry);
        j = j + 1;
    }
    assert(device_request@.take(device_request@.len() as int) =~= device_request@);
    request.remove("RequiresUIDMode");
    Ok(request)
}

/// The dictionary of a ticket server reply.
///
/// Fails with a TSS-response error carrying `what` when the reply is not a
/// dictionary.
pub fn tss_reply_dictionary(response: PlistValue, what: &str) -> (r: Result<PlistDict, IdeviceError>)
    ensures
        match response@ {
            PlistView::Dictionary(d) => r matches Ok(x) && x@ == d,
            _ => r matches Err(e) && e matches IdeviceError::Restore(RestoreError::TssResponse(m))
                && m@ == what@,
        },
{
    match response {
        PlistValue::Dictionary(d) => Ok(d),
        _ => Err(IdeviceError::Restore(RestoreError::TssResponse(String::from_str(what)))),
    }
}

} // verus!
