//! Streaming data to the device during a restore: the `FileData` messages a
//! file is cut into, and when transfer progress is reported.

use vstd::prelude::*;

use crate::plist::{lookup, view_string, PlistDict, PlistValue, PlistView};
use crate::restore::data_request::FILE_CHUNK_SIZE;
use vstd::string::StringExecFns;

verus! {

/// Transfer progress is reported at most once per this many bytes.
pub const PROGRESS_STRIDE: u64 = 0x80_0000;

/// How far a transfer has got, and when it next reports.
#[derive(Debug, Clone, Copy)]
pub struct TransferProgress {
    /// Bytes sent so far.
    pub sent: u64,
    /// The count at which the next report is due.
    pub next_report: u64,
}

impl TransferProgress {
    /// A transfer that has sent nothing; its first chunk is reported.
    pub fn new() -> (r: TransferProgress)
        ensures
            r.sent == 0,
            r.next_report == 0,
    {
        TransferProgress { sent: 0, next_report: 0 }
    }

    /// Counts a chunk that was sent: returns whether to report now, which
    /// is when the count reaches the due point; the next is due one stride
    /// later.
    pub fn record(&mut self, n: u64) -> (report: bool)
        requires
            old(self).sent + n + PROGRESS_STRIDE <= u64::MAX,
        ensures
            final(self).sent == old(self).sent + n,
            report == (old(self).sent + n >= old(self).next_report),
            report ==> final(self).next_report == old(self).sent + n + PROGRESS_STRIDE,
            !report ==> final(self).next_report == old(self).next_report,
    {
        self.sent = self.sent + n;
        if self.sent >= self.next_report {
            self.next_report = self.sent + PROGRESS_STRIDE;
            true
        } else {
            false
        }
    }
}

/// The message carrying one chunk of a file.
pub fn file_data_message(chunk: &[u8]) -> (r: PlistDict)
    ensures
        r@ == seq![("FileData"@, PlistView::Data(chunk@))],
{
    let mut d = PlistDict::new();
    d.insert(String::from_str("FileData"), PlistValue::Data(vstd::slice::slice_to_vec(chunk)));
    assert(d@ =~= seq![("FileData"@, PlistView::Data(chunk@))]);
    d
}

/// The message that ends a file.
pub fn file_data_done() -> (r: PlistDict)
    ensures
        r@ == seq![("FileDataDone"@, PlistView::Boolean(true))],
{
    let mut d = PlistDict::new();
    d.insert(String::from_str("FileDataDone"), PlistValue::Boolean(true));
    assert(d@ =~= seq![("FileDataDone"@, PlistView::Boolean(true))]);
    d
}

/// The `i`-th chunk of a file cut into chunks of `FILE_CHUNK_SIZE` bytes.
pub open spec fn file_chunk(data: Seq<u8>, i: int) -> Seq<u8> {
    let start = i * FILE_CHUNK_SIZE;
    let end = if start + FILE_CHUNK_SIZE <= data.len() {
        start + FILE_CHUNK_SIZE
    } else {
        data.len() as int
    };
    data.subrange(start, end)
}

/// How many chunks a file of this length is cut into.
pub open spec fn file_chunk_count(len: nat) -> nat {
    ((len + FILE_CHUNK_SIZE - 1) / FILE_CHUNK_SIZE as int) as nat
}

/// The `FileData` messages of a file, one per chunk, in order.
pub fn file_data_messages(data: &[u8]) -> (r: Vec<PlistDict>)
    ensures
        r@.len() == file_chunk_count(data@.len()),
        forall|i: int|
            0 <= i < r@.len() ==> (#[trigger] r@[i])@ == seq![("FileData"@, PlistView::Data(file_chunk(data@, i)))],
{
    let n = data.len();
    let mut out: Vec<PlistDict> = Vec::new();
    let mut start: usize = 0;
    while start < n
        invariant
            n == data@.len(),
            start <= n,
            start < n ==> start == out@.len() * FILE_CHUNK_SIZE,
            start < n ==> out@.len() < file_chunk_count(n as nat),
            start >= n ==> out@.len() == file_chunk_count(n as nat),
            forall|i: int|
                0 <= i < out@.len() ==> (#[trigger] out@[i])@ == seq![
                    ("FileData"@, PlistView::Data(file_chunk(data@, i))),
                ],
        decreases n - start,
    {
        let end = if n - start > FILE_CHUNK_SIZE {
            start + FILE_CHUNK_SIZE
        } else {
            n
        };
        let chunk = vstd::slice::slice_subrange(data, start, end);
        let ghost k = out@.len() as int;
        assert(file_chunk(data@, k) =~= chunk@);
        out.push(file_data_message(chunk));
        start = end;
        proof {
            if end == n {
                assert(file_chunk_count(n as nat) == k + 1) by (nonlinear_arith)
                    requires
                        k * 8192 < n,
                        n <= k * 8192 + 8192,
                ;
            } else {
                assert(k + 1 < file_chunk_count(n as nat)) by (nonlinear_arith)
                    requires
                        (k + 1) * 8192 < n,
                ;
            }
        }
    }
    proof {
        if n == 0 {
            assert(file_chunk_count(0) == 0);
        }
    }
    out
}

/// Whether a chunk starts an Apple Encrypted Archive (`AEA1`), after which
/// the device may ask for the archive's key.
pub fn starts_aea(chunk: &[u8]) -> (r: bool)
    ensures
        r == (chunk@.len() >= 4 && chunk@.take(4) == seq![0x41u8, 0x45, 0x41, 0x31]),
{
    if chunk.len() < 4 {
        return false;
    }
    let r = chunk[0] == 0x41 && chunk[1] == 0x45 && chunk[2] == 0x41 && chunk[3] == 0x31;
    assert(r == (chunk@.take(4) =~= seq![0x41u8, 0x45, 0x41, 0x31]));
    r
}

/// Whether a message asks for a URL asset (an archive's key).
pub fn is_url_asset_request(message: &PlistDict) -> (r: bool)
    ensures
        r == (view_string(lookup(message@, "MsgType"@)) == Some("URLAsset"@)),
{
    match message.get("MsgType") {
        Some(PlistValue::String(t)) => crate::text::str_equal(t.as_str(), "URLAsset"),
        _ => false,
    }
}

} // verus!
