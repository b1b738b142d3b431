//! Receiving the files of a `DLMessageUploadFiles`: a stream of records,
//! each a directory name, a file name and blocks of the file's data, read
//! one field at a time.
//!
//! The host runs the loop: it reads as many bytes as the current step asks
//! for, hands them to [`upload_step`], and acts on the events it gets back
//! (open the file, write data, count it). The stream ends at an empty
//! directory or file name.

use vstd::prelude::*;

use crate::backup::requests::{DL_CODE_FILE_DATA, DL_CODE_SUCCESS};
use crate::tcp::packets::be32;

verus! {

/// Where the reader of an upload stream is.
#[derive(Debug, Clone, Copy, PartialEq, Eq, Structural)]
pub enum UploadStep {
    /// Next: the length of a directory name.
    DirNameLength,
    /// Next: a directory name of this many bytes.
    DirName(u32),
    /// Next: the length of a file name.
    FileNameLength,
    /// Next: a file name of this many bytes.
    FileName(u32),
    /// Next: the length of a file's first block.
    FirstBlockLength,
    /// Next: the code of a first block of this length.
    FirstBlockCode(u32),
    /// Next: the data of a block of this length (the code byte included).
    BlockData(u32),
    /// Next: the length of the next block.
    BlockLength,
    /// Next: the code of a block of this length.
    BlockCode(u32),
    /// Next: the rest of a closing block of this length, passed over.
    Trailer(u32),
    /// The stream has ended.
    Done,
}

/// What the host does after a step.
#[derive(Debug)]
pub enum UploadEvent {
    /// A file is announced, by its name's bytes: make its directory.
    FileNamed(Vec<u8>),
    /// The file's data begins: replace it with an empty file.
    FileOpened,
    /// Data for the open file.
    Data(Vec<u8>),
    /// The file is complete: count it and report progress.
    FileDone,
    /// The stream has ended: answer with status 0.
    Finished,
}

/// Whether a step is one the reader can be in: a block being read has a
/// length of at least one (its code byte).
pub open spec fn upload_step_ok(step: UploadStep) -> bool {
    match step {
        UploadStep::FirstBlockCode(n) => n >= 1,
        UploadStep::BlockData(n) => n >= 1,
        UploadStep::BlockCode(n) => n >= 1,
        UploadStep::Trailer(n) => n >= 1,
        _ => true,
    }
}

/// How many bytes a step reads.
pub open spec fn upload_read_len(step: UploadStep) -> nat {
    match step {
        UploadStep::DirNameLength => 4,
        UploadStep::DirName(n) => n as nat,
        UploadStep::FileNameLength => 4,
        UploadStep::FileName(n) => n as nat,
        UploadStep::FirstBlockLength => 4,
        UploadStep::FirstBlockCode(_) => 1,
        UploadStep::BlockData(n) => (n - 1) as nat,
        UploadStep::BlockLength => 4,
        UploadStep::BlockCode(_) => 1,
        UploadStep::Trailer(n) => (n - 1) as nat,
        UploadStep::Done => 0,
    }
}

/// How many bytes to read for a step.
pub fn upload_read_size(step: UploadStep) -> (r: usize)
    requires
        upload_step_ok(step),
    ensures
        r == upload_read_len(step),
{
    match step {
        UploadStep::DirNameLength => 4,
        UploadStep::DirName(n) => n as usize,
        UploadStep::FileNameLength => 4,
        UploadStep::FileName(n) => n as usize,
        UploadStep::FirstBlockLength => 4,
        UploadStep::FirstBlockCode(_) => 1,
        UploadStep::BlockData(n) => (n - 1) as usize,
        UploadStep::BlockLength => 4,
        UploadStep::BlockCode(_) => 1,
        UploadStep::Trailer(n) => (n - 1) as usize,
        UploadStep::Done => 0,
    }
}

/// Where the reader goes once a file's blocks end with a block of this
/// length and code: a closing block other than success has the rest of
/// its bytes passed over; then the next record.
pub open spec fn after_file(len: u32, code: u8) -> UploadStep {
    if len > 0 && code != DL_CODE_FILE_DATA && code != DL_CODE_SUCCESS {
        UploadStep::Trailer(len)
    } else {
        UploadStep::DirNameLength
    }
}

/// The kinds of events, by the bytes they carry.
pub enum UploadEventView {
    /// A file named by these bytes.
    FileNamed(Seq<u8>),
    /// A file opened.
    FileOpened,
    /// Data.
    Data(Seq<u8>),
    /// A file completed.
    FileDone,
    /// The stream ended.
    Finished,
}

/// The view of an event.
pub open spec fn event_view(e: UploadEvent) -> UploadEventView {
    match e {
        UploadEvent::FileNamed(b) => UploadEventView::FileNamed(b@),
        UploadEvent::FileOpened => UploadEventView::FileOpened,
        UploadEvent::Data(b) => UploadEventView::Data(b@),
        UploadEvent::FileDone => UploadEventView::FileDone,
        UploadEvent::Finished => UploadEventView::Finished,
    }
}

/// The next step and the events, from a step and the bytes it read.
pub open spec fn upload_next(step: UploadStep, input: Seq<u8>) -> (UploadStep, Seq<UploadEventView>) {
    match step {
        UploadStep::DirNameLength => if be32(input, 0) == 0 {
            (UploadStep::Done, seq![UploadEventView::Finished])
        } else {
            (UploadStep::DirName(be32(input, 0) as u32), Seq::empty())
        },
        UploadStep::DirName(_) => (UploadStep::FileNameLength, Seq::empty()),
        UploadStep::FileNameLength => if be32(input, 0) == 0 {
            (UploadStep::Done, seq![UploadEventView::Finished])
        } else {
            (UploadStep::FileName(be32(input, 0) as u32), Seq::empty())
        },
        UploadStep::FileName(_) => (UploadStep::FirstBlockLength, seq![UploadEventView::FileNamed(input)]),
        UploadStep::FirstBlockLength => if be32(input, 0) == 0 {
            (UploadStep::DirNameLength, Seq::empty())
        } else {
            (UploadStep::FirstBlockCode(be32(input, 0) as u32), Seq::empty())
        },
        UploadStep::FirstBlockCode(n) => if input[0] == DL_CODE_FILE_DATA {
            (UploadStep::BlockData(n), seq![UploadEventView::FileOpened])
        } else {
            (after_file(n, input[0]), seq![UploadEventView::FileOpened, UploadEventView::FileDone])
        },
        UploadStep::BlockData(_) => (UploadStep::BlockLength, seq![UploadEventView::Data(input)]),
        UploadStep::BlockLength => if be32(input, 0) == 0 {
            (UploadStep::DirNameLength, seq![UploadEventView::FileDone])
        } else {
            (UploadStep::BlockCode(be32(input, 0) as u32), Seq::empty())
        },
        UploadStep::BlockCode(n) => if input[0] == DL_CODE_FILE_DATA {
            (UploadStep::BlockData(n), Seq::empty())
        } else {
            (after_file(n, input[0]), seq![UploadEventView::FileDone])
        },
        UploadStep::Trailer(_) => (UploadStep::DirNameLength, Seq::empty()),
        UploadStep::Done => (UploadStep::Done, Seq::empty()),
    }
}

/// Takes one step of an upload: the bytes read for `step` give the next
/// step and what the host does. Every step it leads to is one the reader
/// can be in.
pub fn upload_step(step: UploadStep, input: &[u8]) -> (r: (UploadStep, Vec<UploadEvent>))
    requires
        upload_step_ok(step),
        step != UploadStep::Done,
        input@.len() == upload_read_len(step),
    ensures
        r.0 == upload_next(step, input@).0,
        r.1@.map_values(|e: UploadEvent| event_view(e)) == upload_next(step, input@).1,
        upload_step_ok(r.0),
{
    let mut events: Vec<UploadEvent> = Vec::new();
    let next = match step {
        UploadStep::DirNameLength => {
            let n = crate::tcp::packets::read_be32(input, 0);
            if n == 0 {
                events.push(UploadEvent::Finished);
                UploadStep::Done
            } else {
                UploadStep::DirName(n)
            }
        },
        UploadStep::DirName(_) => UploadStep::FileNameLength,
        UploadStep::FileNameLength => {
            let n = crate::tcp::packets::read_be32(input, 0);
            if n == 0 {
                events.push(UploadEvent::Finished);
                UploadStep::Done
            } else {
                UploadStep::FileName(n)
            }
        },
        UploadStep::FileName(_) => {
            events.push(UploadEvent::FileNamed(vstd::slice::slice_to_vec(input)));
            UploadStep::FirstBlockLength
        },
        UploadStep::FirstBlockLength => {
            let n = crate::tcp::packets::read_be32(input, 0);
            if n == 0 {
                UploadStep::DirNameLength
            } else {
                UploadStep::FirstBlockCode(n)
            }
        },
        UploadStep::FirstBlockCode(n) => {
            events.push(UploadEvent::FileOpened);
            let code = input[0];
            if code == DL_CODE_FILE_DATA {
                UploadStep::BlockData(n)
            } else {
                events.push(UploadEvent::FileDone);
                closing_step(n, code)
            }
        },
        UploadStep::BlockData(_) => {
            events.push(UploadEvent::Data(vstd::slice::slice_to_vec(input)));
            UploadStep::BlockLength
        },
        UploadStep::BlockLength => {
            let n = crate::tcp::packets::read_be32(input, 0);
            if n == 0 {
                events.push(UploadEvent::FileDone);
                UploadStep::DirNameLength
            } else {
                UploadStep::BlockCode(n)
            }
        },
        UploadStep::BlockCode(n) => {
            let code = input[0];
            if code == DL_CODE_FILE_DATA {
                UploadStep::BlockData(n)
            } else {
                events.push(UploadEvent::FileDone);
                closing_step(n, code)
            }
        },
        UploadStep::Trailer(_) => UploadStep::DirNameLength,
        UploadStep::Done => UploadStep::Done,
    };
    assert(events@.map_values(|e: UploadEvent| event_view(e)) =~= upload_next(step, input@).1);
    (next, events)
}

/// Where a file's blocks end: see [`after_file`].
fn closing_step(len: u32, code: u8) -> (r: UploadStep)
    requires
        len >= 1,
    ensures
        r == after_file(len, code),
        upload_step_ok(r),
{
    if len > 0 && code != DL_CODE_FILE_DATA && code != DL_CODE_SUCCESS {
        UploadStep::Trailer(len)
    } else {
        UploadStep::DirNameLength
    }
}

} // verus!
