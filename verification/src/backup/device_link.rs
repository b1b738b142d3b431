//! The DeviceLink message loop of a backup or restore: what each message
//! from the device asks the host to do, and the overall progress the
//! messages report.

use vstd::prelude::*;

use crate::error::IdeviceError;
use crate::plist::{view_values, PlistDict, PlistValue, PlistView};
use crate::text::str_equal;

verus! {

/// The overall progress before any message reports one: -1.0, as the bits
/// of a double.
pub const INITIAL_DL_PROGRESS: u64 = 0xBFF0_0000_0000_0000;

/// What the host does for a DeviceLink message.
#[derive(Debug)]
pub enum DlAction {
    /// Send the requested files.
    DownloadFiles,
    /// Receive uploaded files.
    UploadFiles,
    /// Answer with the free disk space.
    GetFreeDiskSpace,
    /// Answer with a directory listing.
    ContentsOfDirectory,
    /// Create a directory and answer with the status.
    CreateDirectory,
    /// Move items and answer with the status and an empty dictionary.
    MoveItems,
    /// Remove items and answer with the status and an empty dictionary.
    RemoveItems,
    /// Copy an item and answer with the status and an empty dictionary.
    CopyItem,
    /// The loop ends with the message's dictionary, if it carries one.
    Finish(Option<PlistDict>),
    /// Answer with status -1, "Operation not supported".
    Unsupported,
}

/// Whether a double's bits are greater than zero: positive, not zero and
/// not NaN.
pub open spec fn real_is_positive(bits: u64) -> bool {
    0 < bits <= 0x7FF0_0000_0000_0000
}

/// Where a message's array carries the overall progress.
pub open spec fn progress_index(tag: Seq<char>) -> Option<int> {
    if tag == "DLMessageUploadFiles"@ {
        Some(2)
    } else if tag == "DLMessageDownloadFiles"@ || tag == "DLMessageMoveFiles"@ || tag
        == "DLMessageMoveItems"@ || tag == "DLMessageRemoveFiles"@ || tag == "DLMessageRemoveItems"@ {
        Some(3)
    } else {
        None
    }
}

/// The overall progress after a message: the positive real at the
/// message's progress index, else the progress so far.
pub open spec fn next_progress(progress: u64, tag: Seq<char>, value: PlistView) -> u64 {
    match (value, progress_index(tag)) {
        (PlistView::Array(items), Some(i)) => if i < items.len() {
            match items[i] {
                PlistView::Real(p) => if real_is_positive(p) {
                    p
                } else {
                    progress
                },
                _ => progress,
            }
        } else {
            progress
        },
        _ => progress,
    }
}

/// Whether `a` is what the host does for a message with `tag` and `value`.
pub open spec fn dl_action_for(a: DlAction, tag: Seq<char>, value: PlistView) -> bool {
    if tag == "DLMessageDownloadFiles"@ {
        a is DownloadFiles
    } else if tag == "DLMessageUploadFiles"@ {
        a is UploadFiles
    } else if tag == "DLMessageGetFreeDiskSpace"@ {
        a is GetFreeDiskSpace
    } else if tag == "DLContentsOfDirectory"@ {
        a is ContentsOfDirectory
    } else if tag == "DLMessageCreateDirectory"@ {
        a is CreateDirectory
    } else if tag == "DLMessageMoveFiles"@ || tag == "DLMessageMoveItems"@ {
        a is MoveItems
    } else if tag == "DLMessageRemoveFiles"@ || tag == "DLMessageRemoveItems"@ {
        a is RemoveItems
    } else if tag == "DLMessageCopyItem"@ {
        a is CopyItem
    } else if tag == "DLMessageProcessMessage"@ {
        match value {
            PlistView::Array(items) => if items.len() > 1 && items[1] is Dictionary {
                a matches DlAction::Finish(Some(d)) && PlistView::Dictionary(d@) == items[1]
            } else {
                a matches DlAction::Finish(None)
            },
            _ => a matches DlAction::Finish(None),
        }
    } else if tag == "DLMessageDisconnect"@ {
        a matches DlAction::Finish(None)
    } else {
        a is Unsupported
    }
}

/// The progress index of a message tag.
fn progress_index_of(tag: &str) -> (r: Option<usize>)
    ensures
        match progress_index(tag@) {
            Some(i) => r == Some(i as usize),
            None => r is None,
        },
{
    if str_equal(tag, "DLMessageUploadFiles") {
        Some(2)
    } else if str_equal(tag, "DLMessageDownloadFiles") || str_equal(tag, "DLMessageMoveFiles")
        || str_equal(tag, "DLMessageMoveItems") || str_equal(tag, "DLMessageRemoveFiles")
        || str_equal(tag, "DLMessageRemoveItems") {
        Some(3)
    } else {
        None
    }
}

/// One step of the DeviceLink loop: the overall progress after the message
/// and what the host does for it.
pub fn dl_step(progress: u64, tag: &str, value: &PlistValue) -> (r: (u64, DlAction))
    ensures
        r.0 == next_progress(progress, tag@, value@),
        dl_action_for(r.1, tag@, value@),
{
    let mut next = progress;
    if let PlistValue::Array(items) = value {
        assert(value@ == PlistView::Array(view_values(items@)));
        if let Some(i) = progress_index_of(tag) {
            if i < items.len() {
                assert(view_values(items@)[i as int] == items@[i as int]@);
                if let PlistValue::Real(p) = &items[i] {
                    if 0 < *p && *p <= 0x7FF0_0000_0000_0000 {
                        next = *p;
                    }
                }
            }
        }
    }
    let action = if str_equal(tag, "DLMessageDownloadFiles") {
        DlAction::DownloadFiles
    } else if str_equal(tag, "DLMessageUploadFiles") {
        DlAction::UploadFiles
    } else if str_equal(tag, "DLMessageGetFreeDiskSpace") {
        DlAction::GetFreeDiskSpace
    } else if str_equal(tag, "DLContentsOfDirectory") {
        DlAction::ContentsOfDirectory
    } else if str_equal(tag, "DLMessageCreateDirectory") {
        DlAction::CreateDirectory
    } else if str_equal(tag, "DLMessageMoveFiles") || str_equal(tag, "DLMessageMoveItems") {
        DlAction::MoveItems
    } else if str_equal(tag, "DLMessageRemoveFiles") || str_equal(tag, "DLMessageRemoveItems") {
        DlAction::RemoveItems
    } else if str_equal(tag, "DLMessageCopyItem") {
        DlAction::CopyItem
    } else if str_equal(tag, "DLMessageProcessMessage") {
        match value {
            PlistValue::Array(items) => {
                assert(value@ == PlistView::Array(view_values(items@)));
                if items.len() > 1 {
                    assert(view_values(items@)[1] == items@[1]@);
                    match &items[1] {
                        PlistValue::Dictionary(d) => DlAction::Finish(Some(d.deep_clone())),
                        _ => DlAction::Finish(None),
                    }
                } else {
                    DlAction::Finish(None)
                }
            },
            _ => DlAction::Finish(None),
        }
    } else if str_equal(tag, "DLMessageDisconnect") {
        DlAction::Finish(None)
    } else {
        DlAction::Unsupported
    };
    (next, action)
}

/// The tag of a DeviceLink message: the string its array starts with.
///
/// Fails with an unexpected-response error when the message is not an
/// array starting with a string.
pub fn dl_message_tag(value: &PlistValue) -> (r: Result<String, IdeviceError>)
    ensures
        match value@ {
            PlistView::Array(items) => if items.len() > 0 && items[0] is String {
                r matches Ok(t) && PlistView::String(t@) == items[0]
            } else {
                r == Err::<String, IdeviceError>(IdeviceError::UnexpectedResponse)
            },
            _ => r == Err::<String, IdeviceError>(IdeviceError::UnexpectedResponse),
        },
{
    match value {
        PlistValue::Array(items) => {
            assert(value@ == PlistView::Array(view_values(items@)));
            if items.len() > 0 {
                assert(view_values(items@)[0] == items@[0]@);
                match &items[0] {
                    PlistValue::String(t) => Ok(t.clone()),
                    _ => Err(IdeviceError::UnexpectedResponse),
                }
            } else {
                Err(IdeviceError::UnexpectedResponse)
            }
        },
        _ => Err(IdeviceError::UnexpectedResponse),
    }
}

} // verus!
