//! The decisions of the restore loop: what each message from `restored`
//! is, what progress it reports, and whether a status or baseband update
//! ends the restore, lets it go on, or fails it.

use vstd::prelude::*;

use crate::error::IdeviceError;
use crate::plist::{
    lemma_array_item_smaller, lemma_dict_value_smaller, lookup, opt_get, view_bool, view_dict,
    view_signed, view_string, view_unsigned, view_values, PlistDict, PlistValue, PlistView,
};
use crate::restore::errors::RestoreError;
use crate::restore::progress::RestoreProgressEvent;
use crate::text::{join_strings, joined, str_equal, trim, trim_string};
use vstd::string::StringExecFns;

verus! {

// ---------------------------------------------------------------------------
// Message kinds
// ---------------------------------------------------------------------------

/// What a message from `restored` is, by its `MsgType`.
#[derive(Debug, Clone, Copy, PartialEq, Eq, Structural)]
pub enum RestoreMessageKind {
    /// A data request, synchronous or not.
    DataRequest,
    /// The device's progress.
    Progress,
    /// A status, possibly the final one.
    Status,
    /// The baseband update's status.
    BasebandUpdateStatus,
    /// `restored` crashed.
    RestoredCrash,
    /// An attestation request, which the host declines.
    RestoreAttestation,
    /// Anything else, which the host only logs.
    Other,
}

/// The kind of a message type.
pub open spec fn message_kind(msg_type: Seq<char>) -> RestoreMessageKind {
    if msg_type == "DataRequestMsg"@ || msg_type == "AsyncDataRequestMsg"@ {
        RestoreMessageKind::DataRequest
    } else if msg_type == "ProgressMsg"@ {
        RestoreMessageKind::Progress
    } else if msg_type == "StatusMsg"@ {
        RestoreMessageKind::Status
    } else if msg_type == "BBUpdateStatusMsg"@ {
        RestoreMessageKind::BasebandUpdateStatus
    } else if msg_type == "RestoredCrash"@ {
        RestoreMessageKind::RestoredCrash
    } else if msg_type == "RestoreAttestation"@ {
        RestoreMessageKind::RestoreAttestation
    } else {
        RestoreMessageKind::Other
    }
}

/// The kind of a message from `restored`: its `MsgType` string, or the
/// empty type when it has none.
pub fn restore_message_kind(message: &PlistDict) -> (r: RestoreMessageKind)
    ensures
        r == message_kind(
            match view_string(lookup(message@, "MsgType"@)) {
                Some(t) => t,
                None => Seq::empty(),
            },
        ),
{
    let t = match message.get("MsgType") {
        Some(PlistValue::String(s)) => s.as_str(),
        _ => "",
    };
    proof {
        reveal_strlit("");
    }
    assert(""@ =~= Seq::<char>::empty());
    if str_equal(t, "DataRequestMsg") || str_equal(t, "AsyncDataRequestMsg") {
        RestoreMessageKind::DataRequest
    } else if str_equal(t, "ProgressMsg") {
        RestoreMessageKind::Progress
    } else if str_equal(t, "StatusMsg") {
        RestoreMessageKind::Status
    } else if str_equal(t, "BBUpdateStatusMsg") {
        RestoreMessageKind::BasebandUpdateStatus
    } else if str_equal(t, "RestoredCrash") {
        RestoreMessageKind::RestoredCrash
    } else if str_equal(t, "RestoreAttestation") {
        RestoreMessageKind::RestoreAttestation
    } else {
        RestoreMessageKind::Other
    }
}

/// The progress event of a progress message: its `Operation` and
/// `Progress`, when both are `u64` integers.
pub fn progress_event(message: &PlistDict) -> (r: Option<RestoreProgressEvent>)
    ensures
        match (
            view_unsigned(lookup(message@, "Operation"@)),
            view_unsigned(lookup(message@, "Progress"@)),
        ) {
            (Some(op), Some(p)) => r matches Some(RestoreProgressEvent::Operation { operation, progress })
                && operation == op && progress == p,
            _ => r is None,
        },
{
    let op = match message.get("Operation") {
        Some(v) => v.as_unsigned_integer(),
        None => None,
    };
    let progress = match message.get("Progress") {
        Some(v) => v.as_unsigned_integer(),
        None => None,
    };
    match (op, progress) {
        (Some(o), Some(p)) => Some(RestoreProgressEvent::Operation { operation: o, progress: p }),
        _ => None,
    }
}

// ---------------------------------------------------------------------------
// Baseband update status
// ---------------------------------------------------------------------------

/// Why the device rejected a baseband update: the `Error` dictionary's
/// `NSLocalizedDescription` (or, when that key is absent, its
/// `NSDescription`) string, or a fixed text.
pub open spec fn baseband_rejection(message: Seq<(Seq<char>, PlistView)>) -> Seq<char> {
    let err = view_dict(lookup(message, "Error"@));
    let d = match err {
        Some(e) => match lookup(e, "NSLocalizedDescription"@) {
            Some(x) => Some(x),
            None => lookup(e, "NSDescription"@),
        },
        None => None,
    };
    match view_string(d) {
        Some(s) => s,
        None => "device did not accept BasebandData"@,
    }
}

/// Checks a baseband update status: fails with a baseband-rejected error
/// carrying the device's description unless `Accepted` is true.
pub fn handle_bb_update_status(message: &PlistDict) -> (r: Result<(), IdeviceError>)
    ensures
        view_bool(lookup(message@, "Accepted"@)) == Some(true) ==> r is Ok,
        view_bool(lookup(message@, "Accepted"@)) != Some(true) ==> (r matches Err(
            IdeviceError::Restore(RestoreError::BasebandRejected(m)),
        ) && m@ == baseband_rejection(message@)),
{
    let accepted = match message.get("Accepted") {
        Some(PlistValue::Boolean(b)) => *b,
        _ => false,
    };
    if accepted {
        return Ok(());
    }
    let detail = match message.get("Error") {
        Some(PlistValue::Dictionary(e)) => {
            let d = match e.get("NSLocalizedDescription") {
                Some(x) => Some(x),
                None => e.get("NSDescription"),
            };
            match d {
                Some(PlistValue::String(s)) => s.clone(),
                _ => String::from_str("device did not accept BasebandData"),
            }
        },
        _ => String::from_str("device did not accept BasebandData"),
    };
    Err(IdeviceError::Restore(RestoreError::BasebandRejected(detail)))
}

// ---------------------------------------------------------------------------
// Status
// ---------------------------------------------------------------------------

/// What a status message means for the restore.
#[derive(Debug, Clone, Copy, PartialEq, Eq, Structural)]
pub enum StatusOutcome {
    /// The restore finished: the host acknowledges the final status.
    Finished,
    /// The restore goes on.
    Continue,
}

/// The description of an `NSDescription` value: the `Content` string of
/// a dictionary, else the value itself when it is a string.
pub open spec fn description_text(v: PlistView) -> Option<Seq<char>> {
    match view_string(opt_get(Some(v), "Content"@)) {
        Some(s) => Some(s),
        None => view_string(Some(v)),
    }
}

/// The descriptions found in a value, depth first: each `NSDescription`
/// entry of a dictionary (trimmed) before what its value holds.
pub open spec fn descriptions(v: PlistView) -> Seq<Seq<char>>
    decreases v, 1int,
{
    match v {
        PlistView::Dictionary(es) => entry_descriptions(es),
        PlistView::Array(items) => item_descriptions(items),
        _ => Seq::empty(),
    }
}

/// The descriptions in dictionary entries, in order.
pub open spec fn entry_descriptions(es: Seq<(Seq<char>, PlistView)>) -> Seq<Seq<char>>
    decreases es, 0int,
{
    if es.len() == 0 {
        Seq::empty()
    } else {
        let last = es.last();
        let own = if last.0 == "NSDescription"@ {
            match description_text(last.1) {
                Some(s) => seq![trim(s)],
                None => Seq::empty(),
            }
        } else {
            Seq::empty()
        };
        entry_descriptions(es.drop_last()) + own + descriptions(last.1)
    }
}

/// The descriptions in array items, in order.
pub open spec fn item_descriptions(items: Seq<PlistView>) -> Seq<Seq<char>>
    decreases items, 0int,
{
    if items.len() == 0 {
        Seq::empty()
    } else {
        item_descriptions(items.drop_last()) + descriptions(items.last())
    }
}

/// The views of strings.
pub open spec fn string_views(v: Seq<String>) -> Seq<Seq<char>> {
    v.map_values(|s: String| s@)
}

/// The description text of a value.
fn description_of(v: &PlistValue) -> (r: Option<&str>)
    ensures
        match description_text(v@) {
            Some(s) => r matches Some(x) && x@ == s,
            None => r is None,
        },
{
    if let PlistValue::Dictionary(d) = v {
        if let Some(PlistValue::String(s)) = d.get("Content") {
            return Some(s.as_str());
        }
    }
    match v {
        PlistValue::String(s) => Some(s.as_str()),
        _ => None,
    }
}

/// Appends the descriptions found in `value` to `out`.
fn walk_descriptions(value: &PlistValue, out: &mut Vec<String>)
    ensures
        string_views(final(out)@) == string_views(old(out)@) + descriptions(value@),
    decreases value,
{
    match value {
        PlistValue::Dictionary(d) => {
            let ghost start = string_views(out@);
            let ghost es = d@;
            let mut i: usize = 0;
            while i < d.len()
                invariant
                    *value == PlistValue::Dictionary(*d),
                    es == d@,
                    i <= es.len(),
                    string_views(out@) == start + entry_descriptions(es.take(i as int)),
                decreases es.len() - i,
            {
                let (k, v) = d.entry(i);
                proof {
                    lemma_dict_value_smaller(*value, i as int);
                }
                assert(es.take(i + 1).drop_last() =~= es.take(i as int));
                assert(es.take(i + 1).last() == es[i as int]);
                if str_equal(k.as_str(), "NSDescription") {
                    if let Some(s) = description_of(v) {
                        let t = trim_string(s);
                        let ghost before = out@;
                        out.push(t);
                        assert(string_views(out@) =~= string_views(before).push(trim(s@)));
                    }
                }
                let ghost mid = string_views(out@);
                walk_descriptions(v, out);
                assert(string_views(out@) =~= start + entry_descriptions(es.take(i + 1)));
                i = i + 1;
            }
            assert(es.take(es.len() as int) =~= es);
        },
        PlistValue::Array(a) => {
            let ghost start = string_views(out@);
            let ghost items = view_values(a@);
            let mut i: usize = 0;
            while i < a.len()
                invariant
                    *value == PlistValue::Array(*a),
                    items == view_values(a@),
                    i <= a@.len(),
                    string_views(out@) == start + item_descriptions(items.take(i as int)),
                decreases a@.len() - i,
            {
                proof {
                    lemma_array_item_smaller(*value, i as int);
                }
                assert(items.take(i + 1).drop_last() =~= items.take(i as int));
                assert(items.take(i + 1).last() == a@[i as int]@);
                walk_descriptions(&a[i], out);
                assert(string_views(out@) =~= start + item_descriptions(items.take(i + 1)));
                i = i + 1;
            }
            assert(items.take(a@.len() as int) =~= items);
        },
        _ => {
            assert(string_views(out@) =~= string_views(out@) + descriptions(value@));
        },
    }
}

/// The error descriptions a value holds, joined with ` -> `, or none when
/// it holds none.
pub fn collect_error_descriptions(value: &PlistValue) -> (r: Option<String>)
    ensures
        descriptions(value@).len() == 0 ==> r is None,
        descriptions(value@).len() > 0 ==> (r matches Some(s) && s@ == joined(
            descriptions(value@),
            " -> "@,
        )),
{
    let mut out: Vec<String> = Vec::new();
    assert(string_views(out@) =~= Seq::<Seq<char>>::empty());
    walk_descriptions(value, &mut out);
    assert(string_views(out@) =~= descriptions(value@));
    if out.len() == 0 {
        None
    } else {
        Some(join_strings(&out, " -> "))
    }
}

/// What a status message means: finished on status 0 without an
/// `AMRError` other than 0; a device-reported failure when it has an
/// `Error` or a non-zero `AMRError` (with `AMRError`, -1 when absent, and
/// the error's descriptions); otherwise the restore goes on.
pub fn handle_status(message: &PlistDict) -> (r: Result<StatusOutcome, IdeviceError>)
    ensures
        ({
            let status = view_signed(lookup(message@, "Status"@));
            let amr = view_signed(lookup(message@, "AMRError"@));
            let amr_or_zero = match amr {
                Some(a) => a,
                None => 0i64,
            };
            if status == Some(0i64) && amr_or_zero == 0 {
                r == Ok::<StatusOutcome, IdeviceError>(StatusOutcome::Finished)
            } else if lookup(message@, "Error"@) is Some || amr_or_zero != 0 {
                r matches Err(
                    IdeviceError::Restore(RestoreError::DeviceReported { amr_error, detail }),
                ) && amr_error == (match amr {
                    Some(a) => a,
                    None => -1i64,
                }) && detail@ == match lookup(message@, "Error"@) {
                    Some(e) => if descriptions(e).len() > 0 {
                        joined(descriptions(e), " -> "@)
                    } else {
                        "no description"@
                    },
                    None => "no description"@,
                }
            } else {
                r == Ok::<StatusOutcome, IdeviceError>(StatusOutcome::Continue)
            }
        }),
{
    let status = match message.get("Status") {
        Some(v) => v.as_signed_integer(),
        None => None,
    };
    let amr = match message.get("AMRError") {
        Some(v) => v.as_signed_integer(),
        None => None,
    };
    let amr_or_zero = match amr {
        Some(a) => a,
        None => 0,
    };
    if status == Some(0i64) && amr_or_zero == 0 {
        return Ok(StatusOutcome::Finished);
    }
    let error = message.get("Error");
    if error.is_some() || amr_or_zero != 0 {
        let detail = match error {
            Some(e) => match collect_error_descriptions(e) {
                Some(d) => d,
                None => String::from_str("no description"),
            },
            None => String::from_str("no description"),
        };
        let amr_error = match amr {
            Some(a) => a,
            None => -1,
        };
        return Err(IdeviceError::Restore(RestoreError::DeviceReported { amr_error, detail }));
    }
    Ok(StatusOutcome::Continue)
}

} // verus!
