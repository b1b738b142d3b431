//! The messages a MobileBackup2 host sends, and the checks on what the
//! device answers: DeviceLink envelopes, status responses, requests and
//! their options, and the replies that report errors or list backups.

use vstd::prelude::*;

use crate::backup::messages::BackupInfo;
use crate::error::IdeviceError;
use crate::lockdown::{opt_str, opt_string_entry, string_entry};
use crate::plist::{
    inserted, lookup, view_bool, view_string, view_unsigned, PlistDict, PlistValue, PlistView,
};
use crate::restore::options::dict_from;
use vstd::string::{StrSliceExecFns, StringExecFns};

verus! {

/// The status code of a successful file transfer block.
pub const DL_CODE_SUCCESS: u8 = 0x00;

/// The status code of a block that reports a local error.
pub const DL_CODE_ERROR_LOCAL: u8 = 0x06;

/// The status code of a block that reports a remote error.
pub const DL_CODE_ERROR_REMOTE: u8 = 0x0b;

/// The status code of a block of file data.
pub const DL_CODE_FILE_DATA: u8 = 0x0c;

/// What DeviceLink sends in place of an absent parameter.
pub const EMPTY_PARAMETER: &'static str = "___EmptyParameterString___";

/// The entries of `base` with `pairs` inserted in order.
pub open spec fn merged(
    base: Seq<(Seq<char>, PlistView)>,
    pairs: Seq<(Seq<char>, PlistView)>,
) -> Seq<(Seq<char>, PlistView)>
    decreases pairs.len(),
{
    if pairs.len() == 0 {
        base
    } else {
        inserted(merged(base, pairs.drop_last()), pairs.last().0, pairs.last().1)
    }
}

/// Inserts every entry of `from` into `into`, in order.
fn merge_into(into: &mut PlistDict, from: &PlistDict)
    ensures
        final(into)@ == merged(old(into)@, from@),
{
    let ghost base = into@;
    let n = from.len();
    let mut i: usize = 0;
    while i < n
        invariant
            n == from@.len(),
            i <= n,
            into@ == merged(base, from@.take(i as int)),
        decreases n - i,
    {
        let (k, v) = from.entry(i);
        assert(from@.take(i + 1).drop_last() =~= from@.take(i as int));
        assert(from@.take(i + 1).last() == from@[i as int]);
        into.insert(k.clone(), v.deep_clone());
        i = i + 1;
    }
    assert(from@.take(n as int) =~= from@);
}

/// A string value.
pub open spec fn s(x: Seq<char>) -> PlistView {
    PlistView::String(x)
}

/// The host's answer in the DeviceLink version exchange: versions OK, at
/// version 400.
pub fn versions_ok_message() -> (r: PlistValue)
    ensures
        r@ == PlistView::Array(
            seq![s("DLMessageVersionExchange"@), s("DLVersionsOk"@), PlistView::Integer(400)],
        ),
{
    let items = vec![
        PlistValue::String(String::from_str("DLMessageVersionExchange")),
        PlistValue::String(String::from_str("DLVersionsOk")),
        PlistValue::Integer(400),
    ];
    let r = PlistValue::Array(items);
    assert(r@ == PlistView::Array(
        seq![s("DLMessageVersionExchange"@), s("DLVersionsOk"@), PlistView::Integer(400)],
    )) by {
        assert(crate::plist::view_values(items@) =~= seq![
            s("DLMessageVersionExchange"@),
            s("DLVersionsOk"@),
            PlistView::Integer(400),
        ]);
    }
    r
}

/// The DeviceLink message that ends a session.
pub fn disconnect_message() -> (r: PlistValue)
    ensures
        r@ == PlistView::Array(seq![s("DLMessageDisconnect"@), s(EMPTY_PARAMETER@)]),
{
    let items = vec![
        PlistValue::String(String::from_str("DLMessageDisconnect")),
        PlistValue::String(String::from_str(EMPTY_PARAMETER)),
    ];
    let r = PlistValue::Array(items);
    assert(crate::plist::view_values(items@) =~= seq![
        s("DLMessageDisconnect"@),
        s(EMPTY_PARAMETER@),
    ]);
    r
}

/// A DeviceLink message that is not the one the exchange expects at this
/// point is unexpected.
pub fn expect_dl_tag(tag: &str, expected: &str) -> (r: Result<(), IdeviceError>)
    ensures
        tag@ == expected@ ==> r is Ok,
        tag@ != expected@ ==> r matches Err(IdeviceError::UnexpectedResponse),
{
    if crate::text::str_equal(tag, expected) {
        Ok(())
    } else {
        Err(IdeviceError::UnexpectedResponse)
    }
}

/// A MobileBackup2 message: `DLMessageProcessMessage` with a dictionary of
/// the message name and then the options' entries.
pub fn device_link_message(message_name: &str, options: Option<PlistDict>) -> (r: PlistValue)
    ensures
        r@ == PlistView::Array(
            seq![
                s("DLMessageProcessMessage"@),
                PlistView::Dictionary(
                    merged(
                        seq![string_entry("MessageName"@, message_name@)],
                        match options {
                            Some(o) => o@,
                            None => Seq::empty(),
                        },
                    ),
                ),
            ],
        ),
{
    let mut d = PlistDict::new();
    d.insert(String::from_str("MessageName"), PlistValue::String(String::from_str(message_name)));
    assert(d@ =~= seq![string_entry("MessageName"@, message_name@)]);
    let ghost base = d@;
    match &options {
        Some(o) => merge_into(&mut d, o),
        None => {
            assert(merged(base, Seq::empty()) == base);
        },
    }
    let ghost dv = d@;
    assert(dv == merged(
        seq![string_entry("MessageName"@, message_name@)],
        match options {
            Some(o) => o@,
            None => Seq::empty(),
        },
    ));
    let items = vec![
        PlistValue::String(String::from_str("DLMessageProcessMessage")),
        PlistValue::Dictionary(d),
    ];
    assert(crate::plist::view_values(items@) =~= seq![
        s("DLMessageProcessMessage"@),
        PlistView::Dictionary(dv),
    ]);
    let r = PlistValue::Array(items);
    assert(r@ == PlistView::Array(seq![s("DLMessageProcessMessage"@), PlistView::Dictionary(dv)]));
    assert(seq![
        s("DLMessageProcessMessage"@),
        PlistView::Dictionary(
            merged(
                seq![string_entry("MessageName"@, message_name@)],
                match options {
                    Some(o) => o@,
                    None => Seq::empty(),
                },
            ),
        ),
    ] =~= seq![s("DLMessageProcessMessage"@), PlistView::Dictionary(dv)]);
    r
}

/// The dictionary a `DLMessageProcessMessage` carries, if the value is one.
pub open spec fn process_message_dict(v: PlistView) -> Option<Seq<(Seq<char>, PlistView)>> {
    match v {
        PlistView::Array(a) => if a.len() >= 2 && a[0] == s("DLMessageProcessMessage"@) {
            match a[1] {
                PlistView::Dictionary(d) => Some(d),
                _ => None,
            }
        } else {
            None
        },
        _ => None,
    }
}

/// Reads a MobileBackup2 reply: the dictionary of a
/// `DLMessageProcessMessage`, whose `MessageName` must be the expected one
/// unless none is expected (an empty name).
pub fn device_link_reply(value: &PlistValue, expected: &str) -> (r: Result<PlistDict, IdeviceError>)
    ensures
        match process_message_dict(value@) {
            Some(d) => if expected@.len() == 0 || view_string(lookup(d, "MessageName"@)) == Some(
                expected@,
            ) {
                r matches Ok(x) && x@ == d
            } else {
                r matches Err(IdeviceError::UnexpectedResponse)
            },
            None => r matches Err(IdeviceError::UnexpectedResponse),
        },
{
    let dict = match value {
        PlistValue::Array(items) => {
            assert(value@ == PlistView::Array(crate::plist::view_values(items@)));
            if items.len() < 2 {
                return Err(IdeviceError::UnexpectedResponse);
            }
            let first_ok = match &items[0] {
                PlistValue::String(t) => crate::text::str_equal(t.as_str(), "DLMessageProcessMessage"),
                _ => false,
            };
            assert(crate::plist::view_values(items@)[0] == items@[0]@);
            assert(crate::plist::view_values(items@)[1] == items@[1]@);
            if !first_ok {
                return Err(IdeviceError::UnexpectedResponse);
            }
            match &items[1] {
                PlistValue::Dictionary(d) => d,
                _ => return Err(IdeviceError::UnexpectedResponse),
            }
        },
        _ => return Err(IdeviceError::UnexpectedResponse),
    };
    if expected.unicode_len() > 0 {
        match dict.get("MessageName") {
            Some(PlistValue::String(name)) => {
                if !crate::text::str_equal(name.as_str(), expected) {
                    return Err(IdeviceError::UnexpectedResponse);
                }
            },
            _ => return Err(IdeviceError::UnexpectedResponse),
        }
    }
    Ok(dict.deep_clone())
}

/// The options of the `Hello` message: protocol versions 2.0 and 2.1 (as
/// the bits of the two doubles).
pub fn hello_options() -> (r: PlistDict)
    ensures
        r@ == seq![
            (
                "SupportedProtocolVersions"@,
                PlistView::Array(
                    seq![
                        PlistView::Real(0x4000_0000_0000_0000),
                        PlistView::Real(0x4000_CCCC_CCCC_CCCD),
                    ],
                ),
            ),
        ],
{
    let versions = vec![PlistValue::Real(0x4000_0000_0000_0000), PlistValue::Real(0x4000_CCCC_CCCC_CCCD)];
    assert(crate::plist::view_values(versions@) =~= seq![
        PlistView::Real(0x4000_0000_0000_0000),
        PlistView::Real(0x4000_CCCC_CCCC_CCCD),
    ]);
    let mut d = PlistDict::new();
    d.insert(String::from_str("SupportedProtocolVersions"), PlistValue::Array(versions));
    d
}

/// Reads the reply to `Hello`: a nonzero unsigned `ErrorCode` fails it;
/// else the negotiated `ProtocolVersion` (a double, as its bits) must be
/// there.
pub fn negotiated_version(reply: &PlistDict) -> (r: Result<u64, IdeviceError>)
    ensures
        match view_unsigned(lookup(reply@, "ErrorCode"@)) {
            Some(code) if code != 0 => r matches Err(IdeviceError::UnexpectedResponse),
            _ => match lookup(reply@, "ProtocolVersion"@) {
                Some(PlistView::Real(bits)) => r == Ok::<u64, IdeviceError>(bits),
                _ => r matches Err(IdeviceError::UnexpectedResponse),
            },
        },
{
    match reply.get("ErrorCode") {
        Some(v) => match v.as_unsigned_integer() {
            Some(code) => {
                if code != 0 {
                    return Err(IdeviceError::UnexpectedResponse);
                }
            },
            None => {},
        },
        None => {},
    }
    match reply.get("ProtocolVersion") {
        Some(PlistValue::Real(bits)) => Ok(*bits),
        _ => Err(IdeviceError::UnexpectedResponse),
    }
}

/// The entry of an optional dictionary under `key`.
pub open spec fn opt_dict_entry(key: Seq<char>, v: Option<PlistDict>) -> Seq<(Seq<char>, PlistView)> {
    match v {
        Some(d) => seq![(key, PlistView::Dictionary(d@))],
        None => Seq::empty(),
    }
}

/// The options of a MobileBackup2 request: the target and source
/// identifiers and the request's options, each when given.
pub fn request_options(
    target_identifier: Option<&str>,
    source_identifier: Option<&str>,
    options: Option<PlistDict>,
) -> (r: PlistDict)
    ensures
        r@ == dict_from(
            opt_string_entry("TargetIdentifier"@, opt_str(target_identifier)) + opt_string_entry(
                "SourceIdentifier"@,
                opt_str(source_identifier),
            ) + opt_dict_entry("Options"@, options),
        ),
{
    let mut pairs: Vec<(&str, PlistValue)> = Vec::new();
    crate::lockdown::push_opt_string(&mut pairs, "TargetIdentifier", target_identifier);
    crate::lockdown::push_opt_string(&mut pairs, "SourceIdentifier", source_identifier);
    let ghost head = crate::restore::options::pair_views(pairs@);
    assert(head =~= opt_string_entry("TargetIdentifier"@, opt_str(target_identifier)) + opt_string_entry(
        "SourceIdentifier"@,
        opt_str(source_identifier),
    ));
    let ghost o = options;
    match options {
        Some(d) => {
            crate::lockdown::push_pair(&mut pairs, "Options", PlistValue::Dictionary(d));
        },
        None => {},
    }
    assert(crate::restore::options::pair_views(pairs@) =~= head + opt_dict_entry("Options"@, o));
    crate::restore::options::dict_from_pairs(pairs)
}

/// A `DLMessageStatusResponse`: the code, the status text (or the empty
/// parameter) and the status value (or the empty parameter as a string).
pub fn status_response(code: i64, status1: Option<&str>, status2: Option<PlistValue>) -> (r: PlistValue)
    ensures
        r@ == PlistView::Array(
            seq![
                s("DLMessageStatusResponse"@),
                PlistView::Integer(code as int),
                s(
                    match status1 {
                        Some(t) => t@,
                        None => EMPTY_PARAMETER@,
                    },
                ),
                match status2 {
                    Some(v) => v@,
                    None => s(EMPTY_PARAMETER@),
                },
            ],
        ),
{
    let text = match status1 {
        Some(t) => String::from_str(t),
        None => String::from_str(EMPTY_PARAMETER),
    };
    let value = match status2 {
        Some(v) => v,
        None => PlistValue::String(String::from_str(EMPTY_PARAMETER)),
    };
    let ghost tv = text@;
    let ghost vv = value@;
    assert(tv == match status1 {
        Some(t) => t@,
        None => EMPTY_PARAMETER@,
    });
    assert(vv == match status2 {
        Some(v) => v@,
        None => s(EMPTY_PARAMETER@),
    });
    let wide: i128 = code as i128;
    assert(wide as int == code as int);
    let items = vec![
        PlistValue::String(String::from_str("DLMessageStatusResponse")),
        PlistValue::Integer(wide),
        PlistValue::String(text),
        value,
    ];
    assert(crate::plist::view_values(items@) =~= seq![
        s("DLMessageStatusResponse"@),
        PlistView::Integer(code as int),
        s(tv),
        vv,
    ]);
    let r = PlistValue::Array(items);
    assert(r@ == PlistView::Array(seq![s("DLMessageStatusResponse"@), PlistView::Integer(code as int), s(tv), vv]));
    assert(seq![
        s("DLMessageStatusResponse"@),
        PlistView::Integer(code as int),
        s(
            match status1 {
                Some(t) => t@,
                None => EMPTY_PARAMETER@,
            },
        ),
        match status2 {
            Some(v) => v@,
            None => s(EMPTY_PARAMETER@),
        },
    ] =~= seq![s("DLMessageStatusResponse"@), PlistView::Integer(code as int), s(tv), vv]);
    r
}

/// Checks a reply to a request: one with an `ErrorCode` is a failure.
pub fn check_error_code(reply: &PlistDict) -> (r: Result<(), IdeviceError>)
    ensures
        lookup(reply@, "ErrorCode"@) is Some ==> r matches Err(IdeviceError::UnexpectedResponse),
        lookup(reply@, "ErrorCode"@) is None ==> r is Ok,
{
    if reply.contains_key("ErrorCode") {
        Err(IdeviceError::UnexpectedResponse)
    } else {
        Ok(())
    }
}

} // verus!

verus! {

// ---------------------------------------------------------------------------
// Listing backups
// ---------------------------------------------------------------------------

/// A string field, or a default when the field is absent or not a string.
pub open spec fn string_or(v: Option<PlistView>, default: Seq<char>) -> Seq<char> {
    match view_string(v) {
        Some(x) => x,
        None => default,
    }
}

/// The view of an optional string.
pub open spec fn opt_string_view(v: Option<String>) -> Option<Seq<char>> {
    match v {
        Some(x) => Some(x@),
        None => None,
    }
}

/// What a backup's information is made of: UUID, device name, display
/// name, last backup date, version and whether it is encrypted.
pub type BackupInfoView = (Seq<char>, Seq<char>, Seq<char>, Option<Seq<char>>, Seq<char>, bool);

/// The view of a backup's information.
pub open spec fn backup_info_view(b: BackupInfo) -> BackupInfoView {
    (b.uuid@, b.device_name@, b.display_name@, opt_string_view(b.last_backup_date), b.version@, b.is_encrypted)
}

/// The information a backup list entry gives: missing names are empty, a
/// missing version is `Unknown`, and a backup is encrypted only when
/// `IsEncrypted` says so.
pub open spec fn backup_info_of(d: Seq<(Seq<char>, PlistView)>) -> BackupInfoView {
    (
        string_or(lookup(d, "BackupUUID"@), Seq::empty()),
        string_or(lookup(d, "DeviceName"@), Seq::empty()),
        string_or(lookup(d, "DisplayName"@), Seq::empty()),
        view_string(lookup(d, "LastBackupDate"@)),
        string_or(lookup(d, "Version"@), "Unknown"@),
        view_bool(lookup(d, "IsEncrypted"@)) == Some(true),
    )
}

/// Each field of a listed backup comes from the entry of its own name: the
/// UUID from `BackupUUID`, the device name from `DeviceName`, the display
/// name from `DisplayName`, the version from `Version` (each empty, or
/// `Unknown` for the version, when the entry is not a string), the last
/// backup date from `LastBackupDate`, and encryption from `IsEncrypted`.
pub proof fn law_backup_info_fields(d: Seq<(Seq<char>, PlistView)>)
    ensures
        ({
            let b = backup_info_of(d);
            &&& lookup(d, "BackupUUID"@) matches Some(PlistView::String(s)) ==> b.0 == s
            &&& !(lookup(d, "BackupUUID"@) is Some && lookup(d, "BackupUUID"@)->0 is String) ==> b.0 == Seq::<char>::empty()
            &&& lookup(d, "DeviceName"@) matches Some(PlistView::String(s)) ==> b.1 == s
            &&& !(lookup(d, "DeviceName"@) is Some && lookup(d, "DeviceName"@)->0 is String) ==> b.1 == Seq::<char>::empty()
            &&& lookup(d, "DisplayName"@) matches Some(PlistView::String(s)) ==> b.2 == s
            &&& !(lookup(d, "DisplayName"@) is Some && lookup(d, "DisplayName"@)->0 is String) ==> b.2 == Seq::<char>::empty()
            &&& (lookup(d, "LastBackupDate"@) matches Some(PlistView::String(s)) ==> b.3 == Some(s))
            &&& !(lookup(d, "LastBackupDate"@) is Some && lookup(d, "LastBackupDate"@)->0 is String) ==> b.3 is None
            &&& lookup(d, "Version"@) matches Some(PlistView::String(s)) ==> b.4 == s
            &&& !(lookup(d, "Version"@) is Some && lookup(d, "Version"@)->0 is String) ==> b.4 == "Unknown"@
            &&& b.5 == (lookup(d, "IsEncrypted"@) == Some(PlistView::Boolean(true)))
        }),
{
}

/// The backups of a list, in order; entries that are not dictionaries are
/// passed over.
pub open spec fn listed_backups(items: Seq<PlistView>) -> Seq<BackupInfoView>
    decreases items.len(),
{
    if items.len() == 0 {
        Seq::empty()
    } else {
        let prev = listed_backups(items.drop_last());
        match items.last() {
            PlistView::Dictionary(d) => prev.push(backup_info_of(d)),
            _ => prev,
        }
    }
}

/// The backups a `List` reply names under `BackupList`.
pub open spec fn backups_of(reply: Seq<(Seq<char>, PlistView)>) -> Seq<BackupInfoView> {
    match lookup(reply, "BackupList"@) {
        Some(PlistView::Array(items)) => listed_backups(items),
        _ => Seq::empty(),
    }
}

/// A string field of a dictionary, or a default.
fn string_field_or(d: &PlistDict, key: &str, default: &str) -> (r: String)
    ensures
        r@ == string_or(lookup(d@, key@), default@),
{
    match d.get(key) {
        Some(PlistValue::String(x)) => x.clone(),
        _ => String::from_str(default),
    }
}

/// The information of one backup list entry.
fn backup_info_from(d: &PlistDict) -> (r: BackupInfo)
    ensures
        backup_info_view(r) == backup_info_of(d@),
{
    proof {
        reveal_strlit("");
    }
    let last_backup_date = match d.get("LastBackupDate") {
        Some(PlistValue::String(x)) => Some(x.clone()),
        _ => None,
    };
    let is_encrypted = match d.get("IsEncrypted") {
        Some(v) => match v.as_boolean() {
            Some(b) => b,
            None => false,
        },
        None => false,
    };
    BackupInfo {
        uuid: string_field_or(d, "BackupUUID", ""),
        device_name: string_field_or(d, "DeviceName", ""),
        display_name: string_field_or(d, "DisplayName", ""),
        last_backup_date,
        version: string_field_or(d, "Version", "Unknown"),
        is_encrypted,
    }
}

/// Reads the reply to `List`: one with an `ErrorCode` fails; else the
/// backups it names, in order.
pub fn backup_list(reply: &PlistDict) -> (r: Result<Vec<BackupInfo>, IdeviceError>)
    ensures
        lookup(reply@, "ErrorCode"@) is Some ==> r matches Err(IdeviceError::UnexpectedResponse),
        lookup(reply@, "ErrorCode"@) is None ==> (r matches Ok(v) && v@.map_values(
            |b: BackupInfo| backup_info_view(b),
        ) == backups_of(reply@)),
{
    check_error_code(reply)?;
    let mut out: Vec<BackupInfo> = Vec::new();
    match reply.get("BackupList") {
        Some(PlistValue::Array(items)) => {
            let ghost views = crate::plist::view_values(items@);
            let n = items.len();
            let mut i: usize = 0;
            while i < n
                invariant
                    n == items@.len(),
                    i <= n,
                    views == crate::plist::view_values(items@),
                    out@.map_values(|b: BackupInfo| backup_info_view(b)) == listed_backups(
                        views.take(i as int),
                    ),
                decreases n - i,
            {
                assert(views.take(i + 1).drop_last() =~= views.take(i as int));
                assert(views.take(i + 1).last() == items@[i as int]@);
                let ghost before = out@;
                match &items[i] {
                    PlistValue::Dictionary(d) => {
                        let info = backup_info_from(d);
                        out.push(info);
                        assert(out@.map_values(|b: BackupInfo| backup_info_view(b)) =~= before.map_values(
                            |b: BackupInfo| backup_info_view(b),
                        ).push(backup_info_of(d@)));
                    },
                    _ => {},
                }
                i = i + 1;
            }
            assert(views.take(n as int) =~= views);
        },
        _ => {
            assert(out@.map_values(|b: BackupInfo| backup_info_view(b)) =~= Seq::<BackupInfoView>::empty());
        },
    }
    Ok(out)
}

// ---------------------------------------------------------------------------
// Restore options
// ---------------------------------------------------------------------------

/// The entries with `key` set to `value` unless it is already there.
pub open spec fn with_default(
    d: Seq<(Seq<char>, PlistView)>,
    key: Seq<char>,
    value: PlistView,
) -> Seq<(Seq<char>, PlistView)> {
    if lookup(d, key) is Some {
        d
    } else {
        inserted(d, key, value)
    }
}

/// Restore options with the defaults filled in: reboot, copy the backup
/// (`RestoreDontCopyBackup` false), preserve settings, no system files,
/// keep items not restored. Values the caller gave stay.
pub open spec fn restore_defaults(d: Seq<(Seq<char>, PlistView)>) -> Seq<(Seq<char>, PlistView)> {
    let d1 = with_default(d, "RestoreShouldReboot"@, PlistView::Boolean(true));
    let d2 = with_default(d1, "RestoreDontCopyBackup"@, PlistView::Boolean(false));
    let d3 = with_default(d2, "RestorePreserveSettings"@, PlistView::Boolean(true));
    let d4 = with_default(d3, "RestoreSystemFiles"@, PlistView::Boolean(false));
    with_default(d4, "RemoveItemsNotRestored"@, PlistView::Boolean(false))
}

/// Sets a boolean unless the key is already there.
fn set_default(d: &mut PlistDict, key: &str, value: bool)
    ensures
        final(d)@ == with_default(old(d)@, key@, PlistView::Boolean(value)),
{
    if !d.contains_key(key) {
        d.insert(String::from_str(key), PlistValue::Boolean(value));
    }
}

/// The options of a restore started by backup UUID, with the defaults
/// filled in.
pub fn restore_options_with_defaults(options: Option<PlistDict>) -> (r: PlistDict)
    ensures
        r@ == restore_defaults(
            match options {
                Some(o) => o@,
                None => Seq::empty(),
            },
        ),
{
    let mut d = match options {
        Some(o) => o,
        None => PlistDict::new(),
    };
    set_default(&mut d, "RestoreShouldReboot", true);
    set_default(&mut d, "RestoreDontCopyBackup", false);
    set_default(&mut d, "RestorePreserveSettings", true);
    set_default(&mut d, "RestoreSystemFiles", false);
    set_default(&mut d, "RemoveItemsNotRestored", false);
    d
}

// ---------------------------------------------------------------------------
// Requests
// ---------------------------------------------------------------------------

/// The backup a request is about: the given source, else the connected
/// device's UDID; with neither there is no host to name.
pub fn backup_source(source_identifier: Option<&str>, udid: Option<&str>) -> (r: Result<String, IdeviceError>)
    ensures
        match (source_identifier, udid) {
            (Some(s), _) => r matches Ok(x) && x@ == s@,
            (None, Some(u)) => r matches Ok(x) && x@ == u@,
            (None, None) => r matches Err(IdeviceError::InvalidHostID),
        },
{
    match source_identifier {
        Some(s) => Ok(String::from_str(s)),
        None => match udid {
            Some(u) => Ok(String::from_str(u)),
            None => Err(IdeviceError::InvalidHostID),
        },
    }
}

/// The options of an `Info` request: the target, and the source when given.
pub fn info_request_options(target: &str, source_identifier: Option<&str>) -> (r: PlistDict)
    ensures
        r@ == dict_from(
            seq![string_entry("TargetIdentifier"@, target@)] + opt_string_entry(
                "SourceIdentifier"@,
                opt_str(source_identifier),
            ),
        ),
{
    let mut pairs: Vec<(&str, PlistValue)> = Vec::new();
    crate::lockdown::push_pair(&mut pairs, "TargetIdentifier", PlistValue::String(String::from_str(target)));
    let ghost head = crate::restore::options::pair_views(pairs@);
    assert(head =~= seq![string_entry("TargetIdentifier"@, target@)]);
    crate::lockdown::push_opt_string(&mut pairs, "SourceIdentifier", source_identifier);
    crate::restore::options::dict_from_pairs(pairs)
}

/// The options of a `List` request.
pub fn list_request_options(target: &str, source: &str) -> (r: PlistDict)
    ensures
        r@ == dict_from(
            seq![
                string_entry("MessageName"@, "List"@),
                string_entry("TargetIdentifier"@, target@),
                string_entry("SourceIdentifier"@, source@),
            ],
        ),
{
    let mut pairs: Vec<(&str, PlistValue)> = Vec::new();
    crate::lockdown::push_pair(&mut pairs, "MessageName", PlistValue::String(String::from_str("List")));
    crate::lockdown::push_pair(&mut pairs, "TargetIdentifier", PlistValue::String(String::from_str(target)));
    crate::lockdown::push_pair(&mut pairs, "SourceIdentifier", PlistValue::String(String::from_str(source)));
    assert(crate::restore::options::pair_views(pairs@) =~= seq![
        string_entry("MessageName"@, "List"@),
        string_entry("TargetIdentifier"@, target@),
        string_entry("SourceIdentifier"@, source@),
    ]);
    crate::restore::options::dict_from_pairs(pairs)
}

/// The options of an `Extract` request for one file of a backup.
pub fn extract_request_options(
    target: &str,
    domain_name: &str,
    relative_path: &str,
    source: &str,
    password: Option<&str>,
) -> (r: PlistDict)
    ensures
        r@ == dict_from(
            seq![
                string_entry("MessageName"@, "Extract"@),
                string_entry("TargetIdentifier"@, target@),
                string_entry("DomainName"@, domain_name@),
                string_entry("RelativePath"@, relative_path@),
                string_entry("SourceIdentifier"@, source@),
            ] + opt_string_entry("Password"@, opt_str(password)),
        ),
{
    let mut pairs: Vec<(&str, PlistValue)> = Vec::new();
    crate::lockdown::push_pair(&mut pairs, "MessageName", PlistValue::String(String::from_str("Extract")));
    crate::lockdown::push_pair(&mut pairs, "TargetIdentifier", PlistValue::String(String::from_str(target)));
    crate::lockdown::push_pair(&mut pairs, "DomainName", PlistValue::String(String::from_str(domain_name)));
    crate::lockdown::push_pair(&mut pairs, "RelativePath", PlistValue::String(String::from_str(relative_path)));
    crate::lockdown::push_pair(&mut pairs, "SourceIdentifier", PlistValue::String(String::from_str(source)));
    assert(crate::restore::options::pair_views(pairs@) =~= seq![
        string_entry("MessageName"@, "Extract"@),
        string_entry("TargetIdentifier"@, target@),
        string_entry("DomainName"@, domain_name@),
        string_entry("RelativePath"@, relative_path@),
        string_entry("SourceIdentifier"@, source@),
    ]);
    crate::lockdown::push_opt_string(&mut pairs, "Password", password);
    crate::restore::options::dict_from_pairs(pairs)
}

/// The options of a `ChangePassword` request: the old and new passwords
/// each when given (a missing one enables or disables encryption).
pub fn change_password_options(target: &str, old_password: Option<&str>, new_password: Option<&str>) -> (r: PlistDict)
    ensures
        r@ == dict_from(
            seq![string_entry("MessageName"@, "ChangePassword"@), string_entry("TargetIdentifier"@, target@)]
                + opt_string_entry("OldPassword"@, opt_str(old_password)) + opt_string_entry(
                "NewPassword"@,
                opt_str(new_password),
            ),
        ),
{
    let mut pairs: Vec<(&str, PlistValue)> = Vec::new();
    crate::lockdown::push_pair(
        &mut pairs,
        "MessageName",
        PlistValue::String(String::from_str("ChangePassword")),
    );
    crate::lockdown::push_pair(&mut pairs, "TargetIdentifier", PlistValue::String(String::from_str(target)));
    assert(crate::restore::options::pair_views(pairs@) =~= seq![
        string_entry("MessageName"@, "ChangePassword"@),
        string_entry("TargetIdentifier"@, target@),
    ]);
    crate::lockdown::push_opt_string(&mut pairs, "OldPassword", old_password);
    crate::lockdown::push_opt_string(&mut pairs, "NewPassword", new_password);
    crate::restore::options::dict_from_pairs(pairs)
}

/// The options of an `EraseDevice` request.
pub fn erase_device_options(target: &str) -> (r: PlistDict)
    ensures
        r@ == dict_from(
            seq![string_entry("MessageName"@, "EraseDevice"@), string_entry("TargetIdentifier"@, target@)],
        ),
{
    let mut pairs: Vec<(&str, PlistValue)> = Vec::new();
    crate::lockdown::push_pair(&mut pairs, "MessageName", PlistValue::String(String::from_str("EraseDevice")));
    crate::lockdown::push_pair(&mut pairs, "TargetIdentifier", PlistValue::String(String::from_str(target)));
    assert(crate::restore::options::pair_views(pairs@) =~= seq![
        string_entry("MessageName"@, "EraseDevice"@),
        string_entry("TargetIdentifier"@, target@),
    ]);
    crate::restore::options::dict_from_pairs(pairs)
}

/// The options of an `Unback` request: the password, when given.
pub fn unback_options(password: Option<&str>) -> (r: Option<PlistDict>)
    ensures
        match password {
            Some(p) => r matches Some(d) && d@ == seq![string_entry("Password"@, p@)],
            None => r is None,
        },
{
    match password {
        Some(p) => {
            let mut d = PlistDict::new();
            d.insert(String::from_str("Password"), PlistValue::String(String::from_str(p)));
            assert(d@ =~= seq![string_entry("Password"@, p@)]);
            Some(d)
        },
        None => None,
    }
}

} // verus!

verus! {

// ---------------------------------------------------------------------------
// The restore options builder
// ---------------------------------------------------------------------------

/// The options of a restore from a local backup, so that callers need not
/// remember the raw keys.
#[derive(Debug, Clone)]
pub struct RestoreOptions {
    /// Reboot the device when the restore is done.
    pub reboot: bool,
    /// Copy the backup before restoring from it.
    pub copy: bool,
    /// Keep the device's settings.
    pub preserve_settings: bool,
    /// Restore system files too.
    pub system_files: bool,
    /// Remove items that the backup does not hold.
    pub remove_items_not_restored: bool,
    /// The backup's password, for an encrypted backup.
    pub password: Option<String>,
}

/// Whether options are the defaults: reboot, copy, preserve settings, no
/// system files, keep items not restored, no password.
pub open spec fn default_restore_options(o: RestoreOptions) -> bool {
    &&& o.reboot
    &&& o.copy
    &&& o.preserve_settings
    &&& !o.system_files
    &&& !o.remove_items_not_restored
    &&& o.password is None
}

impl Default for RestoreOptions {
    fn default() -> (r: RestoreOptions)
        ensures
            default_restore_options(r),
    {
        RestoreOptions {
            reboot: true,
            copy: true,
            preserve_settings: true,
            system_files: false,
            remove_items_not_restored: false,
            password: None,
        }
    }
}

impl RestoreOptions {
    /// The default options.
    pub fn new() -> (r: RestoreOptions)
        ensures
            default_restore_options(r),
    {
        RestoreOptions::default()
    }

    /// Sets whether the device reboots afterwards.
    pub fn with_reboot(self, reboot: bool) -> (r: RestoreOptions)
        ensures
            r == (RestoreOptions { reboot, ..self }),
    {
        RestoreOptions { reboot, ..self }
    }

    /// Sets whether the backup is copied first.
    pub fn with_copy(self, copy: bool) -> (r: RestoreOptions)
        ensures
            r == (RestoreOptions { copy, ..self }),
    {
        RestoreOptions { copy, ..self }
    }

    /// Sets whether the device's settings are kept.
    pub fn with_preserve_settings(self, preserve: bool) -> (r: RestoreOptions)
        ensures
            r == (RestoreOptions { preserve_settings: preserve, ..self }),
    {
        RestoreOptions { preserve_settings: preserve, ..self }
    }

    /// Sets whether system files are restored.
    pub fn with_system_files(self, system: bool) -> (r: RestoreOptions)
        ensures
            r == (RestoreOptions { system_files: system, ..self }),
    {
        RestoreOptions { system_files: system, ..self }
    }

    /// Sets whether items the backup does not hold are removed.
    pub fn with_remove_items_not_restored(self, remove: bool) -> (r: RestoreOptions)
        ensures
            r == (RestoreOptions { remove_items_not_restored: remove, ..self }),
    {
        RestoreOptions { remove_items_not_restored: remove, ..self }
    }

    /// Sets the backup's password.
    pub fn with_password(self, password: &str) -> (r: RestoreOptions)
        ensures
            r.password matches Some(p) && p@ == password@,
            r.reboot == self.reboot && r.copy == self.copy && r.preserve_settings == self.preserve_settings
                && r.system_files == self.system_files && r.remove_items_not_restored
                == self.remove_items_not_restored,
    {
        RestoreOptions { password: Some(String::from_str(password)), ..self }
    }

    /// The options dictionary: the five switches (copying is sent as
    /// `RestoreDontCopyBackup`, its negation) and the password when set.
    pub fn to_plist(&self) -> (r: PlistDict)
        ensures
            r@ == dict_from(
                seq![
                    ("RestoreShouldReboot"@, PlistView::Boolean(self.reboot)),
                    ("RestoreDontCopyBackup"@, PlistView::Boolean(!self.copy)),
                    ("RestorePreserveSettings"@, PlistView::Boolean(self.preserve_settings)),
                    ("RestoreSystemFiles"@, PlistView::Boolean(self.system_files)),
                    ("RemoveItemsNotRestored"@, PlistView::Boolean(self.remove_items_not_restored)),
                ] + opt_string_entry("Password"@, opt_string_view(self.password)),
            ),
    {
        let mut pairs: Vec<(&str, PlistValue)> = Vec::new();
        crate::lockdown::push_pair(&mut pairs, "RestoreShouldReboot", PlistValue::Boolean(self.reboot));
        crate::lockdown::push_pair(&mut pairs, "RestoreDontCopyBackup", PlistValue::Boolean(!self.copy));
        crate::lockdown::push_pair(
            &mut pairs,
            "RestorePreserveSettings",
            PlistValue::Boolean(self.preserve_settings),
        );
        crate::lockdown::push_pair(&mut pairs, "RestoreSystemFiles", PlistValue::Boolean(self.system_files));
        crate::lockdown::push_pair(
            &mut pairs,
            "RemoveItemsNotRestored",
            PlistValue::Boolean(self.remove_items_not_restored),
        );
        let ghost head = crate::restore::options::pair_views(pairs@);
        assert(head =~= seq![
            ("RestoreShouldReboot"@, PlistView::Boolean(self.reboot)),
            ("RestoreDontCopyBackup"@, PlistView::Boolean(!self.copy)),
            ("RestorePreserveSettings"@, PlistView::Boolean(self.preserve_settings)),
            ("RestoreSystemFiles"@, PlistView::Boolean(self.system_files)),
            ("RemoveItemsNotRestored"@, PlistView::Boolean(self.remove_items_not_restored)),
        ]);
        match &self.password {
            Some(p) => {
                crate::lockdown::push_pair(&mut pairs, "Password", PlistValue::String(p.clone()));
            },
            None => {},
        }
        assert(crate::restore::options::pair_views(pairs@) =~= head + opt_string_entry(
            "Password"@,
            opt_string_view(self.password),
        ));
        crate::restore::options::dict_from_pairs(pairs)
    }
}

} // verus!

verus! {

// ---------------------------------------------------------------------------
// The arguments of DeviceLink requests
// ---------------------------------------------------------------------------

/// The items of a DeviceLink message: its array, or none.
pub open spec fn dl_items(v: PlistView) -> Seq<PlistView> {
    match v {
        PlistView::Array(a) => a,
        _ => Seq::empty(),
    }
}

/// The strings among values, in order.
pub open spec fn strings_of(items: Seq<PlistView>) -> Seq<Seq<char>>
    decreases items.len(),
{
    if items.len() == 0 {
        Seq::empty()
    } else {
        match items.last() {
            PlistView::String(x) => strings_of(items.drop_last()).push(x),
            _ => strings_of(items.drop_last()),
        }
    }
}

/// The views of strings.
pub open spec fn string_views(v: Seq<String>) -> Seq<Seq<char>> {
    v.map_values(|x: String| x@)
}

/// The strings of a vector of values, in order.
fn strings_in(items: &Vec<PlistValue>) -> (r: Vec<String>)
    ensures
        string_views(r@) == strings_of(crate::plist::view_values(items@)),
{
    let ghost views = crate::plist::view_values(items@);
    let mut out: Vec<String> = Vec::new();
    let n = items.len();
    let mut i: usize = 0;
    while i < n
        invariant
            n == items@.len(),
            i <= n,
            views == crate::plist::view_values(items@),
            string_views(out@) == strings_of(views.take(i as int)),
        decreases n - i,
    {
        assert(views.take(i + 1).drop_last() =~= views.take(i as int));
        assert(views.take(i + 1).last() == items@[i as int]@);
        let ghost before = out@;
        match &items[i] {
            PlistValue::String(x) => {
                out.push(x.clone());
                assert(string_views(out@) =~= string_views(before).push(x@));
            },
            _ => {},
        }
        i = i + 1;
    }
    assert(views.take(n as int) =~= views);
    out
}

/// The files a `DLMessageDownloadFiles` asks for: the strings of its
/// second item, when that is an array.
pub open spec fn requested_files_of(v: PlistView) -> Seq<Seq<char>> {
    let items = dl_items(v);
    if items.len() >= 2 {
        match items[1] {
            PlistView::Array(files) => strings_of(files),
            _ => Seq::empty(),
        }
    } else {
        Seq::empty()
    }
}

/// The files a download request asks for, in order.
pub fn requested_files(message: &PlistValue) -> (r: Vec<String>)
    ensures
        string_views(r@) == requested_files_of(message@),
{
    match message {
        PlistValue::Array(items) => {
            assert(message@ == PlistView::Array(crate::plist::view_values(items@)));
            if items.len() >= 2 {
                assert(crate::plist::view_values(items@)[1] == items@[1]@);
                match &items[1] {
                    PlistValue::Array(files) => strings_in(files),
                    _ => Vec::new(),
                }
            } else {
                Vec::new()
            }
        },
        _ => Vec::new(),
    }
}

/// The total size an upload announces: the fourth item, when it is an
/// unsigned integer; else zero.
pub open spec fn upload_total_of(v: PlistView) -> u64 {
    let items = dl_items(v);
    if items.len() > 3 {
        match view_unsigned(Some(items[3])) {
            Some(n) => n,
            None => 0,
        }
    } else {
        0
    }
}

/// The number of bytes an upload announces.
pub fn upload_total_bytes(message: &PlistValue) -> (r: u64)
    ensures
        r == upload_total_of(message@),
{
    match message {
        PlistValue::Array(items) => {
            assert(message@ == PlistView::Array(crate::plist::view_values(items@)));
            if items.len() > 3 {
                assert(crate::plist::view_values(items@)[3] == items@[3]@);
                match items[3].as_unsigned_integer() {
                    Some(n) => n,
                    None => 0,
                }
            } else {
                0
            }
        },
        _ => 0,
    }
}

/// The path a `DLMessageCreateDirectory` or `DLContentsOfDirectory` names:
/// its second item, when that is a string.
pub open spec fn path_argument_of(v: PlistView) -> Option<Seq<char>> {
    let items = dl_items(v);
    if items.len() >= 2 {
        view_string(Some(items[1]))
    } else {
        None
    }
}

/// The path a directory request names, if it names one.
pub fn path_argument(message: &PlistValue) -> (r: Option<String>)
    ensures
        opt_string_view(r) == path_argument_of(message@),
{
    match message {
        PlistValue::Array(items) => {
            assert(message@ == PlistView::Array(crate::plist::view_values(items@)));
            if items.len() >= 2 {
                assert(crate::plist::view_values(items@)[1] == items@[1]@);
                match &items[1] {
                    PlistValue::String(p) => Some(p.clone()),
                    _ => None,
                }
            } else {
                None
            }
        },
        _ => None,
    }
}

/// The moves of a dictionary of paths: the entries whose value is a
/// string, in order.
pub open spec fn string_moves(es: Seq<(Seq<char>, PlistView)>) -> Seq<(Seq<char>, Seq<char>)>
    decreases es.len(),
{
    if es.len() == 0 {
        Seq::empty()
    } else {
        match es.last().1 {
            PlistView::String(to) => string_moves(es.drop_last()).push((es.last().0, to)),
            _ => string_moves(es.drop_last()),
        }
    }
}

/// The moves a `DLMessageMoveFiles` or `DLMessageMoveItems` asks for, if its
/// second item is a dictionary.
pub open spec fn moves_of(v: PlistView) -> Option<Seq<(Seq<char>, Seq<char>)>> {
    let items = dl_items(v);
    if items.len() >= 2 {
        match items[1] {
            PlistView::Dictionary(m) => Some(string_moves(m)),
            _ => None,
        }
    } else {
        None
    }
}

/// The views of pairs of strings.
pub open spec fn pair_string_views(v: Seq<(String, String)>) -> Seq<(Seq<char>, Seq<char>)> {
    v.map_values(|p: (String, String)| (p.0@, p.1@))
}

/// The moves a move request asks for: from and to, in order.
pub fn move_pairs(message: &PlistValue) -> (r: Option<Vec<(String, String)>>)
    ensures
        match moves_of(message@) {
            Some(m) => r matches Some(v) && pair_string_views(v@) == m,
            None => r is None,
        },
{
    let map = match message {
        PlistValue::Array(items) => {
            assert(message@ == PlistView::Array(crate::plist::view_values(items@)));
            if items.len() < 2 {
                return None;
            }
            assert(crate::plist::view_values(items@)[1] == items@[1]@);
            match &items[1] {
                PlistValue::Dictionary(m) => m,
                _ => return None,
            }
        },
        _ => return None,
    };
    let mut out: Vec<(String, String)> = Vec::new();
    let n = map.len();
    let mut i: usize = 0;
    while i < n
        invariant
            n == map@.len(),
            i <= n,
            pair_string_views(out@) == string_moves(map@.take(i as int)),
        decreases n - i,
    {
        let (from, to) = map.entry(i);
        assert(map@.take(i + 1).drop_last() =~= map@.take(i as int));
        assert(map@.take(i + 1).last() == map@[i as int]);
        let ghost before = out@;
        match to {
            PlistValue::String(t) => {
                out.push((from.clone(), t.clone()));
                assert(pair_string_views(out@) =~= pair_string_views(before).push((from@, t@)));
            },
            _ => {},
        }
        i = i + 1;
    }
    assert(map@.take(n as int) =~= map@);
    Some(out)
}

/// The paths a `DLMessageRemoveFiles` or `DLMessageRemoveItems` names, if
/// its second item is an array.
pub open spec fn removals_of(v: PlistView) -> Option<Seq<Seq<char>>> {
    let items = dl_items(v);
    if items.len() >= 2 {
        match items[1] {
            PlistView::Array(paths) => Some(strings_of(paths)),
            _ => None,
        }
    } else {
        None
    }
}

/// The paths a remove request names, in order.
pub fn removal_paths(message: &PlistValue) -> (r: Option<Vec<String>>)
    ensures
        match removals_of(message@) {
            Some(p) => r matches Some(v) && string_views(v@) == p,
            None => r is None,
        },
{
    match message {
        PlistValue::Array(items) => {
            assert(message@ == PlistView::Array(crate::plist::view_values(items@)));
            if items.len() >= 2 {
                assert(crate::plist::view_values(items@)[1] == items@[1]@);
                match &items[1] {
                    PlistValue::Array(paths) => Some(strings_in(paths)),
                    _ => None,
                }
            } else {
                None
            }
        },
        _ => None,
    }
}

/// The source and destination a `DLMessageCopyItem` names: its second and
/// third items, when both are strings.
pub open spec fn copy_of(v: PlistView) -> Option<(Seq<char>, Seq<char>)> {
    let items = dl_items(v);
    if items.len() >= 3 {
        match (items[1], items[2]) {
            (PlistView::String(a), PlistView::String(b)) => Some((a, b)),
            _ => None,
        }
    } else {
        None
    }
}

/// The source and destination of a copy request.
pub fn copy_paths(message: &PlistValue) -> (r: Option<(String, String)>)
    ensures
        match copy_of(message@) {
            Some((a, b)) => r matches Some((x, y)) && x@ == a && y@ == b,
            None => r is None,
        },
{
    match message {
        PlistValue::Array(items) => {
            assert(message@ == PlistView::Array(crate::plist::view_values(items@)));
            if items.len() >= 3 {
                assert(crate::plist::view_values(items@)[1] == items@[1]@);
                assert(crate::plist::view_values(items@)[2] == items@[2]@);
                match (&items[1], &items[2]) {
                    (PlistValue::String(a), PlistValue::String(b)) => Some((a.clone(), b.clone())),
                    _ => None,
                }
            } else {
                None
            }
        },
        _ => None,
    }
}

// ---------------------------------------------------------------------------
// File transfer blocks
// ---------------------------------------------------------------------------

/// The header of a transfer block: the block's length (the code byte and
/// the payload) in big-endian order, then the code.
pub open spec fn block_header(payload_len: u32, code: u8) -> Seq<u8> {
    crate::tcp::packets::be32_bytes((payload_len + 1) as u32) + seq![code]
}

/// A transfer block: header, then payload.
pub fn transfer_block(code: u8, payload: &[u8]) -> (r: Vec<u8>)
    requires
        payload@.len() < u32::MAX,
    ensures
        r@ == block_header(payload@.len() as u32, code) + payload@,
{
    let mut out: Vec<u8> = Vec::new();
    crate::tcp::packets::push_be32(&mut out, (payload.len() + 1) as u32);
    out.push(code);
    crate::bytes::append_bytes(&mut out, payload);
    assert(out@ =~= block_header(payload@.len() as u32, code) + payload@);
    out
}

/// The block that reports a file could not be read: the error's text with
/// the local-error code.
pub fn error_block(description: &str) -> (r: Vec<u8>)
    requires
        crate::text::utf8_bytes(description@).len() < u32::MAX,
    ensures
        r@ == block_header(crate::text::utf8_bytes(description@).len() as u32, DL_CODE_ERROR_LOCAL)
            + crate::text::utf8_bytes(description@),
{
    let text = crate::text::utf8_encode(description);
    transfer_block(DL_CODE_ERROR_LOCAL, text.as_slice())
}

/// The block that ends a file: success, with no payload.
pub fn success_block() -> (r: Vec<u8>)
    ensures
        r@ == seq![0u8, 0, 0, 1, DL_CODE_SUCCESS],
{
    let empty: Vec<u8> = Vec::new();
    let r = transfer_block(DL_CODE_SUCCESS, empty.as_slice());
    assert(r@ =~= seq![0u8, 0, 0, 1, DL_CODE_SUCCESS]);
    r
}

/// What announces a file being sent: its path's length (in bytes, as a
/// 32-bit number, wrapping) and the path.
pub fn file_name_header(relative_path: &str) -> (r: Vec<u8>)
    ensures
        r@ == crate::tcp::packets::be32_bytes(
            (crate::text::utf8_bytes(relative_path@).len() % 0x1_0000_0000) as u32,
        ) + crate::text::utf8_bytes(relative_path@),
{
    let bytes = crate::text::utf8_encode(relative_path);
    let mut out: Vec<u8> = Vec::new();
    let wide: u64 = bytes.len() as u64;
    crate::tcp::packets::push_be32(&mut out, (wide % 0x1_0000_0000) as u32);
    crate::bytes::append_bytes(&mut out, bytes.as_slice());
    out
}

/// What ends the files of a download: a zero length.
pub fn end_of_files() -> (r: Vec<u8>)
    ensures
        r@ == seq![0u8, 0, 0, 0],
{
    let mut out: Vec<u8> = Vec::new();
    crate::tcp::packets::push_be32(&mut out, 0);
    assert(out@ =~= seq![0u8, 0, 0, 0]);
    out
}

/// The status a download ends with: 0 when every file was sent, else -13
/// and "Multi status"; both with an empty dictionary.
pub fn download_status(any_failed: bool) -> (r: PlistValue)
    ensures
        r@ == PlistView::Array(
            seq![
                s("DLMessageStatusResponse"@),
                PlistView::Integer(if any_failed { -13 } else { 0 }),
                s(if any_failed { "Multi status"@ } else { EMPTY_PARAMETER@ }),
                PlistView::Dictionary(Seq::empty()),
            ],
        ),
{
    let empty = PlistDict::new();
    let r = if any_failed {
        status_response(-13, Some("Multi status"), Some(PlistValue::Dictionary(empty)))
    } else {
        status_response(0, None, Some(PlistValue::Dictionary(empty)))
    };
    assert(seq![
        s("DLMessageStatusResponse"@),
        PlistView::Integer(if any_failed { -13 } else { 0 }),
        s(if any_failed { "Multi status"@ } else { EMPTY_PARAMETER@ }),
        PlistView::Dictionary(Seq::empty()),
    ] =~= dl_items(r@));
    r
}

} // verus!

verus! {

// ---------------------------------------------------------------------------
// Directory listings
// ---------------------------------------------------------------------------

/// The most nanoseconds a std `Duration` holds.
pub open spec fn max_duration_nanos() -> nat {
    18_446_744_073_709_551_615 * 1_000_000_000 + 999_999_999
}

/// std's `SystemTime::duration_since` from the Unix epoch, in nanoseconds
/// (`Duration::as_nanos`): `None` for a time before the epoch. A
/// `SystemTime` is opaque here, so the value is tied to nothing; that a
/// `Duration` holds at most `u64::MAX` seconds and a second's nanoseconds
/// bounds it.
#[verifier::external_body]
fn nanos_after_epoch(t: &std::time::SystemTime) -> (r: Option<u128>)
    ensures
        r matches Some(n) ==> n <= max_duration_nanos(),
{
    match t.duration_since(std::time::UNIX_EPOCH) {
        Ok(d) => Some(d.as_nanos()),
        Err(_) => None,
    }
}

/// std's `SystemTime::duration_since` of the Unix epoch from a time, in
/// nanoseconds: `None` for a time after the epoch. As above, only the
/// bound of a `Duration` is stated.
#[verifier::external_body]
fn nanos_before_epoch(t: &std::time::SystemTime) -> (r: Option<u128>)
    ensures
        r matches Some(n) ==> n <= max_duration_nanos(),
{
    match std::time::UNIX_EPOCH.duration_since(*t) {
        Ok(d) => Some(d.as_nanos()),
        Err(_) => None,
    }
}

/// The plist date of a time given as its nanoseconds after the Unix epoch
/// or, failing that, before it: negative before it, zero with neither.
pub open spec fn date_from_nanos(after: Option<u128>, before: Option<u128>) -> int {
    match after {
        Some(n) => n as int,
        None => match before {
            Some(n) => -(n as int),
            None => 0,
        },
    }
}

/// The plist date of a time, from its distance to the Unix epoch as std
/// measures it (after it, else before it).
pub fn listing_date(after: Option<u128>, before: Option<u128>) -> (r: i128)
    requires
        after matches Some(n) ==> n <= max_duration_nanos(),
        before matches Some(n) ==> n <= max_duration_nanos(),
    ensures
        r == date_from_nanos(after, before),
{
    match after {
        Some(n) => n as i128,
        None => match before {
            Some(n) => -(n as i128),
            None => 0,
        },
    }
}

/// A modification time as a plist date: nanoseconds from the Unix epoch,
/// negative before it; as a std `Duration` either way, it lies within a
/// `Duration`'s reach of the epoch.
fn modification_date(t: &std::time::SystemTime) -> (r: i128)
    ensures
        -(max_duration_nanos() as int) <= r <= max_duration_nanos(),
{
    listing_date(nanos_after_epoch(t), nanos_before_epoch(t))
}

/// The DeviceLink file type of an entry.
pub open spec fn dl_file_type(e: crate::backup::messages::DirEntryInfo) -> Seq<char> {
    if e.is_dir {
        "DLFileTypeDirectory"@
    } else if e.is_file {
        "DLFileTypeRegular"@
    } else {
        "DLFileTypeUnknown"@
    }
}

/// The fields a listing gives an entry: its type and size, and its
/// modification date (here `date`) when it has one.
pub open spec fn listing_fields(e: crate::backup::messages::DirEntryInfo, date: int) -> Seq<(Seq<char>, PlistView)> {
    seq![
        string_entry("DLFileType"@, dl_file_type(e)),
        ("DLFileSize"@, PlistView::Integer(e.size as int)),
    ] + if e.modified is Some {
        seq![("DLFileModificationDate"@, PlistView::Date(date))]
    } else {
        Seq::empty()
    }
}

/// The entries of a listing, with the given modification dates.
pub open spec fn listing_entries(
    entries: Seq<crate::backup::messages::DirEntryInfo>,
    dates: Seq<int>,
) -> Seq<(Seq<char>, PlistView)> {
    Seq::new(
        entries.len(),
        |i: int| (entries[i].name@, PlistView::Dictionary(dict_from(listing_fields(entries[i], dates[i])))),
    )
}

/// The views of dates.
pub open spec fn date_views(dates: Seq<i128>) -> Seq<int> {
    dates.map_values(|d: i128| d as int)
}

/// The answer to `DLContentsOfDirectory` with the entries' modification
/// dates given: a dictionary of the entries by name, each with its type,
/// size and, when it has a modification time, `DLFileModificationDate`
/// set to its date.
pub fn directory_listing_with_dates(
    entries: &Vec<crate::backup::messages::DirEntryInfo>,
    dates: &Vec<i128>,
) -> (r: PlistValue)
    requires
        dates@.len() == entries@.len(),
    ensures
        r@ == PlistView::Dictionary(dict_from(listing_entries(entries@, date_views(dates@)))),
{
    let ghost dv = date_views(dates@);
    let mut out = PlistDict::new();
    let n = entries.len();
    let mut i: usize = 0;
    while i < n
        invariant
            n == entries@.len(),
            n == dates@.len(),
            dv == date_views(dates@),
            i <= n,
            out@ == dict_from(listing_entries(entries@.take(i as int), dv.take(i as int))),
        decreases n - i,
    {
        let e = &entries[i];
        let mut pairs: Vec<(&str, PlistValue)> = Vec::new();
        let kind = if e.is_dir {
            "DLFileTypeDirectory"
        } else if e.is_file {
            "DLFileTypeRegular"
        } else {
            "DLFileTypeUnknown"
        };
        crate::lockdown::push_pair(&mut pairs, "DLFileType", PlistValue::String(String::from_str(kind)));
        crate::lockdown::push_pair(&mut pairs, "DLFileSize", PlistValue::Integer(e.size as i128));
        let ghost date: int = dv[i as int];
        match &e.modified {
            Some(_) => {
                crate::lockdown::push_pair(&mut pairs, "DLFileModificationDate", PlistValue::Date(dates[i]));
            },
            None => {},
        }
        assert(crate::restore::options::pair_views(pairs@) =~= listing_fields(*e, date));
        let fields = crate::restore::options::dict_from_pairs(pairs);
        let ghost fv = fields@;
        out.insert(e.name.clone(), PlistValue::Dictionary(fields));
        proof {
            let next = listing_entries(entries@.take(i + 1), dv.take(i + 1));
            assert(next.drop_last() =~= listing_entries(entries@.take(i as int), dv.take(i as int)));
            assert(next.last() == (e.name@, PlistView::Dictionary(fv)));
        }
        i = i + 1;
    }
    assert(entries@.take(n as int) =~= entries@);
    assert(dv.take(n as int) =~= dv);
    PlistValue::Dictionary(out)
}

/// The modification dates of entries, in order (zero for an entry without
/// one), each within a `Duration`'s reach of the Unix epoch.
fn entry_dates(entries: &Vec<crate::backup::messages::DirEntryInfo>) -> (r: Vec<i128>)
    ensures
        r@.len() == entries@.len(),
        forall|i: int| 0 <= i < r@.len() ==> -(max_duration_nanos() as int) <= #[trigger] r@[i] <= max_duration_nanos(),
{
    let mut out: Vec<i128> = Vec::new();
    let n = entries.len();
    let mut i: usize = 0;
    while i < n
        invariant
            n == entries@.len(),
            i <= n,
            out@.len() == i,
            forall|k: int| 0 <= k < out@.len() ==> -(max_duration_nanos() as int) <= #[trigger] out@[k] <= max_duration_nanos(),
        decreases n - i,
    {
        let d = match &entries[i].modified {
            Some(t) => modification_date(t),
            None => 0,
        };
        out.push(d);
        i = i + 1;
    }
    out
}

/// The answer to `DLContentsOfDirectory`: the listing with each entry's
/// modification date read from its std time (see
/// [`directory_listing_with_dates`]). What a std time measures from the
/// epoch is not stated, only that each date lies within a `Duration`'s
/// reach of it.
pub fn directory_listing(entries: &Vec<crate::backup::messages::DirEntryInfo>) -> (r: PlistValue)
    ensures
        exists|dates: Seq<int>|
            dates.len() == entries@.len() && (forall|i: int| 0 <= i < dates.len() ==> -(max_duration_nanos() as int) <= #[trigger] dates[i] <= max_duration_nanos())
                && r@ == PlistView::Dictionary(#[trigger] dict_from(listing_entries(entries@, dates))),
{
    let dates = entry_dates(entries);
    let r = directory_listing_with_dates(entries, &dates);
    let ghost dv = date_views(dates@);
    assert(forall|i: int| 0 <= i < dv.len() ==> -(max_duration_nanos() as int) <= #[trigger] dv[i] <= max_duration_nanos()) by {
        assert forall|i: int| 0 <= i < dv.len() implies -(max_duration_nanos() as int) <= #[trigger] dv[i] <= max_duration_nanos() by {
            assert(dv[i] == dates@[i] as int);
        }
    }
    r
}

} // verus!
