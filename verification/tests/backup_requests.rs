use idevice::backup::messages::DirEntryInfo;
use idevice::backup::requests::{
    backup_list, backup_source, change_password_options, check_error_code, copy_paths,
    device_link_message, device_link_reply, directory_listing, directory_listing_with_dates,
    disconnect_message, listing_date,
    download_status, end_of_files, erase_device_options, error_block, expect_dl_tag,
    extract_request_options, file_name_header, hello_options, info_request_options,
    list_request_options, move_pairs, negotiated_version, path_argument, removal_paths,
    request_options, requested_files, restore_options_with_defaults, status_response,
    success_block, transfer_block, unback_options, upload_total_bytes, versions_ok_message,
    RestoreOptions, DL_CODE_ERROR_LOCAL, DL_CODE_FILE_DATA, EMPTY_PARAMETER,
};
use idevice::backup::upload::{upload_read_size, upload_step, UploadEvent, UploadStep};
use idevice::error::IdeviceError;
use idevice::plist::{PlistDict, PlistValue};

fn dict(pairs: Vec<(&str, PlistValue)>) -> PlistDict {
    let mut d = PlistDict::new();
    for (k, v) in pairs {
        d.insert(k.to_string(), v);
    }
    d
}

fn s(x: &str) -> PlistValue {
    PlistValue::String(x.to_string())
}

fn keys(d: &PlistDict) -> Vec<String> {
    (0..d.len()).map(|i| d.entry(i).0.clone()).collect()
}

fn array(items: Vec<PlistValue>) -> PlistValue {
    PlistValue::Array(items)
}

#[test]
fn device_link_envelopes() {
    match versions_ok_message() {
        PlistValue::Array(items) => {
            assert_eq!(items.len(), 3);
            assert!(matches!(&items[1], PlistValue::String(x) if x == "DLVersionsOk"));
            assert!(matches!(&items[2], PlistValue::Integer(400)));
        }
        other => panic!("unexpected {other:?}"),
    }
    match disconnect_message() {
        PlistValue::Array(items) => assert!(matches!(&items[1], PlistValue::String(x) if x == EMPTY_PARAMETER)),
        other => panic!("unexpected {other:?}"),
    }
    assert!(expect_dl_tag("DLMessageDeviceReady", "DLMessageDeviceReady").is_ok());
    assert!(matches!(expect_dl_tag("X", "DLMessageDeviceReady"), Err(IdeviceError::UnexpectedResponse)));

    let msg = device_link_message("Hello", Some(hello_options()));
    let reply = device_link_reply(&msg, "Hello").unwrap();
    assert_eq!(keys(&reply), vec!["MessageName", "SupportedProtocolVersions"]);
    match reply.get("SupportedProtocolVersions") {
        Some(PlistValue::Array(v)) => {
            assert!(matches!(&v[0], PlistValue::Real(b) if f64::from_bits(*b) == 2.0));
            assert!(matches!(&v[1], PlistValue::Real(b) if f64::from_bits(*b) == 2.1));
        }
        other => panic!("unexpected {other:?}"),
    }
    assert!(device_link_reply(&msg, "").is_ok());
    assert!(matches!(device_link_reply(&msg, "Response"), Err(IdeviceError::UnexpectedResponse)));
    assert!(device_link_reply(&array(vec![s("DLMessageProcessMessage")]), "").is_err());
    assert!(device_link_reply(&array(vec![s("Other"), PlistValue::Dictionary(PlistDict::new())]), "").is_err());
    let plain = device_link_message("Info", None);
    assert_eq!(keys(&device_link_reply(&plain, "Info").unwrap()), vec!["MessageName"]);
}

#[test]
fn version_negotiation() {
    let ok = dict(vec![("ErrorCode", PlistValue::Integer(0)), ("ProtocolVersion", PlistValue::Real(2.1f64.to_bits()))]);
    assert_eq!(negotiated_version(&ok).unwrap(), 2.1f64.to_bits());
    let failed = dict(vec![("ErrorCode", PlistValue::Integer(5)), ("ProtocolVersion", PlistValue::Real(1))]);
    assert!(negotiated_version(&failed).is_err());
    assert!(negotiated_version(&PlistDict::new()).is_err());
}

#[test]
fn requests_and_statuses() {
    let r = request_options(Some("T"), None, Some(dict(vec![("A", PlistValue::Boolean(true))])));
    assert_eq!(keys(&r), vec!["TargetIdentifier", "Options"]);
    assert!(keys(&request_options(None, None, None)).is_empty());
    match status_response(-1, Some("Operation not supported"), None) {
        PlistValue::Array(items) => {
            assert!(matches!(&items[1], PlistValue::Integer(-1)));
            assert!(matches!(&items[2], PlistValue::String(x) if x == "Operation not supported"));
            assert!(matches!(&items[3], PlistValue::String(x) if x == EMPTY_PARAMETER));
        }
        other => panic!("unexpected {other:?}"),
    }
    match download_status(true) {
        PlistValue::Array(items) => {
            assert!(matches!(&items[1], PlistValue::Integer(-13)));
            assert!(matches!(&items[2], PlistValue::String(x) if x == "Multi status"));
        }
        other => panic!("unexpected {other:?}"),
    }
    assert!(check_error_code(&PlistDict::new()).is_ok());
    assert!(check_error_code(&dict(vec![("ErrorCode", PlistValue::Integer(0))])).is_err());
}

#[test]
fn listing_backups() {
    let reply = dict(vec![(
        "BackupList",
        array(vec![
            PlistValue::Dictionary(dict(vec![
                ("BackupUUID", s("U1")),
                ("DeviceName", s("Phone")),
                ("LastBackupDate", s("2024-01-01")),
                ("IsEncrypted", PlistValue::Boolean(true)),
            ])),
            s("not a backup"),
            PlistValue::Dictionary(PlistDict::new()),
        ]),
    )]);
    let list = backup_list(&reply).unwrap();
    assert_eq!(list.len(), 2);
    assert_eq!(list[0].uuid, "U1");
    assert_eq!(list[0].device_name, "Phone");
    assert_eq!(list[0].last_backup_date.as_deref(), Some("2024-01-01"));
    assert_eq!(list[0].version, "Unknown");
    assert!(list[0].is_encrypted);
    assert_eq!(list[1].uuid, "");
    assert!(!list[1].is_encrypted);
    assert!(backup_list(&PlistDict::new()).unwrap().is_empty());
    assert!(backup_list(&dict(vec![("ErrorCode", PlistValue::Integer(1))])).is_err());
}

#[test]
fn restore_option_defaults_and_builder() {
    let d = restore_options_with_defaults(Some(dict(vec![("RestoreSystemFiles", PlistValue::Boolean(true))])));
    assert_eq!(
        keys(&d),
        vec!["RestoreSystemFiles", "RestoreShouldReboot", "RestoreDontCopyBackup", "RestorePreserveSettings", "RemoveItemsNotRestored"]
    );
    assert!(matches!(d.get("RestoreSystemFiles"), Some(PlistValue::Boolean(true))));
    assert!(matches!(d.get("RestoreDontCopyBackup"), Some(PlistValue::Boolean(false))));

    let o = RestoreOptions::new();
    assert!(o.reboot && o.copy && o.preserve_settings && !o.system_files && !o.remove_items_not_restored);
    let o = o.with_copy(false).with_reboot(false).with_password("pw").with_system_files(true).with_remove_items_not_restored(true).with_preserve_settings(false);
    let p = o.to_plist();
    assert_eq!(keys(&p).len(), 6);
    assert!(matches!(p.get("RestoreDontCopyBackup"), Some(PlistValue::Boolean(true))));
    assert!(matches!(p.get("RestoreShouldReboot"), Some(PlistValue::Boolean(false))));
    assert!(matches!(p.get("Password"), Some(PlistValue::String(x)) if x == "pw"));
    assert_eq!(keys(&RestoreOptions::default().to_plist()).len(), 5);
}

#[test]
fn request_option_builders() {
    assert_eq!(backup_source(Some("S"), Some("U")).unwrap(), "S");
    assert_eq!(backup_source(None, Some("U")).unwrap(), "U");
    assert!(matches!(backup_source(None, None), Err(IdeviceError::InvalidHostID)));
    assert_eq!(keys(&info_request_options("T", None)), vec!["TargetIdentifier"]);
    assert_eq!(keys(&info_request_options("T", Some("S"))), vec!["TargetIdentifier", "SourceIdentifier"]);
    assert_eq!(keys(&list_request_options("T", "S")), vec!["MessageName", "TargetIdentifier", "SourceIdentifier"]);
    assert_eq!(
        keys(&extract_request_options("T", "HomeDomain", "Library/x", "S", Some("pw"))),
        vec!["MessageName", "TargetIdentifier", "DomainName", "RelativePath", "SourceIdentifier", "Password"]
    );
    assert_eq!(keys(&change_password_options("T", None, Some("n"))), vec!["MessageName", "TargetIdentifier", "NewPassword"]);
    assert_eq!(keys(&erase_device_options("T")), vec!["MessageName", "TargetIdentifier"]);
    assert!(unback_options(None).is_none());
    assert_eq!(keys(&unback_options(Some("pw")).unwrap()), vec!["Password"]);
}

#[test]
fn request_arguments() {
    let download = array(vec![s("DLMessageDownloadFiles"), array(vec![s("a"), PlistValue::Integer(1), s("b")]), PlistValue::Dictionary(PlistDict::new()), PlistValue::Real(0)]);
    assert_eq!(requested_files(&download), vec!["a".to_string(), "b".to_string()]);
    assert!(requested_files(&s("x")).is_empty());
    let upload = array(vec![s("DLMessageUploadFiles"), PlistValue::Dictionary(PlistDict::new()), PlistValue::Real(0), PlistValue::Integer(1234)]);
    assert_eq!(upload_total_bytes(&upload), 1234);
    assert_eq!(upload_total_bytes(&download), 0);
    let mkdir = array(vec![s("DLMessageCreateDirectory"), s("Snapshot")]);
    assert_eq!(path_argument(&mkdir).as_deref(), Some("Snapshot"));
    assert_eq!(path_argument(&array(vec![s("DLMessageCreateDirectory")])), None);
    let moves = array(vec![s("DLMessageMoveItems"), PlistValue::Dictionary(dict(vec![("a", s("b")), ("c", PlistValue::Integer(1))]))]);
    assert_eq!(move_pairs(&moves).unwrap(), vec![("a".to_string(), "b".to_string())]);
    assert!(move_pairs(&mkdir).is_none());
    let removes = array(vec![s("DLMessageRemoveItems"), array(vec![s("x")])]);
    assert_eq!(removal_paths(&removes).unwrap(), vec!["x".to_string()]);
    assert!(removal_paths(&mkdir).is_none());
    let copy = array(vec![s("DLMessageCopyItem"), s("from"), s("to")]);
    assert_eq!(copy_paths(&copy).unwrap(), ("from".to_string(), "to".to_string()));
    assert!(copy_paths(&mkdir).is_none());
}

#[test]
fn transfer_blocks() {
    assert_eq!(transfer_block(DL_CODE_FILE_DATA, &[7, 8]), vec![0, 0, 0, 3, 0x0c, 7, 8]);
    assert_eq!(error_block("no"), vec![0, 0, 0, 3, DL_CODE_ERROR_LOCAL, b'n', b'o']);
    assert_eq!(success_block(), vec![0, 0, 0, 1, 0]);
    assert_eq!(file_name_header("a/é"), vec![0, 0, 0, 4, b'a', b'/', 0xC3, 0xA9]);
    assert_eq!(end_of_files(), vec![0, 0, 0, 0]);
}

#[test]
fn directory_listings() {
    let entries = vec![
        DirEntryInfo { name: "d".to_string(), is_dir: true, is_file: false, size: 0, modified: None },
        DirEntryInfo {
            name: "f".to_string(),
            is_dir: false,
            is_file: true,
            size: 10,
            modified: Some(std::time::UNIX_EPOCH + std::time::Duration::from_secs(2)),
        },
    ];
    match directory_listing(&entries) {
        PlistValue::Dictionary(d) => {
            assert_eq!(keys(&d), vec!["d", "f"]);
            match d.get("f") {
                Some(PlistValue::Dictionary(f)) => {
                    assert!(matches!(f.get("DLFileType"), Some(PlistValue::String(t)) if t == "DLFileTypeRegular"));
                    assert!(matches!(f.get("DLFileSize"), Some(PlistValue::Integer(10))));
                    assert!(matches!(f.get("DLFileModificationDate"), Some(PlistValue::Date(2_000_000_000))));
                }
                other => panic!("unexpected {other:?}"),
            }
            match d.get("d") {
                Some(PlistValue::Dictionary(x)) => assert_eq!(keys(x), vec!["DLFileType", "DLFileSize"]),
                other => panic!("unexpected {other:?}"),
            }
        }
        other => panic!("unexpected {other:?}"),
    }
}

fn feed(step: UploadStep, bytes: &[u8]) -> (UploadStep, Vec<UploadEvent>) {
    assert_eq!(upload_read_size(step), bytes.len());
    upload_step(step, bytes)
}

#[test]
fn upload_stream() {
    let mut step = UploadStep::DirNameLength;
    let mut data = Vec::new();
    let mut opened = 0;
    let mut done = 0;
    let mut names = Vec::new();
    let script: Vec<Vec<u8>> = vec![
        vec![0, 0, 0, 1], vec![b'd'],
        vec![0, 0, 0, 2], vec![b'f', b'1'],
        vec![0, 0, 0, 3], vec![0x0c], vec![1, 2],
        vec![0, 0, 0, 2], vec![0x0c], vec![3],
        vec![0, 0, 0, 1], vec![0x00],
        vec![0, 0, 0, 1], vec![b'd'],
        vec![0, 0, 0, 1], vec![b'g'],
        vec![0, 0, 0, 3], vec![0x06], vec![b'e', b'r'],
        vec![0, 0, 0, 0],
    ];
    let mut finished = false;
    for bytes in script {
        let (next, events) = feed(step, &bytes);
        for e in events {
            match e {
                UploadEvent::FileNamed(n) => names.push(n),
                UploadEvent::FileOpened => opened += 1,
                UploadEvent::Data(d) => data.extend(d),
                UploadEvent::FileDone => done += 1,
                UploadEvent::Finished => finished = true,
            }
        }
        step = next;
    }
    assert!(finished);
    assert_eq!(step, UploadStep::Done);
    assert_eq!(names, vec![b"f1".to_vec(), b"g".to_vec()]);
    assert_eq!(opened, 2);
    assert_eq!(done, 2);
    assert_eq!(data, vec![1, 2, 3]);
}

#[test]
fn upload_skips_empty_first_block() {
    let (step, _) = feed(UploadStep::FirstBlockLength, &[0, 0, 0, 0]);
    assert_eq!(step, UploadStep::DirNameLength);
    let (step, events) = feed(UploadStep::FileNameLength, &[0, 0, 0, 0]);
    assert_eq!(step, UploadStep::Done);
    assert!(matches!(events[0], UploadEvent::Finished));
}

#[test]
fn listing_dates_count_from_the_epoch() {
    assert_eq!(listing_date(Some(5), None), 5);
    assert_eq!(listing_date(Some(0), Some(0)), 0);
    assert_eq!(listing_date(None, Some(7)), -7);
    assert_eq!(listing_date(None, None), 0);
}

#[test]
fn directory_listing_uses_the_given_dates() {
    let entries = vec![
        DirEntryInfo { name: "x".to_string(), is_dir: false, is_file: false, size: 3, modified: None },
        DirEntryInfo {
            name: "y".to_string(),
            is_dir: false,
            is_file: true,
            size: 4,
            modified: Some(std::time::UNIX_EPOCH),
        },
    ];
    match directory_listing_with_dates(&entries, &vec![99, -42]) {
        PlistValue::Dictionary(d) => {
            assert_eq!(keys(&d), vec!["x", "y"]);
            match d.get("x") {
                Some(PlistValue::Dictionary(x)) => {
                    assert_eq!(keys(x), vec!["DLFileType", "DLFileSize"]);
                    assert!(matches!(x.get("DLFileType"), Some(PlistValue::String(t)) if t == "DLFileTypeUnknown"));
                }
                other => panic!("unexpected {other:?}"),
            }
            match d.get("y") {
                Some(PlistValue::Dictionary(y)) => {
                    assert!(matches!(y.get("DLFileModificationDate"), Some(PlistValue::Date(-42))));
                    assert!(matches!(y.get("DLFileSize"), Some(PlistValue::Integer(4))));
                }
                other => panic!("unexpected {other:?}"),
            }
        }
        other => panic!("unexpected {other:?}"),
    }
}
