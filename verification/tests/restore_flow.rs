use idevice::error::IdeviceError;
use idevice::plist::{PlistDict, PlistValue};
use idevice::restore::data_request::{
    dispatch, firmware_components, is_truthy, streamed_key_request, url_asset_request, DataRequest,
};
use idevice::restore::errors::RestoreError;
use idevice::restore::fw_updater::{
    baseband_parameters, bbfw_filename_for_element, device_generated_request,
    stitch_baseband_files, tss_reply_dictionary,
};
use idevice::restore::img4::build_preboard_manifest;
use idevice::restore::ipsw::{component_path, components_loaded_by_iboot};
use idevice::restore::options::RestoreOptions;
use idevice::restore::progress::RestoreProgressEvent;
use idevice::restore::state_machine::{
    collect_error_descriptions, handle_bb_update_status, handle_status, progress_event,
    restore_message_kind, RestoreMessageKind, StatusOutcome,
};
use idevice::tss::TSSRequest;

fn dict(pairs: Vec<(&str, PlistValue)>) -> PlistDict {
    let mut d = PlistDict::new();
    for (k, v) in pairs {
        d.insert(k.to_string(), v);
    }
    d
}

fn s(x: &str) -> PlistValue {
    PlistValue::String(x.to_string())
}

fn keys(d: &PlistDict) -> Vec<String> {
    (0..d.len()).map(|i| d.entry(i).0.clone()).collect()
}

#[test]
fn baseband_element_file_names() {
    assert_eq!(bbfw_filename_for_element("PSI", None), Some("psi_ram.bin"));
    assert_eq!(bbfw_filename_for_element("RamPSI", Some(1)), Some("psi_ram.fls"));
    assert_eq!(bbfw_filename_for_element("SBL1", Some(0x1F30E1)), Some("xbl_sc.elf"));
    assert_eq!(bbfw_filename_for_element("PSI", Some(0x1F30E1)), None);
    assert_eq!(bbfw_filename_for_element("Nope", None), None);
}

fn files() -> Vec<(String, Vec<u8>)> {
    vec![
        ("psi_ram.bin".to_string(), vec![0, 0, 0, 0, 0, 0]),
        ("readme.txt".to_string(), vec![1]),
        ("fw/sbl1.mbn".to_string(), vec![9, 9]),
        (".bin".to_string(), vec![3]),
    ]
}

#[test]
fn baseband_blobs_are_stitched_and_ticket_added() {
    let bbtss = dict(vec![
        (
            "BasebandFirmware",
            PlistValue::Dictionary(dict(vec![
                ("PSI-Blob", PlistValue::Data(vec![7, 8])),
                ("PSI-PartialDigest", PlistValue::Data(vec![1])),
            ])),
        ),
        ("BBTicket", PlistValue::Data(vec![0xAA])),
    ]);
    let out = stitch_baseband_files(&files(), &bbtss, None).unwrap();
    assert_eq!(
        out,
        vec![
            ("psi_ram.bin".to_string(), vec![0, 0, 0, 0, 7, 8]),
            ("fw/sbl1.mbn".to_string(), vec![9, 9]),
            ("bbticket.der".to_string(), vec![0xAA]),
        ]
    );
}

#[test]
fn baseband_stitch_errors() {
    let no_fw = PlistDict::new();
    match stitch_baseband_files(&files(), &no_fw, None) {
        Err(IdeviceError::Restore(RestoreError::Baseband(m))) => assert_eq!(m, "BBTicket missing BasebandFirmware"),
        other => panic!("unexpected {other:?}"),
    }
    let unknown = dict(vec![("BasebandFirmware", PlistValue::Dictionary(dict(vec![("Foo-Blob", PlistValue::Data(vec![1]))])))]);
    match stitch_baseband_files(&files(), &unknown, None) {
        Err(IdeviceError::Restore(RestoreError::Baseband(m))) => assert_eq!(m, "no baseband file mapping for element `Foo`"),
        other => panic!("unexpected {other:?}"),
    }
    let fls = dict(vec![("BasebandFirmware", PlistValue::Dictionary(dict(vec![("RamPSI-Blob", PlistValue::Data(vec![1]))])))]);
    match stitch_baseband_files(&files(), &fls, None) {
        Err(IdeviceError::Restore(RestoreError::Unsupported(m))) => assert_eq!(m, "baseband stitching for `psi_ram.fls` (Mav25/fls)"),
        other => panic!("unexpected {other:?}"),
    }
    let missing = dict(vec![("BasebandFirmware", PlistValue::Dictionary(dict(vec![("DBL-Blob", PlistValue::Data(vec![1]))])))]);
    match stitch_baseband_files(&files(), &missing, None) {
        Err(IdeviceError::Restore(RestoreError::Baseband(m))) => assert_eq!(m, "baseband file `dbl.mbn` missing"),
        other => panic!("unexpected {other:?}"),
    }
    let too_big = dict(vec![("BasebandFirmware", PlistValue::Dictionary(dict(vec![("PSI-Blob", PlistValue::Data(vec![1; 10]))])))]);
    assert!(matches!(stitch_baseband_files(&files(), &too_big, None), Err(IdeviceError::Restore(RestoreError::Baseband(_)))));
}

#[test]
fn baseband_parameters_from_message() {
    let message = dict(vec![(
        "Arguments",
        PlistValue::Dictionary(dict(vec![
            ("ChipID", PlistValue::Integer(0x68)),
            ("Nonce", PlistValue::Data(vec![1])),
            ("CertID", PlistValue::Integer(5)),
        ])),
    )]);
    let identity = dict(vec![("BbSkeyId", PlistValue::Data(vec![2])), ("Manifest", PlistValue::Dictionary(PlistDict::new()))]);
    let (params, chip) = baseband_parameters(&message, 42, &identity);
    assert_eq!(chip, Some(0x68));
    assert_eq!(keys(&params), vec!["ApECID", "BbNonce", "BbChipID", "BbGoldCertId", "Manifest", "BbSkeyId"]);
}

#[test]
fn device_generated_request_takes_manifest_digests() {
    let args = dict(vec![
        (
            "DeviceGeneratedRequest",
            PlistValue::Dictionary(dict(vec![
                ("Rap,RTKitOS", PlistValue::Dictionary(dict(vec![("Digest", PlistValue::Data(vec![0]))]))),
                ("Rap,Nonce", PlistValue::Data(vec![3])),
                ("RequiresUIDMode", PlistValue::Boolean(true)),
            ])),
        ),
        ("MessageArgInfo", PlistValue::Dictionary(dict(vec![("ApProductionMode", PlistValue::Boolean(false))]))),
        (
            "DeviceGeneratedTags",
            PlistValue::Dictionary(dict(vec![("BuildIdentityTags", PlistValue::Array(vec![s("Rap,BoardID"), PlistValue::Integer(1)]))])),
        ),
    ]);
    let identity = dict(vec![
        ("ApBoardID", s("0x0C")),
        ("Rap,BoardID", s("0x10")),
        (
            "Manifest",
            PlistValue::Dictionary(dict(vec![("Rap,RTKitOS", PlistValue::Dictionary(dict(vec![("Digest", PlistValue::Data(vec![9, 9]))])))])),
        ),
    ]);
    let req = device_generated_request(TSSRequest::with_uuid("U".to_string()), &args, 12, 0x8101, 5, &identity).unwrap();
    let d = req.dictionary();
    assert_eq!(d.get("Rap,BoardID").and_then(|v| v.as_unsigned_integer()), Some(16));
    assert_eq!(d.get("ApProductionMode").and_then(|v| v.as_boolean()), Some(false));
    assert_eq!(d.get("@BBTicket").and_then(|v| v.as_boolean()), Some(true));
    let node = d.get("Rap,RTKitOS").and_then(|v| v.as_dictionary()).unwrap();
    assert_eq!(node.get("Digest").and_then(|v| v.as_data()), Some(&vec![9, 9]));
    assert!(d.get("RequiresUIDMode").is_none());
    match device_generated_request(TSSRequest::with_uuid("U".to_string()), &PlistDict::new(), 1, 2, 3, &identity) {
        Err(IdeviceError::Restore(RestoreError::MissingField(m))) => assert_eq!(m, "DeviceGeneratedRequest"),
        other => panic!("unexpected {:?}", other.is_ok()),
    }
}

#[test]
fn tss_reply_must_be_a_dictionary() {
    assert!(tss_reply_dictionary(PlistValue::Dictionary(PlistDict::new()), "x").is_ok());
    match tss_reply_dictionary(PlistValue::Boolean(true), "baseband response is not a dictionary") {
        Err(IdeviceError::Restore(RestoreError::TssResponse(m))) => assert_eq!(m, "baseband response is not a dictionary"),
        other => panic!("unexpected {:?}", other.is_ok()),
    }
}

#[test]
fn restore_message_kinds() {
    let k = |t: &str| restore_message_kind(&dict(vec![("MsgType", s(t))]));
    assert_eq!(k("DataRequestMsg"), RestoreMessageKind::DataRequest);
    assert_eq!(k("AsyncDataRequestMsg"), RestoreMessageKind::DataRequest);
    assert_eq!(k("StatusMsg"), RestoreMessageKind::Status);
    assert_eq!(k("RestoredCrash"), RestoreMessageKind::RestoredCrash);
    assert_eq!(k("CheckpointMsg"), RestoreMessageKind::Other);
    assert_eq!(restore_message_kind(&PlistDict::new()), RestoreMessageKind::Other);
}

#[test]
fn progress_events_need_both_numbers() {
    let m = dict(vec![("Operation", PlistValue::Integer(14)), ("Progress", PlistValue::Integer(50))]);
    match progress_event(&m) {
        Some(RestoreProgressEvent::Operation { operation, progress }) => assert_eq!((operation, progress), (14, 50)),
        other => panic!("unexpected {other:?}"),
    }
    assert!(progress_event(&dict(vec![("Operation", PlistValue::Integer(14))])).is_none());
}

#[test]
fn baseband_update_status() {
    assert!(handle_bb_update_status(&dict(vec![("Accepted", PlistValue::Boolean(true))])).is_ok());
    let rejected = dict(vec![
        ("Accepted", PlistValue::Boolean(false)),
        ("Error", PlistValue::Dictionary(dict(vec![("NSDescription", s("bad bb"))]))),
    ]);
    match handle_bb_update_status(&rejected) {
        Err(IdeviceError::Restore(RestoreError::BasebandRejected(m))) => assert_eq!(m, "bad bb"),
        other => panic!("unexpected {other:?}"),
    }
    match handle_bb_update_status(&PlistDict::new()) {
        Err(IdeviceError::Restore(RestoreError::BasebandRejected(m))) => assert_eq!(m, "device did not accept BasebandData"),
        other => panic!("unexpected {other:?}"),
    }
}

#[test]
fn error_descriptions_are_collected_depth_first() {
    let nested = PlistValue::Dictionary(dict(vec![
        ("NSDescription", PlistValue::Dictionary(dict(vec![("Content", s("  outer "))]))),
        (
            "NSUnderlyingError",
            PlistValue::Array(vec![PlistValue::Dictionary(dict(vec![("NSDescription", s("inner"))]))]),
        ),
    ]));
    assert_eq!(collect_error_descriptions(&nested), Some("outer -> inner".to_string()));
    assert_eq!(collect_error_descriptions(&PlistValue::Integer(1)), None);
}

#[test]
fn status_messages() {
    assert_eq!(handle_status(&dict(vec![("Status", PlistValue::Integer(0))])).unwrap(), StatusOutcome::Finished);
    assert_eq!(handle_status(&dict(vec![("Status", PlistValue::Integer(6))])).unwrap(), StatusOutcome::Continue);
    match handle_status(&dict(vec![("Status", PlistValue::Integer(0)), ("AMRError", PlistValue::Integer(3))])) {
        Err(IdeviceError::Restore(RestoreError::DeviceReported { amr_error, detail })) => {
            assert_eq!(amr_error, 3);
            assert_eq!(detail, "no description");
        }
        other => panic!("unexpected {other:?}"),
    }
    let with_error = dict(vec![("Error", PlistValue::Dictionary(dict(vec![("NSDescription", s("boom"))])))]);
    match handle_status(&with_error) {
        Err(IdeviceError::Restore(RestoreError::DeviceReported { amr_error, detail })) => {
            assert_eq!(amr_error, -1);
            assert_eq!(detail, "boom");
        }
        other => panic!("unexpected {other:?}"),
    }
}

#[test]
fn restore_options_dictionary() {
    let mut o = RestoreOptions::new();
    assert_eq!(o.uuid.len(), 36);
    o.uuid = "UUID".to_string();
    o.tz0_required_capacity = Some(7);
    let d = o.build();
    let k = keys(&d);
    assert_eq!(k[0], "AutoBootDelay");
    assert_eq!(k.last().unwrap(), "TZ0RequiredCapacity");
    assert_eq!(d.get("UUID").and_then(|v| v.as_string()), Some("UUID"));
    assert_eq!(d.get("FlashNOR").and_then(|v| v.as_boolean()), Some(true));
    let types = d.get("SupportedDataTypes").and_then(|v| v.as_dictionary()).unwrap();
    assert_eq!(types.len(), 65);
    assert_eq!(types.get("URLAsset").and_then(|v| v.as_boolean()), Some(true));
    let messages = d.get("SupportedMessageTypes").and_then(|v| v.as_dictionary()).unwrap();
    assert_eq!(messages.len(), 17);
    let padding = d.get("SystemPartitionPadding").and_then(|v| v.as_dictionary()).unwrap();
    assert_eq!(padding.get("1024").and_then(|v| v.as_unsigned_integer()), Some(1280));
}

#[test]
fn data_request_dispatch() {
    let (t, r) = dispatch(&dict(vec![("DataType", s("SystemImageRootHash"))])).unwrap();
    assert_eq!(t, "SystemImageRootHash");
    match r {
        DataRequest::Component { component, data_type } => {
            assert_eq!(component, "SystemVolume");
            assert_eq!(data_type, "SystemImageRootHash");
        }
        other => panic!("unexpected {other:?}"),
    }
    let (_, r) = dispatch(&dict(vec![("DataType", s("SourceBootObjectV5"))])).unwrap();
    assert!(matches!(r, DataRequest::BootObject { source: true }));
    let (_, r) = dispatch(&dict(vec![("DataType", s("Whatever"))])).unwrap();
    assert!(matches!(r, DataRequest::Unsupported));
    assert!(dispatch(&PlistDict::new()).is_none());
}

#[test]
fn truthy_flags() {
    assert!(is_truthy(&PlistValue::Boolean(true)));
    assert!(!is_truthy(&PlistValue::Integer(0)));
    assert!(is_truthy(&PlistValue::Integer(-1)));
    assert!(!is_truthy(&s("false")));
    assert!(!is_truthy(&s("")));
    assert!(is_truthy(&s("yes")));
    assert!(is_truthy(&PlistValue::Data(vec![])));
}

fn entry(info: Vec<(&str, PlistValue)>) -> PlistValue {
    PlistValue::Dictionary(dict(vec![("Info", PlistValue::Dictionary(dict(info)))]))
}

#[test]
fn firmware_and_iboot_components() {
    let manifest = dict(vec![
        ("A", entry(vec![("IsFirmwarePayload", PlistValue::Boolean(true)), ("Path", s("a.im4p"))])),
        ("B", entry(vec![("IsSecondaryFirmwarePayload", s("1")), ("IsLoadedByiBoot", PlistValue::Integer(1)), ("Path", s("b.im4p"))])),
        ("C", entry(vec![("IsSecondaryFirmwarePayload", PlistValue::Boolean(true)), ("Path", s("c.im4p"))])),
        ("D", entry(vec![("IsLoadedByiBoot", PlistValue::Boolean(true)), ("IsLoadedByiBootStage1", PlistValue::Boolean(true))])),
        ("E", entry(vec![("IsLoadedByiBoot", PlistValue::Boolean(true))])),
    ]);
    let identity = dict(vec![("Manifest", PlistValue::Dictionary(manifest))]);
    assert_eq!(
        firmware_components(&identity),
        vec![("A".to_string(), "a.im4p".to_string()), ("B".to_string(), "b.im4p".to_string())]
    );
    assert_eq!(components_loaded_by_iboot(&identity), vec!["E".to_string()]);
    assert_eq!(component_path(&identity, "A").unwrap(), "a.im4p");
    match component_path(&identity, "Z") {
        Err(IdeviceError::Restore(RestoreError::ComponentNotFound(c))) => assert_eq!(c, "Z"),
        other => panic!("unexpected {other:?}"),
    }
    assert!(firmware_components(&PlistDict::new()).is_empty());
}

#[test]
fn proxied_requests() {
    let message = dict(vec![(
        "Arguments",
        PlistValue::Dictionary(dict(vec![
            ("RequestURL", s("https://example.invalid/key")),
            ("RequestBody", PlistValue::Data(vec![1, 2])),
            ("RequestAdditionalHeaders", PlistValue::Dictionary(dict(vec![("X-A", s("1")), ("X-B", PlistValue::Integer(2))]))),
        ])),
    )]);
    let q = streamed_key_request(&message).unwrap();
    assert_eq!(q.url, "https://example.invalid/key");
    assert_eq!(q.body, vec![1, 2]);
    assert_eq!(q.headers, vec![("X-A".to_string(), "1".to_string())]);
    assert_eq!(url_asset_request(&message).unwrap(), "https://example.invalid/key");
    match url_asset_request(&PlistDict::new()) {
        Err(IdeviceError::Restore(RestoreError::MissingField(m))) => assert_eq!(m, "Arguments"),
        other => panic!("unexpected {other:?}"),
    }
    let no_url = dict(vec![("Arguments", PlistValue::Dictionary(PlistDict::new()))]);
    match streamed_key_request(&no_url) {
        Err(IdeviceError::Restore(RestoreError::MissingField(m))) => assert_eq!(m, "RequestURL"),
        other => panic!("unexpected {:?}", other.is_ok()),
    }
}

#[test]
fn preboard_manifest_needs_a_manifest() {
    assert!(matches!(build_preboard_manifest(&PlistDict::new(), 1, 2), Err(IdeviceError::BadBuildManifest)));
    let manifest = dict(vec![
        (
            "KernelCache",
            PlistValue::Dictionary(dict(vec![
                ("Digest", PlistValue::Data(vec![1, 2, 3])),
                ("Trusted", PlistValue::Boolean(true)),
                ("Info", PlistValue::Dictionary(dict(vec![("IsFirmwarePayload", PlistValue::Boolean(true))]))),
            ])),
        ),
        ("BasebandFirmware", entry(vec![])),
    ]);
    let identity = dict(vec![("Manifest", PlistValue::Dictionary(manifest))]);
    let m = build_preboard_manifest(&identity, 1, 2).unwrap();
    assert_eq!(m[0], 0x30);
    assert!(m.windows(4).any(|w| w == b"krnl"));
    assert!(m.windows(4).any(|w| w == b"MANB"));
}

#[test]
fn cancel_is_shared_by_clones() {
    let cancel = idevice::restore::cancel::RestoreCancel::new();
    let other = cancel.clone();
    assert!(!cancel.is_cancelled());
    other.cancel();
    assert!(cancel.is_cancelled());
    assert!(other.is_cancelled());
}

fn zip_of(entries: &[(&str, &[u8])]) -> Vec<u8> {
    let mut writer = async_zip::base::write::ZipFileWriter::new(Vec::new());
    for (name, data) in entries {
        let entry = async_zip::ZipEntryBuilder::new(name.to_string().into(), async_zip::Compression::Stored);
        futures::executor::block_on(writer.write_entry_whole(entry, data)).unwrap();
    }
    futures::executor::block_on(writer.close()).unwrap()
}

fn unzip(archive: Vec<u8>) -> Vec<(String, Vec<u8>)> {
    let reader = futures::executor::block_on(async_zip::base::read::mem::ZipFileReader::new(archive)).unwrap();
    let mut out = Vec::new();
    for i in 0..reader.file().entries().len() {
        let name = reader.file().entries()[i].filename().as_str().unwrap().to_string();
        let mut entry = futures::executor::block_on(reader.reader_with_entry(i)).unwrap();
        let mut buf = Vec::new();
        futures::executor::block_on(futures::AsyncReadExt::read_to_end(&mut entry, &mut buf)).unwrap();
        out.push((name, buf));
    }
    out
}

#[test]
fn baseband_archive_is_signed_into_a_new_zip() {
    let input = zip_of(&[("psi_ram.bin", &[1, 2, 3]), ("readme.txt", &[9])]);
    let bbtss = dict(vec![
        ("BasebandFirmware", PlistValue::Dictionary(PlistDict::new())),
        ("BBTicket", PlistValue::Data(vec![7, 7])),
    ]);
    let out = unzip(idevice::restore::fw_updater::sign_bbfw(&input, &bbtss, None).unwrap());
    assert_eq!(
        out,
        vec![("psi_ram.bin".to_string(), vec![1, 2, 3]), ("bbticket.der".to_string(), vec![7, 7])]
    );
    match idevice::restore::fw_updater::sign_bbfw(&[1, 2, 3], &bbtss, None) {
        Err(IdeviceError::Restore(RestoreError::Ipsw(m))) => assert!(m.starts_with("baseband zip: ")),
        other => panic!("unexpected {:?}", other.is_ok()),
    }
    match idevice::restore::fw_updater::sign_bbfw(&input, &PlistDict::new(), None) {
        Err(IdeviceError::Restore(RestoreError::Baseband(m))) => assert_eq!(m, "BBTicket missing BasebandFirmware"),
        other => panic!("unexpected {:?}", other.is_ok()),
    }
}

#[test]
fn malformed_baseband_archives_are_refused() {
    let bbtss = dict(vec![
        ("BasebandFirmware", PlistValue::Dictionary(PlistDict::new())),
        ("BBTicket", PlistValue::Data(vec![7, 7])),
    ]);
    let good = zip_of(&[("psi_ram.bin", &[1, 2, 3])]);
    // A central directory record whose extra-field length takes in the
    // end record, whose bytes declare an overrunning field.
    let mut overrun = good.clone();
    let p = overrun.windows(4).position(|w| w == [0x50, 0x4b, 0x01, 0x02]).unwrap();
    overrun[p + 30] = 6;
    overrun[p + 31] = 0;
    // A zip64 locator signature.
    let mut zip64 = good.clone();
    zip64.splice(0..0, vec![0x50, 0x4b, 0x06, 0x07]);
    for bad in [overrun, zip64] {
        match idevice::restore::fw_updater::sign_bbfw(&bad, &bbtss, None) {
            Err(IdeviceError::Restore(RestoreError::Ipsw(m))) => assert!(m.starts_with("baseband zip: ")),
            other => panic!("unexpected {:?}", other.is_ok()),
        }
    }
}
