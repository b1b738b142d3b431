use idevice::error::IdeviceError;
use idevice::plist::{PlistDict, PlistValue};
use idevice::restore::data_request::{
    boot_object_plan, build_identity_reply, component_reply, data_port, filesystem_port,
    image_data_plan, image_data_reply, nor_plan, nor_reply, root_ticket_reply, BootObjectSource,
    ASR_DEFAULT_PORT, FILE_CHUNK_SIZE,
};
use idevice::restore::errors::RestoreError;

fn dict(pairs: Vec<(&str, PlistValue)>) -> PlistDict {
    let mut d = PlistDict::new();
    for (k, v) in pairs {
        d.insert(k.to_string(), v);
    }
    d
}

fn s(x: &str) -> PlistValue {
    PlistValue::String(x.to_string())
}

fn keys(d: &PlistDict) -> Vec<String> {
    (0..d.len()).map(|i| d.entry(i).0.clone()).collect()
}

fn with_info(info: Vec<(&str, PlistValue)>) -> PlistValue {
    PlistValue::Dictionary(dict(vec![("Info", PlistValue::Dictionary(dict(info)))]))
}

fn request(args: Vec<(&str, PlistValue)>) -> PlistDict {
    dict(vec![("Arguments", PlistValue::Dictionary(dict(args)))])
}

fn identity() -> PlistDict {
    dict(vec![(
        "Manifest",
        PlistValue::Dictionary(dict(vec![
            ("Ap,Fud1", with_info(vec![("IsFUDFirmware", PlistValue::Boolean(true)), ("Path", s("fud1.im4p"))])),
            ("Other", with_info(vec![("Path", s("other.im4p"))])),
            ("Fud2", with_info(vec![("IsFUDFirmware", PlistValue::Boolean(true)), ("Path", s("fud2.im4p"))])),
        ])),
    )])
}

#[test]
fn image_plan_lists_typed_images() {
    let message = request(vec![("ImageList", PlistValue::Boolean(true)), ("ImageType", s("IsFUDFirmware"))]);
    let plan = image_data_plan(&message, &identity(), "ImageList", None).unwrap();
    assert!(plan.want_list);
    assert_eq!(plan.components, vec!["Ap,Fud1".to_string(), "Fud2".to_string()]);
    let reply = image_data_reply(plan, vec![], "FUDImageList", "FUDImageData");
    assert_eq!(keys(&reply), vec!["FUDImageList".to_string()]);
    match reply.get("FUDImageList") {
        Some(PlistValue::Array(items)) => {
            assert_eq!(items.len(), 2);
            assert!(matches!(&items[1], PlistValue::String(n) if n == "Fud2"));
        }
        other => panic!("unexpected {other:?}"),
    }
}

#[test]
fn image_plan_names_one_image_with_ap_prefix() {
    let message = request(vec![("ImageName", s("ApFud1"))]);
    let plan = image_data_plan(&message, &identity(), "ImageList", Some("IsFUDFirmware")).unwrap();
    assert!(!plan.want_list);
    assert_eq!(plan.image_name.as_deref(), Some("Ap,Fud1"));
    assert_eq!(plan.components, vec!["Ap,Fud1".to_string()]);
    let reply = image_data_reply(plan, vec![("Ap,Fud1".to_string(), vec![7, 8])], "L", "FUDImageData");
    assert_eq!(keys(&reply), vec!["FUDImageData".to_string(), "ImageName".to_string()]);
    assert!(matches!(reply.get("FUDImageData"), Some(PlistValue::Data(d)) if d == &vec![7, 8]));
    assert!(matches!(reply.get("ImageName"), Some(PlistValue::String(n)) if n == "Ap,Fud1"));
}

#[test]
fn image_plan_for_all_images_replies_by_name() {
    let message = request(vec![]);
    let plan = image_data_plan(&message, &identity(), "ImageList", Some("IsFUDFirmware")).unwrap();
    assert_eq!(plan.image_name, None);
    let reply = image_data_reply(
        plan,
        vec![("Ap,Fud1".to_string(), vec![1]), ("Fud2".to_string(), vec![2])],
        "L",
        "FUDImageData",
    );
    match reply.get("FUDImageData") {
        Some(PlistValue::Dictionary(d)) => assert_eq!(keys(d), vec!["Ap,Fud1".to_string(), "Fud2".to_string()]),
        other => panic!("unexpected {other:?}"),
    }
}

#[test]
fn image_plan_errors() {
    match image_data_plan(&request(vec![]), &identity(), "ImageList", None) {
        Err(IdeviceError::Restore(RestoreError::MissingField(m))) => assert_eq!(m, "ImageType"),
        other => panic!("unexpected {:?}", other.is_ok()),
    }
    assert!(matches!(
        image_data_plan(&request(vec![]), &PlistDict::new(), "ImageList", Some("IsFUDFirmware")),
        Err(IdeviceError::BadBuildManifest)
    ));
}

fn nor_identity() -> PlistDict {
    dict(vec![(
        "Manifest",
        PlistValue::Dictionary(dict(vec![
            ("LLB", with_info(vec![("IsFirmwarePayload", PlistValue::Boolean(true)), ("Path", s("llb.im4p"))])),
            ("iBootA", with_info(vec![("IsFirmwarePayload", PlistValue::Boolean(true)), ("Path", s("a.im4p"))])),
            ("RestoreSEP", with_info(vec![("IsFirmwarePayload", PlistValue::Boolean(true)), ("Path", s("rsep.im4p"))])),
            ("Logo", with_info(vec![("IsFirmwarePayload", PlistValue::Boolean(true)), ("Path", s("logo.im4p"))])),
            ("SEP", with_info(vec![("Path", s("sep.im4p"))])),
        ])),
    )])
}

#[test]
fn nor_plan_and_reply() {
    let plan = nor_plan(&request(vec![("FlashVersion1", PlistValue::Boolean(true))]), &nor_identity()).unwrap();
    assert!(plan.flash_version_1);
    assert_eq!(plan.llb_path, "llb.im4p");
    assert_eq!(
        plan.images,
        vec![("iBootA".to_string(), "a.im4p".to_string()), ("Logo".to_string(), "logo.im4p".to_string())]
    );
    assert_eq!(
        plan.seps,
        vec![
            ("RestoreSEP".to_string(), "RestoreSEP".to_string(), "rsep.im4p".to_string()),
            ("SEP".to_string(), "SEP".to_string(), "sep.im4p".to_string()),
        ]
    );
    let images = vec![("Logo".to_string(), vec![1]), ("iBootA".to_string(), vec![2])];
    let seps = vec![("SEP".to_string(), vec![3])];
    let v1 = nor_reply(vec![9], images.clone(), true, seps.clone());
    assert_eq!(
        keys(&v1),
        vec!["LlbImageData".to_string(), "NorImageData".to_string(), "SEPImageData".to_string()]
    );
    assert!(matches!(v1.get("NorImageData"), Some(PlistValue::Dictionary(d)) if keys(d) == vec!["Logo".to_string(), "iBootA".to_string()]));
    let v2 = nor_reply(vec![9], images, false, seps);
    match v2.get("NorImageData") {
        Some(PlistValue::Array(items)) => {
            assert!(matches!(&items[0], PlistValue::Data(d) if d == &vec![2]));
            assert!(matches!(&items[1], PlistValue::Data(d) if d == &vec![1]));
        }
        other => panic!("unexpected {other:?}"),
    }
    match nor_plan(&request(vec![]), &PlistDict::new()) {
        Err(IdeviceError::Restore(RestoreError::ComponentNotFound(c))) => assert_eq!(c, "LLB"),
        other => panic!("unexpected {:?}", other.is_ok()),
    }
}

#[test]
fn data_ports() {
    let with_port = dict(vec![("DataPort", PlistValue::Integer(0x1_0000 + 49152))]);
    assert_eq!(data_port(&with_port), Some(49152));
    assert_eq!(data_port(&PlistDict::new()), None);
    assert_eq!(filesystem_port(&PlistDict::new()), ASR_DEFAULT_PORT);
    assert_eq!(filesystem_port(&dict(vec![("DataPort", PlistValue::Integer(7))])), 7);
    assert_eq!(ASR_DEFAULT_PORT, 12345);
    assert_eq!(FILE_CHUNK_SIZE, 8192);
}

#[test]
fn boot_object_plans() {
    let mut message = request(vec![("ImageName", s("__RestoreVersion__"))]);
    message.insert("DataPort".to_string(), PlistValue::Integer(5));
    let plan = boot_object_plan(&message, false).unwrap();
    assert_eq!(plan.port, Some(5));
    assert!(matches!(plan.source, BootObjectSource::File(f) if f == "RestoreVersion.plist"));
    let plan = boot_object_plan(&request(vec![("ImageName", s("__SystemVersion__"))]), true).unwrap();
    assert!(matches!(plan.source, BootObjectSource::File(f) if f == "SystemVersion.plist"));
    assert_eq!(plan.port, None);
    let plan = boot_object_plan(&request(vec![("ImageName", s("iBEC"))]), true).unwrap();
    assert!(matches!(plan.source, BootObjectSource::Streamed));
    assert_eq!(plan.image_name, "iBEC");
    let plan = boot_object_plan(&request(vec![("ImageName", s("iBEC"))]), false).unwrap();
    assert!(matches!(plan.source, BootObjectSource::Personalized));
    match boot_object_plan(&request(vec![("ImageName", s("__GlobalManifest__"))]), false) {
        Err(IdeviceError::Restore(RestoreError::Unsupported(m))) => assert_eq!(m, "__GlobalManifest__ (macOS)"),
        other => panic!("unexpected {:?}", other.is_ok()),
    }
    match boot_object_plan(&PlistDict::new(), false) {
        Err(IdeviceError::Restore(RestoreError::MissingField(m))) => assert_eq!(m, "ImageName"),
        other => panic!("unexpected {:?}", other.is_ok()),
    }
}

#[test]
fn identity_ticket_and_component_replies() {
    let reply = build_identity_reply(&request(vec![]), &nor_identity());
    assert_eq!(keys(&reply), vec!["BuildIdentityDict".to_string(), "Variant".to_string()]);
    assert!(matches!(reply.get("Variant"), Some(PlistValue::String(v)) if v == "Erase"));
    let reply = build_identity_reply(&request(vec![("Variant", s("Upgrade"))]), &nor_identity());
    assert!(matches!(reply.get("Variant"), Some(PlistValue::String(v)) if v == "Upgrade"));

    let ticket = root_ticket_reply(&[1, 2, 3]).unwrap();
    assert!(matches!(ticket.get("RootTicketData"), Some(PlistValue::Data(d)) if d == &vec![1, 2, 3]));
    match root_ticket_reply(&[]) {
        Err(IdeviceError::Restore(RestoreError::Other(m))) => {
            assert_eq!(m, "cannot send RootTicket without a TSS ticket")
        }
        other => panic!("unexpected {:?}", other.is_ok()),
    }

    let c = component_reply("Rap,RTKitOS", vec![4]);
    assert_eq!(keys(&c), vec!["Rap,RTKitOSFile".to_string()]);
}
