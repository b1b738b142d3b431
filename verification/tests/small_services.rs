use idevice::error::IdeviceError;
use idevice::misagent::{copy_all_request, install_request, profiles_reply, remove_request, status_reply};
use idevice::mobileactivationd::{activation_state, command_request, is_activated};
use idevice::notification_proxy::{observe_request, post_request, relayed_notification, shutdown_request};
use idevice::plist::{PlistDict, PlistValue};
use idevice::mounter;
use idevice::restore_service;
use idevice::screenshotr::{screenshot_data, screenshot_request};
use idevice::simulate_location::{clear_message, set_message};

fn dict(pairs: Vec<(&str, PlistValue)>) -> PlistDict {
    let mut d = PlistDict::new();
    for (k, v) in pairs {
        d.insert(k.to_string(), v);
    }
    d
}

fn s(x: &str) -> PlistValue {
    PlistValue::String(x.to_string())
}

fn keys(d: &PlistDict) -> Vec<String> {
    (0..d.len()).map(|i| d.entry(i).0.clone()).collect()
}

#[test]
fn misagent_messages() {
    let r = install_request(vec![1, 2]);
    assert_eq!(keys(&r), vec!["MessageType", "Profile", "ProfileType"]);
    assert!(matches!(r.get("Profile"), Some(PlistValue::Data(d)) if d == &vec![1, 2]));
    assert!(matches!(remove_request("id").get("ProfileID"), Some(PlistValue::String(x)) if x == "id"));
    assert_eq!(keys(&copy_all_request()), vec!["MessageType", "ProfileType"]);
    assert!(status_reply(&dict(vec![("Status", PlistValue::Integer(0))])).is_ok());
    assert!(matches!(status_reply(&dict(vec![("Status", PlistValue::Integer(3))])), Err(IdeviceError::MisagentFailure)));
    assert!(matches!(status_reply(&dict(vec![("Status", PlistValue::Integer(-3))])), Err(IdeviceError::UnexpectedResponse)));
    assert!(matches!(status_reply(&PlistDict::new()), Err(IdeviceError::UnexpectedResponse)));
    let ok = dict(vec![("Payload", PlistValue::Array(vec![PlistValue::Data(vec![1]), PlistValue::Data(vec![2, 3])]))]);
    assert_eq!(profiles_reply(&ok).unwrap(), vec![vec![1], vec![2, 3]]);
    let bad = dict(vec![("Payload", PlistValue::Array(vec![PlistValue::Data(vec![1]), s("x")]))]);
    assert!(profiles_reply(&bad).is_err());
    assert!(profiles_reply(&PlistDict::new()).is_err());
}

#[test]
fn notification_messages() {
    let r = post_request("com.apple.itunes-mobdev.syncWillStart");
    assert!(matches!(r.get("Command"), Some(PlistValue::String(c)) if c == "PostNotification"));
    assert!(matches!(observe_request("n").get("Command"), Some(PlistValue::String(c)) if c == "ObserveNotification"));
    assert_eq!(keys(&shutdown_request()), vec!["Command"]);
    let relayed = dict(vec![("Command", s("RelayNotification")), ("Name", s("com.apple.mobile.application_installed"))]);
    assert_eq!(relayed_notification(&relayed).unwrap(), "com.apple.mobile.application_installed");
    assert!(relayed_notification(&dict(vec![("Command", s("ProxyDeath"))])).is_err());
    assert!(relayed_notification(&dict(vec![("Command", s("RelayNotification"))])).is_err());
}

#[test]
fn activation_messages() {
    assert_eq!(keys(&command_request("GetActivationStateRequest", None)), vec!["Command"]);
    assert_eq!(keys(&command_request("X", Some("v"))), vec!["Command", "Value"]);
    assert_eq!(activation_state(&dict(vec![("Value", s("Activated"))])).as_deref(), Some("Activated"));
    assert_eq!(activation_state(&PlistDict::new()), None);
    assert!(is_activated("Activated"));
    assert!(!is_activated("Unactivated"));
}

#[test]
fn screenshot_messages() {
    match screenshot_request() {
        PlistValue::Array(items) => {
            assert!(matches!(&items[0], PlistValue::String(x) if x == "DLMessageProcessMessage"));
            assert!(matches!(&items[1], PlistValue::Dictionary(d) if keys(d) == vec!["MessageType"]));
        }
        other => panic!("unexpected {other:?}"),
    }
    let reply = PlistValue::Array(vec![
        s("DLMessageProcessMessage"),
        PlistValue::Dictionary(dict(vec![("ScreenShotData", PlistValue::Data(vec![0x89, 0x50]))])),
    ]);
    assert_eq!(screenshot_data(&reply).unwrap(), vec![0x89, 0x50]);
    let three = PlistValue::Array(vec![s("a"), PlistValue::Dictionary(PlistDict::new()), s("c")]);
    assert!(screenshot_data(&three).is_err());
}

#[test]
fn location_messages() {
    assert_eq!(clear_message(), vec![0, 0, 0, 1]);
    assert_eq!(
        set_message("1.5", "-2"),
        vec![0, 0, 0, 0, 0, 0, 0, 3, b'1', b'.', b'5', 0, 0, 0, 2, b'-', b'2']
    );
}

#[test]
fn restore_service_messages() {
    assert_eq!(keys(&restore_service::command_request("recovery", None)), vec!["command"]);
    assert_eq!(keys(&restore_service::command_request("restorelang", Some("en"))), vec!["command", "argument"]);
    let ok = PlistValue::Dictionary(dict(vec![("result", s("success"))]));
    assert!(restore_service::success_reply(&ok).is_ok());
    assert!(restore_service::success_reply(&PlistValue::Dictionary(dict(vec![("result", s("failure"))]))).is_err());
    assert!(restore_service::success_reply(&s("success")).is_err());
    let info = PlistValue::Dictionary(dict(vec![("nonces", PlistValue::Dictionary(dict(vec![("ApNonce", PlistValue::Data(vec![1]))])))]));
    assert_eq!(keys(&restore_service::dictionary_reply(&info, "nonces").unwrap()), vec!["ApNonce"]);
    assert!(restore_service::dictionary_reply(&info, "preflightinfo").is_err());
}

#[test]
fn image_mounter_commands() {
    use_mounter();
}

fn use_mounter() {
    assert_eq!(keys(&mounter::command_request("CopyDevices")), vec!["Command"]);
    let list = dict(vec![("EntryList", PlistValue::Array(vec![s("a")]))]);
    assert_eq!(mounter::entry_list_reply(list).unwrap().len(), 1);
    assert!(mounter::entry_list_reply(PlistDict::new()).is_err());
    assert_eq!(keys(&mounter::lookup_image_request("Developer")), vec!["Command", "ImageType"]);
    assert_eq!(mounter::image_signature_reply(&dict(vec![("ImageSignature", PlistValue::Data(vec![1]))])).unwrap(), vec![1]);
    assert!(matches!(mounter::image_signature_reply(&PlistDict::new()), Err(IdeviceError::NotFound)));
    let rb = mounter::receive_bytes_request("Personalized", 10, vec![2]);
    assert_eq!(keys(&rb), vec!["Command", "ImageType", "ImageSize", "ImageSignature"]);
    assert!(matches!(rb.get("ImageSize"), Some(PlistValue::Integer(10))));
    assert!(mounter::status_reply(&dict(vec![("Status", s("Complete"))]), "Complete").is_ok());
    assert!(mounter::status_reply(&dict(vec![("Status", s("ReceiveBytesAck"))]), "Complete").is_err());
    assert_eq!(
        keys(&mounter::mount_image_request("Personalized", vec![1], Some(vec![2]), Some(PlistValue::Boolean(true)))),
        vec!["Command", "ImageType", "ImageSignature", "ImageTrustCache", "ImageInfoPlist"]
    );
    assert_eq!(keys(&mounter::mount_image_request("Developer", vec![1], None, None)).len(), 3);
    assert_eq!(keys(&mounter::unmount_image_request("/System/Developer")), vec!["Command", "MountPath"]);
    assert_eq!(
        keys(&mounter::personalization_manifest_request("DeveloperDiskImage", vec![3])),
        vec!["Command", "PersonalizedImageType", "ImageType", "ImageSignature"]
    );
    assert_eq!(mounter::developer_mode_reply(&dict(vec![("DeveloperModeStatus", PlistValue::Boolean(true))])).unwrap(), true);
    assert!(mounter::developer_mode_reply(&PlistDict::new()).is_err());
    assert_eq!(keys(&mounter::personalized_query_request("QueryNonce", Some("DeveloperDiskImage"))), vec!["Command", "PersonalizedImageType"]);
    assert_eq!(mounter::nonce_reply(&dict(vec![("PersonalizationNonce", PlistValue::Data(vec![9]))])).unwrap(), vec![9]);
    assert!(mounter::nonce_reply(&PlistDict::new()).is_err());
    let ids = dict(vec![("PersonalizationIdentifiers", PlistValue::Dictionary(dict(vec![("BoardId", PlistValue::Integer(1))])))]);
    assert_eq!(keys(&mounter::identifiers_reply(&ids).unwrap()), vec!["BoardId"]);
    let digest = mounter::personalized_image_digest(b"abc");
    assert_eq!(digest.len(), 48);
    assert_eq!(&digest[..4], &[0xcb, 0x00, 0x75, 0x3f]);
}
