pub mod backup;
pub mod bytes;
pub mod error;
pub mod http2;
pub mod lockdown;
pub mod misagent;
pub mod mobileactivationd;
pub mod mounter;
pub mod notification_proxy;
pub mod os_trace;
pub mod pairing;
pub mod pcapd;
pub mod plist;
pub mod preboard;
pub mod restore;
pub mod restore_service;
pub mod rsd;
pub mod screenshotr;
pub mod simulate_location;
pub mod springboard;
pub mod tcp;
pub mod text;
pub mod tss;
pub mod tunnel;
pub mod usbmuxd;
pub mod wda;
