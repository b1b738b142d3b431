//! screenshotr: taking a screenshot over DeviceLink.

use vstd::prelude::*;

use crate::backup::requests::{dl_items, s};
use crate::error::IdeviceError;
use crate::lockdown::string_entry;
use crate::plist::{lookup, PlistDict, PlistValue, PlistView};
use vstd::string::StringExecFns;

verus! {

/// The screenshot request: a `DLMessageProcessMessage` asking for a
/// `ScreenShotRequest`.
pub fn screenshot_request() -> (r: PlistValue)
    ensures
        r@ == PlistView::Array(
            seq![
                s("DLMessageProcessMessage"@),
                PlistView::Dictionary(seq![string_entry("MessageType"@, "ScreenShotRequest"@)]),
            ],
        ),
{
    let mut d = PlistDict::new();
    d.insert(String::from_str("MessageType"), PlistValue::String(String::from_str("ScreenShotRequest")));
    assert(d@ =~= seq![string_entry("MessageType"@, "ScreenShotRequest"@)]);
    let ghost dv = d@;
    let items = vec![PlistValue::String(String::from_str("DLMessageProcessMessage")), PlistValue::Dictionary(d)];
    assert(crate::plist::view_values(items@) =~= seq![s("DLMessageProcessMessage"@), PlistView::Dictionary(dv)]);
    let r = PlistValue::Array(items);
    assert(seq![
        s("DLMessageProcessMessage"@),
        PlistView::Dictionary(seq![string_entry("MessageType"@, "ScreenShotRequest"@)]),
    ] =~= seq![s("DLMessageProcessMessage"@), PlistView::Dictionary(dv)]);
    r
}

/// The image a screenshot reply carries: a message of exactly two items
/// whose second is a dictionary with `ScreenShotData`.
pub open spec fn screenshot_of(v: PlistView) -> Option<Seq<u8>> {
    let items = dl_items(v);
    if items.len() == 2 {
        match items[1] {
            PlistView::Dictionary(d) => match lookup(d, "ScreenShotData"@) {
                Some(PlistView::Data(b)) => Some(b),
                _ => None,
            },
            _ => None,
        }
    } else {
        None
    }
}

/// Reads the image out of a screenshot reply; a reply of another shape is
/// unexpected.
pub fn screenshot_data(message: &PlistValue) -> (r: Result<Vec<u8>, IdeviceError>)
    ensures
        match screenshot_of(message@) {
            Some(b) => r matches Ok(x) && x@ == b,
            None => r matches Err(IdeviceError::UnexpectedResponse),
        },
{
    match message {
        PlistValue::Array(items) => {
            assert(message@ == PlistView::Array(crate::plist::view_values(items@)));
            if items.len() != 2 {
                return Err(IdeviceError::UnexpectedResponse);
            }
            assert(crate::plist::view_values(items@)[1] == items@[1]@);
            match &items[1] {
                PlistValue::Dictionary(d) => match d.get("ScreenShotData") {
                    Some(PlistValue::Data(b)) => Ok(b.clone()),
                    _ => Err(IdeviceError::UnexpectedResponse),
                },
                _ => Err(IdeviceError::UnexpectedResponse),
            }
        },
        _ => Err(IdeviceError::UnexpectedResponse),
    }
}

} // verus!
