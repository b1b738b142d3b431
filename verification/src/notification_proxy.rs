//! The notification proxy: posting and observing Darwin notifications.

use vstd::prelude::*;

use crate::error::IdeviceError;
use crate::lockdown::string_entry;
use crate::plist::{lookup, view_string, PlistDict, PlistValue, PlistView};
use crate::restore::options::{dict_from, dict_from_pairs, pair_views};
use vstd::string::StringExecFns;

verus! {

/// A command with a notification name.
fn named_command(command: &str, name: &str) -> (r: PlistDict)
    ensures
        r@ == dict_from(seq![string_entry("Command"@, command@), string_entry("Name"@, name@)]),
{
    let pairs = vec![
        ("Command", PlistValue::String(String::from_str(command))),
        ("Name", PlistValue::String(String::from_str(name))),
    ];
    assert(pair_views(pairs@) =~= seq![string_entry("Command"@, command@), string_entry("Name"@, name@)]);
    dict_from_pairs(pairs)
}

/// The request that posts a notification.
pub fn post_request(name: &str) -> (r: PlistDict)
    ensures
        r@ == dict_from(seq![string_entry("Command"@, "PostNotification"@), string_entry("Name"@, name@)]),
{
    named_command("PostNotification", name)
}

/// The request that asks to be told of a notification.
pub fn observe_request(name: &str) -> (r: PlistDict)
    ensures
        r@ == dict_from(seq![string_entry("Command"@, "ObserveNotification"@), string_entry("Name"@, name@)]),
{
    named_command("ObserveNotification", name)
}

/// The request that shuts the proxy down.
pub fn shutdown_request() -> (r: PlistDict)
    ensures
        r@ == seq![string_entry("Command"@, "Shutdown"@)],
{
    let mut d = PlistDict::new();
    d.insert(String::from_str("Command"), PlistValue::String(String::from_str("Shutdown")));
    assert(d@ =~= seq![string_entry("Command"@, "Shutdown"@)]);
    d
}

/// Reads a relayed notification: a `RelayNotification` command with the
/// notification's `Name`; anything else is unexpected.
pub fn relayed_notification(message: &PlistDict) -> (r: Result<String, IdeviceError>)
    ensures
        (view_string(lookup(message@, "Command"@)) == Some("RelayNotification"@) && view_string(
            lookup(message@, "Name"@),
        ) is Some) ==> (r matches Ok(n) && Some(n@) == view_string(lookup(message@, "Name"@))),
        !(view_string(lookup(message@, "Command"@)) == Some("RelayNotification"@) && view_string(
            lookup(message@, "Name"@),
        ) is Some) ==> r matches Err(IdeviceError::UnexpectedResponse),
{
    match message.get("Command") {
        Some(PlistValue::String(c)) => {
            if !crate::text::str_equal(c.as_str(), "RelayNotification") {
                return Err(IdeviceError::UnexpectedResponse);
            }
        },
        _ => return Err(IdeviceError::UnexpectedResponse),
    }
    match message.get("Name") {
        Some(PlistValue::String(n)) => Ok(n.clone()),
        _ => Err(IdeviceError::UnexpectedResponse),
    }
}

} // verus!
