//! restoreserviced, over RemoteXPC: entering recovery, rebooting, and the
//! information a restore needs from the device.

use vstd::prelude::*;

use crate::error::IdeviceError;
use crate::lockdown::{opt_str, opt_string_entry, string_entry};
use crate::plist::{lookup, view_string, PlistDict, PlistValue, PlistView};
use crate::restore::options::{dict_from, dict_from_pairs, pair_views};
use vstd::string::StringExecFns;

verus! {

/// A command, with its argument when given (`restorelang` takes the
/// language).
pub fn command_request(command: &str, argument: Option<&str>) -> (r: PlistDict)
    ensures
        r@ == dict_from(seq![string_entry("command"@, command@)] + opt_string_entry("argument"@, opt_str(argument))),
{
    let mut pairs: Vec<(&str, PlistValue)> = Vec::new();
    crate::lockdown::push_pair(&mut pairs, "command", PlistValue::String(String::from_str(command)));
    assert(pair_views(pairs@) =~= seq![string_entry("command"@, command@)]);
    crate::lockdown::push_opt_string(&mut pairs, "argument", argument);
    dict_from_pairs(pairs)
}

/// Whether a reply reports success: a dictionary whose `result` is
/// `success`.
pub open spec fn reports_success(reply: PlistView) -> bool {
    match reply {
        PlistView::Dictionary(d) => view_string(lookup(d, "result"@)) == Some("success"@),
        _ => false,
    }
}

/// Checks the reply to `recovery`, `reboot` or `restorelang`.
pub fn success_reply(reply: &PlistValue) -> (r: Result<(), IdeviceError>)
    ensures
        reports_success(reply@) ==> r is Ok,
        !reports_success(reply@) ==> r matches Err(IdeviceError::UnexpectedResponse),
{
    match reply {
        PlistValue::Dictionary(d) => match d.get("result") {
            Some(PlistValue::String(x)) => {
                if crate::text::str_equal(x.as_str(), "success") {
                    Ok(())
                } else {
                    Err(IdeviceError::UnexpectedResponse)
                }
            },
            _ => Err(IdeviceError::UnexpectedResponse),
        },
        _ => Err(IdeviceError::UnexpectedResponse),
    }
}

/// The dictionary a reply carries under `key`, if the reply is a
/// dictionary that has one there.
pub open spec fn reply_dict(reply: PlistView, key: Seq<char>) -> Option<Seq<(Seq<char>, PlistView)>> {
    match reply {
        PlistView::Dictionary(d) => match lookup(d, key) {
            Some(PlistView::Dictionary(x)) => Some(x),
            _ => None,
        },
        _ => None,
    }
}

/// Reads the reply to `getpreflightinfo`, `getnonces` or
/// `getappparameters`: the dictionary under `preflightinfo`, `nonces` or
/// `appparameters`.
pub fn dictionary_reply(reply: &PlistValue, key: &str) -> (r: Result<PlistDict, IdeviceError>)
    ensures
        match reply_dict(reply@, key@) {
            Some(x) => r matches Ok(d) && d@ == x,
            None => r matches Err(IdeviceError::UnexpectedResponse),
        },
{
    match reply {
        PlistValue::Dictionary(d) => match d.get(key) {
            Some(PlistValue::Dictionary(x)) => Ok(x.deep_clone()),
            _ => Err(IdeviceError::UnexpectedResponse),
        },
        _ => Err(IdeviceError::UnexpectedResponse),
    }
}

} // verus!
