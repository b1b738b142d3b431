//! mobileactivationd: a device's activation state.

use vstd::prelude::*;

use crate::lockdown::{opt_str, opt_string_entry, string_entry};
use crate::plist::{lookup, view_string, PlistDict, PlistValue, PlistView};
use crate::restore::options::{dict_from, dict_from_pairs, pair_views};
use vstd::string::StringExecFns;

verus! {

/// A command, with its value when given.
pub fn command_request(command: &str, value: Option<&str>) -> (r: PlistDict)
    ensures
        r@ == dict_from(seq![string_entry("Command"@, command@)] + opt_string_entry("Value"@, opt_str(value))),
{
    let mut pairs: Vec<(&str, PlistValue)> = Vec::new();
    crate::lockdown::push_pair(&mut pairs, "Command", PlistValue::String(String::from_str(command)));
    assert(pair_views(pairs@) =~= seq![string_entry("Command"@, command@)]);
    crate::lockdown::push_opt_string(&mut pairs, "Value", value);
    dict_from_pairs(pairs)
}

/// The activation state a reply gives as its `Value` string, if it does.
pub fn activation_state(reply: &PlistDict) -> (r: Option<String>)
    ensures
        match view_string(lookup(reply@, "Value"@)) {
            Some(v) => r matches Some(x) && x@ == v,
            None => r is None,
        },
{
    match reply.get("Value") {
        Some(PlistValue::String(v)) => Some(v.clone()),
        _ => None,
    }
}

/// Whether a state is the activated one.
pub fn is_activated(state: &str) -> (r: bool)
    ensures
        r == (state@ == "Activated"@),
{
    crate::text::str_equal(state, "Activated")
}

} // verus!
