//! misagent: installing, removing and listing provisioning profiles.

use vstd::prelude::*;

use crate::error::IdeviceError;
use crate::lockdown::string_entry;
use crate::plist::{lookup, view_unsigned, PlistDict, PlistValue, PlistView};
use crate::restore::options::{dict_from, dict_from_pairs, pair_views};
use vstd::string::StringExecFns;

verus! {

/// The request that installs a provisioning profile.
pub fn install_request(profile: Vec<u8>) -> (r: PlistDict)
    ensures
        r@ == dict_from(
            seq![
                string_entry("MessageType"@, "Install"@),
                ("Profile"@, PlistView::Data(profile@)),
                string_entry("ProfileType"@, "Provisioning"@),
            ],
        ),
{
    let ghost p = profile@;
    let pairs = vec![
        ("MessageType", PlistValue::String(String::from_str("Install"))),
        ("Profile", PlistValue::Data(profile)),
        ("ProfileType", PlistValue::String(String::from_str("Provisioning"))),
    ];
    assert(pair_views(pairs@) =~= seq![
        string_entry("MessageType"@, "Install"@),
        ("Profile"@, PlistView::Data(p)),
        string_entry("ProfileType"@, "Provisioning"@),
    ]);
    dict_from_pairs(pairs)
}

/// The request that removes the provisioning profile with this identifier.
pub fn remove_request(id: &str) -> (r: PlistDict)
    ensures
        r@ == dict_from(
            seq![
                string_entry("MessageType"@, "Remove"@),
                string_entry("ProfileID"@, id@),
                string_entry("ProfileType"@, "Provisioning"@),
            ],
        ),
{
    let pairs = vec![
        ("MessageType", PlistValue::String(String::from_str("Remove"))),
        ("ProfileID", PlistValue::String(String::from_str(id))),
        ("ProfileType", PlistValue::String(String::from_str("Provisioning"))),
    ];
    assert(pair_views(pairs@) =~= seq![
        string_entry("MessageType"@, "Remove"@),
        string_entry("ProfileID"@, id@),
        string_entry("ProfileType"@, "Provisioning"@),
    ]);
    dict_from_pairs(pairs)
}

/// The request that lists every provisioning profile.
pub fn copy_all_request() -> (r: PlistDict)
    ensures
        r@ == dict_from(
            seq![string_entry("MessageType"@, "CopyAll"@), string_entry("ProfileType"@, "Provisioning"@)],
        ),
{
    let pairs = vec![
        ("MessageType", PlistValue::String(String::from_str("CopyAll"))),
        ("ProfileType", PlistValue::String(String::from_str("Provisioning"))),
    ];
    assert(pair_views(pairs@) =~= seq![
        string_entry("MessageType"@, "CopyAll"@),
        string_entry("ProfileType"@, "Provisioning"@),
    ]);
    dict_from_pairs(pairs)
}

/// Reads the `Status` of a reply to `Install` or `Remove`: zero is
/// success, another unsigned integer a misagent failure, and anything else
/// unexpected.
pub fn status_reply(reply: &PlistDict) -> (r: Result<(), IdeviceError>)
    ensures
        match view_unsigned(lookup(reply@, "Status"@)) {
            Some(0) => r is Ok,
            Some(_) => r matches Err(IdeviceError::MisagentFailure),
            None => r matches Err(IdeviceError::UnexpectedResponse),
        },
{
    match reply.get("Status") {
        Some(v) => match v.as_unsigned_integer() {
            Some(0) => Ok(()),
            Some(_) => Err(IdeviceError::MisagentFailure),
            None => Err(IdeviceError::UnexpectedResponse),
        },
        None => Err(IdeviceError::UnexpectedResponse),
    }
}

/// Whether every value is data.
pub open spec fn all_data(items: Seq<PlistView>) -> bool {
    forall|i: int| 0 <= i < items.len() ==> #[trigger] items[i] is Data
}

/// The bytes of values that are all data.
pub open spec fn data_items(items: Seq<PlistView>) -> Seq<Seq<u8>> {
    items.map_values(|v: PlistView| v->Data_0)
}

/// The views of byte vectors.
pub open spec fn byte_views(v: Seq<Vec<u8>>) -> Seq<Seq<u8>> {
    v.map_values(|b: Vec<u8>| b@)
}

/// Reads the reply to `CopyAll`: its `Payload` must be an array of data,
/// one per profile.
pub fn profiles_reply(reply: &PlistDict) -> (r: Result<Vec<Vec<u8>>, IdeviceError>)
    ensures
        match lookup(reply@, "Payload"@) {
            Some(PlistView::Array(items)) => if all_data(items) {
                r matches Ok(v) && byte_views(v@) == data_items(items)
            } else {
                r matches Err(IdeviceError::UnexpectedResponse)
            },
            _ => r matches Err(IdeviceError::UnexpectedResponse),
        },
{
    let items = match reply.get("Payload") {
        Some(PlistValue::Array(items)) => items,
        _ => return Err(IdeviceError::UnexpectedResponse),
    };
    let ghost views = crate::plist::view_values(items@);
    let mut out: Vec<Vec<u8>> = Vec::new();
    let n = items.len();
    let mut i: usize = 0;
    while i < n
        invariant
            n == items@.len(),
            i <= n,
            views == crate::plist::view_values(items@),
            lookup(reply@, "Payload"@) == Some(PlistView::Array(views)),
            all_data(views.take(i as int)),
            byte_views(out@) == data_items(views.take(i as int)),
        decreases n - i,
    {
        assert(views[i as int] == items@[i as int]@);
        let ghost before = out@;
        match &items[i] {
            PlistValue::Data(d) => {
                out.push(d.clone());
                assert(views.take(i + 1) =~= views.take(i as int).push(views[i as int]));
                assert(byte_views(out@) =~= byte_views(before).push(d@));
                assert(data_items(views.take(i + 1)) =~= data_items(views.take(i as int)).push(d@));
            },
            _ => {
                assert(!all_data(views)) by {
                    assert(!(views[i as int] is Data));
                }
                return Err(IdeviceError::UnexpectedResponse);
            },
        }
        i = i + 1;
    }
    assert(views.take(n as int) =~= views);
    Ok(out)
}

} // verus!
