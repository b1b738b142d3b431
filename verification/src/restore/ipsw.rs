//! What a restore reads from a build identity: where a component's file
//! lies in the IPSW, and which components iBoot loads.

use vstd::prelude::*;

use crate::error::IdeviceError;
use crate::plist::{lookup, opt_get, view_bool, view_dict, view_string, PlistDict, PlistValue, PlistView};
use crate::restore::errors::RestoreError;
use vstd::string::StringExecFns;

verus! {

/// The `Info` / `Path` of a build identity's manifest component.
pub open spec fn component_path_of(identity: Seq<(Seq<char>, PlistView)>, component: Seq<char>) -> Option<
    Seq<char>,
> {
    view_string(
        opt_get(opt_get(opt_get(lookup(identity, "Manifest"@), component), "Info"@), "Path"@),
    )
}

/// The IPSW path of a build identity's manifest component.
///
/// Fails with a component-not-found error naming the component when the
/// manifest, the component, its `Info` or its `Path` string is missing.
pub fn component_path(build_identity: &PlistDict, component: &str) -> (r: Result<String, IdeviceError>)
    ensures
        match component_path_of(build_identity@, component@) {
            Some(p) => r matches Ok(s) && s@ == p,
            None => r matches Err(IdeviceError::Restore(RestoreError::ComponentNotFound(c)))
                && c@ == component@,
        },
{
    let manifest = crate::plist::dict_of(build_identity.get("Manifest"));
    let entry = crate::plist::dict_of(crate::plist::get_in(manifest, component));
    let info = crate::plist::dict_of(crate::plist::get_in(entry, "Info"));
    match crate::plist::get_in(info, "Path") {
        Some(PlistValue::String(p)) => Ok(p.clone()),
        _ => Err(IdeviceError::Restore(RestoreError::ComponentNotFound(String::from_str(component)))),
    }
}

/// Whether iBoot loads a manifest entry during the restore boot: its
/// `Info` sets `IsLoadedByiBoot` but not `IsLoadedByiBootStage1`.
pub open spec fn loaded_by_iboot(entry: PlistView) -> bool {
    match view_dict(opt_get(Some(entry), "Info"@)) {
        Some(info) => view_bool(lookup(info, "IsLoadedByiBoot"@)) == Some(true) && view_bool(
            lookup(info, "IsLoadedByiBootStage1"@),
        ) != Some(true),
        None => false,
    }
}

/// The names of the manifest entries iBoot loads, in order.
pub open spec fn iboot_components(manifest: Seq<(Seq<char>, PlistView)>) -> Seq<Seq<char>>
    decreases manifest.len(),
{
    if manifest.len() == 0 {
        Seq::empty()
    } else if loaded_by_iboot(manifest.last().1) {
        iboot_components(manifest.drop_last()).push(manifest.last().0)
    } else {
        iboot_components(manifest.drop_last())
    }
}

/// The names of the components iBoot loads during the restore boot, in
/// manifest order; none without a manifest.
pub fn components_loaded_by_iboot(build_identity: &PlistDict) -> (r: Vec<String>)
    ensures
        r@.map_values(|s: String| s@) == match view_dict(lookup(build_identity@, "Manifest"@)) {
            Some(m) => iboot_components(m),
            None => Seq::empty(),
        },
{
    let mut out: Vec<String> = Vec::new();
    let manifest = match build_identity.get("Manifest") {
        Some(PlistValue::Dictionary(m)) => m,
        _ => {
            assert(out@.map_values(|s: String| s@) =~= Seq::<Seq<char>>::empty());
            return out;
        },
    };
    let mut i: usize = 0;
    while i < manifest.len()
        invariant
            i <= manifest@.len(),
            out@.map_values(|s: String| s@) == iboot_components(manifest@.take(i as int)),
        decreases manifest@.len() - i,
    {
        let (name, node) = manifest.entry(i);
        assert(manifest@.take(i + 1).drop_last() =~= manifest@.take(i as int));
        assert(manifest@.take(i + 1).last() == manifest@[i as int]);
        if let PlistValue::Dictionary(n) = node {
            if let Some(PlistValue::Dictionary(info)) = n.get("Info") {
                let iboot = match info.get("IsLoadedByiBoot") {
                    Some(PlistValue::Boolean(b)) => *b,
                    _ => false,
                };
                let stage1 = match info.get("IsLoadedByiBootStage1") {
                    Some(PlistValue::Boolean(b)) => *b,
                    _ => false,
                };
                if iboot && !stage1 {
                    let ghost before = out@;
                    out.push(name.clone());
                    assert(out@.map_values(|s: String| s@) =~= before.map_values(|s: String| s@).push(
                        name@,
                    ));
                }
            }
        }
        i = i + 1;
    }
    assert(manifest@.take(manifest@.len() as int) =~= manifest@);
    out
}

} // verus!
