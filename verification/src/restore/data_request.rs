//! Data requests from `restored`: which handler a request's `DataType`
//! selects, the firmware components a build identity lists, and the HTTP
//! requests the host proxies for the device.

use vstd::prelude::*;

use crate::error::IdeviceError;
use crate::plist::{
    lookup, opt_get, view_data, view_dict, view_string, view_values, PlistDict, PlistValue,
    PlistView,
};
use crate::restore::errors::RestoreError;
use crate::plist::inserted;
use crate::restore::ipsw::{component_path, component_path_of};
use crate::restore::options::{dict_from, pair_views};
use crate::text::{has_prefix, str_equal, str_starts_with};
use vstd::string::StringExecFns;

verus! {

/// What the host sends for a data request.
#[derive(Debug, Clone, Copy)]
pub enum DataRequest {
    /// The root ticket.
    RootTicket,
    /// The filesystem image, over ASR.
    Filesystem,
    /// The build identity.
    BuildIdentity,
    /// A personalized boot object; `source` for the source boot objects.
    BootObject { source: bool },
    /// A personalized build-identity component under a data key.
    Component { component: &'static str, data_type: &'static str },
    /// The NOR images.
    Nor,
    /// Firmware updater data.
    FirmwareUpdater,
    /// Baseband data.
    Baseband,
    /// FDR trust data.
    FdrTrust,
    /// Personalized images listed under a key, optionally only those with a
    /// flag, sent under a data key.
    ImageData { list_key: &'static str, flag: Option<&'static str>, data_key: &'static str },
    /// The receipt manifest.
    ReceiptManifest,
    /// A proxied URL asset.
    UrlAsset,
    /// A proxied streamed image decryption key.
    StreamedImageDecryptionKey,
    /// A data type the host does not handle; it is skipped.
    Unsupported,
}

/// Whether `r` is what the host sends for data type `t`.
pub open spec fn data_request_for(t: Seq<char>, r: DataRequest) -> bool {
    if t == "RootTicket"@ {
        r is RootTicket
    } else if t == "SystemImageData"@ || t == "RecoveryOSASRImage"@ {
        r is Filesystem
    } else if t == "BuildIdentityDict"@ {
        r is BuildIdentity
    } else if t == "PersonalizedBootObjectV3"@ {
        r == DataRequest::BootObject { source: false }
    } else if t == "SourceBootObjectV4"@ || t == "SourceBootObjectV5"@ {
        r == DataRequest::BootObject { source: true }
    } else if t == "KernelCache"@ {
        r matches DataRequest::Component { component, data_type } && component@ == "KernelCache"@
            && data_type@ == "KernelCache"@
    } else if t == "DeviceTree"@ {
        r matches DataRequest::Component { component, data_type } && component@ == "DeviceTree"@
            && data_type@ == "DeviceTree"@
    } else if t == "SystemImageRootHash"@ {
        r matches DataRequest::Component { component, data_type } && component@ == "SystemVolume"@
            && data_type@ == "SystemImageRootHash"@
    } else if t == "SystemImageCanonicalMetadata"@ {
        r matches DataRequest::Component { component, data_type } && component@
            == "Ap,SystemVolumeCanonicalMetadata"@ && data_type@ == "SystemImageCanonicalMetadata"@
    } else if t == "NORData"@ {
        r is Nor
    } else if t == "FirmwareUpdaterData"@ {
        r is FirmwareUpdater
    } else if t == "BasebandData"@ {
        r is Baseband
    } else if t == "FDRTrustData"@ {
        r is FdrTrust
    } else if t == "FUDData"@ {
        r matches DataRequest::ImageData { list_key, flag: Some(f), data_key } && list_key@
            == "FUDImageList"@ && f@ == "IsFUDFirmware"@ && data_key@ == "FUDImageData"@
    } else if t == "PersonalizedData"@ {
        r matches DataRequest::ImageData { list_key, flag: None, data_key } && list_key@
            == "ImageList"@ && data_key@ == "ImageData"@
    } else if t == "EANData"@ {
        r matches DataRequest::ImageData { list_key, flag: Some(f), data_key } && list_key@
            == "EANImageList"@ && f@ == "IsEarlyAccessFirmware"@ && data_key@ == "EANData"@
    } else if t == "ReceiptManifest"@ {
        r is ReceiptManifest
    } else if t == "URLAsset"@ {
        r is UrlAsset
    } else if t == "StreamedImageDecryptionKey"@ {
        r is StreamedImageDecryptionKey
    } else {
        r is Unsupported
    }
}

/// What the host sends for a data type.
fn data_request_of(t: &str) -> (r: DataRequest)
    ensures
        data_request_for(t@, r),
{
    if str_equal(t, "RootTicket") {
        DataRequest::RootTicket
    } else if str_equal(t, "SystemImageData") || str_equal(t, "RecoveryOSASRImage") {
        DataRequest::Filesystem
    } else if str_equal(t, "BuildIdentityDict") {
        DataRequest::BuildIdentity
    } else if str_equal(t, "PersonalizedBootObjectV3") {
        DataRequest::BootObject { source: false }
    } else if str_equal(t, "SourceBootObjectV4") || str_equal(t, "SourceBootObjectV5") {
        DataRequest::BootObject { source: true }
    } else if str_equal(t, "KernelCache") {
        DataRequest::Component { component: "KernelCache", data_type: "KernelCache" }
    } else if str_equal(t, "DeviceTree") {
        DataRequest::Component { component: "DeviceTree", data_type: "DeviceTree" }
    } else if str_equal(t, "SystemImageRootHash") {
        DataRequest::Component { component: "SystemVolume", data_type: "SystemImageRootHash" }
    } else if str_equal(t, "SystemImageCanonicalMetadata") {
        DataRequest::Component {
            component: "Ap,SystemVolumeCanonicalMetadata",
            data_type: "SystemImageCanonicalMetadata",
        }
    } else if str_equal(t, "NORData") {
        DataRequest::Nor
    } else if str_equal(t, "FirmwareUpdaterData") {
        DataRequest::FirmwareUpdater
    } else if str_equal(t, "BasebandData") {
        DataRequest::Baseband
    } else if str_equal(t, "FDRTrustData") {
        DataRequest::FdrTrust
    } else if str_equal(t, "FUDData") {
        DataRequest::ImageData {
            list_key: "FUDImageList",
            flag: Some("IsFUDFirmware"),
            data_key: "FUDImageData",
        }
    } else if str_equal(t, "PersonalizedData") {
        DataRequest::ImageData { list_key: "ImageList", flag: None, data_key: "ImageData" }
    } else if str_equal(t, "EANData") {
        DataRequest::ImageData {
            list_key: "EANImageList",
            flag: Some("IsEarlyAccessFirmware"),
            data_key: "EANData",
        }
    } else if str_equal(t, "ReceiptManifest") {
        DataRequest::ReceiptManifest
    } else if str_equal(t, "URLAsset") {
        DataRequest::UrlAsset
    } else if str_equal(t, "StreamedImageDecryptionKey") {
        DataRequest::StreamedImageDecryptionKey
    } else {
        DataRequest::Unsupported
    }
}

/// Selects the handler of a data request: its `DataType` string (also the
/// step the progress reports) and what the host sends; none when the
/// request has no string `DataType`, which the host ignores.
pub fn dispatch(message: &PlistDict) -> (r: Option<(String, DataRequest)>)
    ensures
        match view_string(lookup(message@, "DataType"@)) {
            Some(t) => r matches Some(p) && p.0@ == t && data_request_for(t, p.1),
            None => r is None,
        },
{
    match message.get("DataType") {
        Some(PlistValue::String(t)) => {
            let kind = data_request_of(t.as_str());
            Some((t.clone(), kind))
        },
        _ => None,
    }
}

// ---------------------------------------------------------------------------
// Firmware components
// ---------------------------------------------------------------------------

/// Whether a manifest flag value counts as set: a boolean's value; an
/// integer other than 0 (or too large for a `u64`); a string other than
/// empty, `0` and `false`; anything else.
pub open spec fn truthy(v: PlistView) -> bool {
    match v {
        PlistView::Boolean(b) => b,
        PlistView::Integer(i) => if 0 <= i <= u64::MAX {
            i != 0
        } else {
            true
        },
        PlistView::String(s) => s.len() > 0 && s != "0"@ && s != "false"@,
        _ => true,
    }
}

/// Whether a manifest flag value counts as set.
pub fn is_truthy(v: &PlistValue) -> (r: bool)
    ensures
        r == truthy(v@),
{
    match v {
        PlistValue::Boolean(b) => *b,
        PlistValue::Integer(_) => {
            match v.as_unsigned_integer() {
                Some(n) => n != 0,
                None => true,
            }
        },
        PlistValue::String(s) => {
            proof {
                reveal_strlit("");
            }
            assert(""@ =~= Seq::<char>::empty());
            let empty = str_equal(s.as_str(), "");
            assert(empty == (s@.len() == 0)) by {
                if s@.len() == 0 {
                    assert(s@ =~= ""@);
                }
            }
            !empty && !str_equal(s.as_str(), "0") && !str_equal(s.as_str(), "false")
        },
        _ => true,
    }
}

/// Whether an optional flag is set.
pub open spec fn flag_set(v: Option<PlistView>) -> bool {
    match v {
        Some(x) => truthy(x),
        None => false,
    }
}

/// A manifest entry's firmware path: firmware payloads, and secondary
/// payloads that iBoot loads, with an `Info` path string.
pub open spec fn firmware_path(entry: PlistView) -> Option<Seq<char>> {
    match view_dict(opt_get(Some(entry), "Info"@)) {
        Some(info) => if flag_set(lookup(info, "IsFirmwarePayload"@)) || (flag_set(
            lookup(info, "IsSecondaryFirmwarePayload"@),
        ) && flag_set(lookup(info, "IsLoadedByiBoot"@))) {
            view_string(lookup(info, "Path"@))
        } else {
            None
        },
        None => None,
    }
}

/// The firmware components of manifest entries, in order: name and path.
pub open spec fn firmware_list(manifest: Seq<(Seq<char>, PlistView)>) -> Seq<(Seq<char>, Seq<char>)>
    decreases manifest.len(),
{
    if manifest.len() == 0 {
        Seq::empty()
    } else {
        let prev = firmware_list(manifest.drop_last());
        match firmware_path(manifest.last().1) {
            Some(p) => prev.push((manifest.last().0, p)),
            None => prev,
        }
    }
}

/// The views of name and path pairs.
pub open spec fn name_paths(v: Seq<(String, String)>) -> Seq<(Seq<char>, Seq<char>)> {
    v.map_values(|p: (String, String)| (p.0@, p.1@))
}

/// Whether an optional flag is set.
fn is_flag_set(v: Option<&PlistValue>) -> (r: bool)
    ensures
        r == flag_set(
            match v {
                Some(x) => Some(x@),
                None => None,
            },
        ),
{
    match v {
        Some(x) => is_truthy(x),
        None => false,
    }
}

/// The firmware components of a build identity's manifest, in manifest
/// order: each firmware payload (or secondary payload that iBoot loads)
/// with an `Info` path, as its name and path. None without a manifest.
pub fn firmware_components(build_identity: &PlistDict) -> (r: Vec<(String, String)>)
    ensures
        name_paths(r@) == match view_dict(lookup(build_identity@, "Manifest"@)) {
            Some(m) => firmware_list(m),
            None => Seq::empty(),
        },
{
    let mut out: Vec<(String, String)> = Vec::new();
    let manifest = match build_identity.get("Manifest") {
        Some(PlistValue::Dictionary(m)) => m,
        _ => {
            assert(name_paths(out@) =~= Seq::<(Seq<char>, Seq<char>)>::empty());
            return out;
        },
    };
    let mut i: usize = 0;
    while i < manifest.len()
        invariant
            i <= manifest@.len(),
            name_paths(out@) == firmware_list(manifest@.take(i as int)),
        decreases manifest@.len() - i,
    {
        let (name, entry) = manifest.entry(i);
        assert(manifest@.take(i + 1).drop_last() =~= manifest@.take(i as int));
        assert(manifest@.take(i + 1).last() == manifest@[i as int]);
        if let PlistValue::Dictionary(e) = entry {
            if let Some(PlistValue::Dictionary(info)) = e.get("Info") {
                let fw = is_flag_set(info.get("IsFirmwarePayload"));
                let secondary = is_flag_set(info.get("IsSecondaryFirmwarePayload"));
                let iboot = is_flag_set(info.get("IsLoadedByiBoot"));
                if fw || (secondary && iboot) {
                    if let Some(PlistValue::String(path)) = info.get("Path") {
                        let ghost before = out@;
                        out.push((name.clone(), path.clone()));
                        assert(name_paths(out@) =~= name_paths(before).push((name@, path@)));
                    }
                }
            }
        }
        i = i + 1;
    }
    assert(manifest@.take(manifest@.len() as int) =~= manifest@);
    out
}

// ---------------------------------------------------------------------------
// Proxied requests
// ---------------------------------------------------------------------------

/// An HTTP request the host makes for the device.
#[derive(Debug)]
pub struct ProxyRequest {
    /// The URL.
    pub url: String,
    /// The body, for a POST.
    pub body: Vec<u8>,
    /// Extra headers, in order.
    pub headers: Vec<(String, String)>,
}

/// The string-valued entries of a dictionary, in order.
pub open spec fn string_entries(es: Seq<(Seq<char>, PlistView)>) -> Seq<(Seq<char>, Seq<char>)>
    decreases es.len(),
{
    if es.len() == 0 {
        Seq::empty()
    } else {
        match es.last().1 {
            PlistView::String(s) => string_entries(es.drop_last()).push((es.last().0, s)),
            _ => string_entries(es.drop_last()),
        }
    }
}

/// Why a proxied request cannot be made: the message lacks `Arguments` or
/// its `RequestURL`.
pub open spec fn proxy_failure(message: Seq<(Seq<char>, PlistView)>) -> Option<Seq<char>> {
    match view_dict(lookup(message, "Arguments"@)) {
        None => Some("Arguments"@),
        Some(args) => match view_string(lookup(args, "RequestURL"@)) {
            None => Some("RequestURL"@),
            Some(_) => None,
        },
    }
}

/// The request's URL, body and headers, from the message's `Arguments`:
/// `RequestURL`, `RequestBody` data (empty when absent) and the string
/// entries of `RequestAdditionalHeaders`.
fn proxy_request(message: &PlistDict) -> (r: Result<ProxyRequest, IdeviceError>)
    ensures
        match proxy_failure(message@) {
            Some(field) => r matches Err(IdeviceError::Restore(RestoreError::MissingField(m)))
                && m@ == field,
            None => r matches Ok(q) && {
                let args = view_dict(lookup(message@, "Arguments"@))->0;
                &&& q.url@ == view_string(lookup(args, "RequestURL"@))->0
                &&& q.body@ == match view_data(lookup(args, "RequestBody"@)) {
                    Some(b) => b,
                    None => Seq::empty(),
                }
                &&& name_paths(q.headers@) == match view_dict(
                    lookup(args, "RequestAdditionalHeaders"@),
                ) {
                    Some(h) => string_entries(h),
                    None => Seq::empty(),
                }
            },
        },
{
    let args = match message.get("Arguments") {
        Some(PlistValue::Dictionary(a)) => a,
        _ => return Err(
            IdeviceError::Restore(RestoreError::MissingField(String::from_str("Arguments"))),
        ),
    };
    let url = match args.get("RequestURL") {
        Some(PlistValue::String(u)) => u.clone(),
        _ => return Err(
            IdeviceError::Restore(RestoreError::MissingField(String::from_str("RequestURL"))),
        ),
    };
    let body = match args.get("RequestBody") {
        Some(PlistValue::Data(b)) => vstd::slice::slice_to_vec(b.as_slice()),
        _ => Vec::new(),
    };
    let mut headers: Vec<(String, String)> = Vec::new();
    if let Some(PlistValue::Dictionary(h)) = args.get("RequestAdditionalHeaders") {
        let mut i: usize = 0;
        while i < h.len()
            invariant
                i <= h@.len(),
                name_paths(headers@) == string_entries(h@.take(i as int)),
            decreases h@.len() - i,
        {
            let (k, v) = h.entry(i);
            assert(h@.take(i + 1).drop_last() =~= h@.take(i as int));
            assert(h@.take(i + 1).last() == h@[i as int]);
            if let PlistValue::String(s) = v {
                let ghost before = headers@;
                headers.push((k.clone(), s.clone()));
                assert(name_paths(headers@) =~= name_paths(before).push((k@, s@)));
            }
            i = i + 1;
        }
        assert(h@.take(h@.len() as int) =~= h@);
    } else {
        assert(name_paths(headers@) =~= Seq::<(Seq<char>, Seq<char>)>::empty());
    }
    Ok(ProxyRequest { url, body, headers })
}

/// The POST the host makes for a streamed image decryption key request.
///
/// Fails with a missing-field error when the message has no `Arguments`
/// dictionary or no `RequestURL` string.
pub fn streamed_key_request(message: &PlistDict) -> (r: Result<ProxyRequest, IdeviceError>)
    ensures
        match proxy_failure(message@) {
            Some(field) => r matches Err(IdeviceError::Restore(RestoreError::MissingField(m)))
                && m@ == field,
            None => r matches Ok(q) && {
                let args = view_dict(lookup(message@, "Arguments"@))->0;
                &&& q.url@ == view_string(lookup(args, "RequestURL"@))->0
                &&& q.body@ == match view_data(lookup(args, "RequestBody"@)) {
                    Some(b) => b,
                    None => Seq::empty(),
                }
                &&& name_paths(q.headers@) == match view_dict(
                    lookup(args, "RequestAdditionalHeaders"@),
                ) {
                    Some(h) => string_entries(h),
                    None => Seq::empty(),
                }
            },
        },
{
    proxy_request(message)
}

/// The URL the host fetches for a URL asset request.
///
/// Fails with a missing-field error when the message has no `Arguments`
/// dictionary or no `RequestURL` string.
pub fn url_asset_request(message: &PlistDict) -> (r: Result<String, IdeviceError>)
    ensures
        match proxy_failure(message@) {
            Some(field) => r matches Err(IdeviceError::Restore(RestoreError::MissingField(m)))
                && m@ == field,
            None => r matches Ok(u) && u@ == view_string(
                lookup(view_dict(lookup(message@, "Arguments"@))->0, "RequestURL"@),
            )->0,
        },
{
    match proxy_request(message) {
        Ok(q) => Ok(q.url),
        Err(e) => Err(e),
    }
}


// ---------------------------------------------------------------------------
// Personalized image data
// ---------------------------------------------------------------------------

/// Which manifest images a personalized-data request asks for.
#[derive(Debug)]
pub struct ImagePlan {
    /// Whether the request wants the list of images, not their data.
    pub want_list: bool,
    /// The one image the request names, if it names one.
    pub image_name: Option<String>,
    /// The images to list or to personalize, in manifest order.
    pub components: Vec<String>,
}

/// The image a request names, with an `Ap` name made `Ap,` when only that
/// form is in the manifest.
pub open spec fn requested_image(
    name: Option<Seq<char>>,
    want_list: bool,
    manifest: Seq<(Seq<char>, PlistView)>,
) -> Option<Seq<char>> {
    match name {
        Some(n) => if !want_list && lookup(manifest, n) is None && has_prefix(n, "Ap"@) && lookup(
            manifest,
            "Ap,"@ + n.skip(2),
        ) is Some {
            Some("Ap,"@ + n.skip(2))
        } else {
            Some(n)
        },
        None => None,
    }
}

/// The manifest images of a type: those whose `Info` sets the type flag;
/// when one image is named (and no list is wanted), only that one.
pub open spec fn typed_images(
    manifest: Seq<(Seq<char>, PlistView)>,
    type_key: Seq<char>,
    want_list: bool,
    name: Option<Seq<char>>,
) -> Seq<Seq<char>>
    decreases manifest.len(),
{
    if manifest.len() == 0 {
        Seq::empty()
    } else {
        let prev = typed_images(manifest.drop_last(), type_key, want_list, name);
        let (component, entry) = manifest.last();
        if flag_set(opt_get(opt_get(Some(entry), "Info"@), type_key)) && (want_list || match name {
            Some(n) => n == component,
            None => true,
        }) {
            prev.push(component)
        } else {
            prev
        }
    }
}

/// Why a personalized-data request cannot be planned.
pub enum PlanFault {
    /// No type flag is given and the request has no `ImageType`.
    NoImageType,
    /// The build identity has no `Manifest`.
    NoManifest,
}

/// What an image plan is, or why there is none: the type flag (given, or
/// the request's `ImageType`) and the build identity's `Manifest` must be
/// there.
pub open spec fn image_plan_of(
    message: Seq<(Seq<char>, PlistView)>,
    identity: Seq<(Seq<char>, PlistView)>,
    list_key: Seq<char>,
    flag: Option<Seq<char>>,
) -> Result<(bool, Option<Seq<char>>, Seq<Seq<char>>), PlanFault> {
    let args = lookup(message, "Arguments"@);
    let want_list = flag_set(opt_get(args, list_key));
    let type_key = match flag {
        Some(k) => Some(k),
        None => view_string(opt_get(args, "ImageType"@)),
    };
    match type_key {
        None => Err(PlanFault::NoImageType),
        Some(t) => match view_dict(lookup(identity, "Manifest"@)) {
            None => Err(PlanFault::NoManifest),
            Some(m) => {
                let name = requested_image(view_string(opt_get(args, "ImageName"@)), want_list, m);
                Ok((want_list, name, typed_images(m, t, want_list, name)))
            },
        },
    }
}

/// The views of names.
pub open spec fn name_views(v: Seq<String>) -> Seq<Seq<char>> {
    v.map_values(|x: String| x@)
}

/// Plans a personalized-data request (`FUDData`, `PersonalizedData`,
/// `EANData`): whether a list is wanted, which image is named, and which
/// manifest images of the type to list or personalize.
///
/// Fails with a missing-field error when no type flag is given and the
/// request has no `ImageType`, and with a bad-build-manifest error when the
/// build identity has no `Manifest`.
pub fn image_data_plan(
    message: &PlistDict,
    build_identity: &PlistDict,
    list_key: &str,
    flag: Option<&str>,
) -> (r: Result<ImagePlan, IdeviceError>)
    ensures
        match image_plan_of(
            message@,
            build_identity@,
            list_key@,
            match flag {
                Some(f) => Some(f@),
                None => None,
            },
        ) {
            Ok((want, name, images)) => r matches Ok(p) && p.want_list == want && match p.image_name {
                Some(n) => name == Some(n@),
                None => name is None,
            } && name_views(p.components@) == images,
            Err(PlanFault::NoImageType) => r matches Err(
                IdeviceError::Restore(RestoreError::MissingField(m)),
            ) && m@ == "ImageType"@,
            Err(PlanFault::NoManifest) => r matches Err(IdeviceError::BadBuildManifest),
        },
{
    let args = crate::plist::dict_of(message.get("Arguments"));
    let want_list = match crate::plist::get_in(args, list_key) {
        Some(v) => is_truthy(v),
        None => false,
    };
    let type_key: &str = match flag {
        Some(k) => k,
        None => match crate::plist::get_in(args, "ImageType") {
            Some(PlistValue::String(t)) => t.as_str(),
            _ => return Err(
                IdeviceError::Restore(RestoreError::MissingField(String::from_str("ImageType"))),
            ),
        },
    };
    let manifest = match build_identity.get("Manifest") {
        Some(PlistValue::Dictionary(m)) => m,
        _ => return Err(IdeviceError::BadBuildManifest),
    };
    let mut image_name: Option<String> = match crate::plist::get_in(args, "ImageName") {
        Some(PlistValue::String(n)) => Some(n.clone()),
        _ => None,
    };
    if let Some(n) = &image_name {
        proof {
            reveal_strlit("Ap");
        }
        if !want_list && !manifest.contains_key(n.as_str()) && str_starts_with(n.as_str(), "Ap") {
            let len = n.as_str().unicode_len();
            let mut fixed = String::from_str("Ap,");
            fixed.append(n.as_str().substring_char(2, len));
            proof {
                reveal_strlit("Ap");
            }
            assert(n@.skip(2) =~= n@.subrange(2, len as int));
            if manifest.contains_key(fixed.as_str()) {
                image_name = Some(fixed);
            }
        }
    }
    let ghost name_view = match &image_name {
        Some(n) => Some(n@),
        None => None,
    };
    let mut components: Vec<String> = Vec::new();
    let mut i: usize = 0;
    while i < manifest.len()
        invariant
            i <= manifest@.len(),
            name_view == match image_name {
                Some(n) => Some(n@),
                None => None::<Seq<char>>,
            },
            name_views(components@) == typed_images(manifest@.take(i as int), type_key@, want_list, name_view),
        decreases manifest@.len() - i,
    {
        let (component, entry) = manifest.entry(i);
        assert(manifest@.take(i + 1).drop_last() =~= manifest@.take(i as int));
        assert(manifest@.take(i + 1).last() == manifest@[i as int]);
        let info = crate::plist::dict_of(crate::plist::get_in(crate::plist::dict_of(Some(entry)), "Info"));
        let is_type = match crate::plist::get_in(info, type_key) {
            Some(v) => is_truthy(v),
            None => false,
        };
        let selected = want_list || match &image_name {
            Some(n) => *n == *component,
            None => true,
        };
        if is_type && selected {
            let ghost before = components@;
            components.push(component.clone());
            assert(name_views(components@) =~= name_views(before).push(component@));
        }
        i = i + 1;
    }
    assert(manifest@.take(manifest@.len() as int) =~= manifest@);
    Ok(ImagePlan { want_list, image_name, components })
}

/// The views of named data.
pub open spec fn named_data(v: Seq<(String, Vec<u8>)>) -> Seq<(Seq<char>, PlistView)> {
    v.map_values(|p: (String, Vec<u8>)| (p.0@, PlistView::Data(p.1@)))
}

/// The reply to a personalized-data request: the list of images; or, for a
/// named image, its data (when it was personalized) and its name; or the
/// data of every image by name.
pub open spec fn image_data_reply_entries(
    want_list: bool,
    name: Option<Seq<char>>,
    components: Seq<Seq<char>>,
    data: Seq<(Seq<char>, PlistView)>,
    list_key: Seq<char>,
    data_key: Seq<char>,
) -> Seq<(Seq<char>, PlistView)> {
    if want_list {
        seq![(list_key, PlistView::Array(components.map_values(|c: Seq<char>| PlistView::String(c))))]
    } else {
        match name {
            Some(n) => match lookup(dict_from(data), n) {
                Some(d) => inserted(seq![(data_key, d)], "ImageName"@, PlistView::String(n)),
                None => seq![("ImageName"@, PlistView::String(n))],
            },
            None => seq![(data_key, PlistView::Dictionary(dict_from(data)))],
        }
    }
}

/// The dictionary of named data, inserted in order.
fn named_data_dict(data: Vec<(String, Vec<u8>)>) -> (r: PlistDict)
    ensures
        r@ == dict_from(named_data(data@)),
{
    let ghost all = named_data(data@);
    let mut d = PlistDict::new();
    let mut data = data;
    let ghost items = data@;
    let n = data.len();
    let mut i: usize = 0;
    while i < n
        invariant
            n == items.len(),
            i <= n,
            all == named_data(items),
            data@ =~= items.skip(i as int),
            d@ == dict_from(all.take(i as int)),
        decreases n - i,
    {
        let (name, bytes) = data.remove(0);
        assert(data@ =~= items.skip(i + 1));
        assert(all.take(i + 1).drop_last() =~= all.take(i as int));
        d.insert(name, PlistValue::Data(bytes));
        i = i + 1;
    }
    assert(all.take(n as int) =~= all);
    d
}

/// Builds the reply to a personalized-data request from its plan and the
/// personalized data of the planned images.
pub fn image_data_reply(
    plan: ImagePlan,
    personalized: Vec<(String, Vec<u8>)>,
    list_key: &str,
    data_key: &str,
) -> (r: PlistDict)
    ensures
        r@ == image_data_reply_entries(
            plan.want_list,
            match plan.image_name {
                Some(n) => Some(n@),
                None => None,
            },
            name_views(plan.components@),
            named_data(personalized@),
            list_key@,
            data_key@,
        ),
{
    let mut reply = PlistDict::new();
    if plan.want_list {
        let ghost names = name_views(plan.components@);
        let mut items: Vec<PlistValue> = Vec::new();
        let mut components = plan.components;
        let ghost all = components@;
        let n = components.len();
        let mut i: usize = 0;
        while i < n
            invariant
                n == all.len(),
                i <= n,
                names == name_views(all),
                components@ =~= all.skip(i as int),
                view_values(items@) == names.take(i as int).map_values(|c: Seq<char>| PlistView::String(c)),
            decreases n - i,
        {
            let c = components.remove(0);
            assert(c == all[i as int]);
            assert(c@ == names[i as int]);
            assert(components@ =~= all.skip(i + 1));
            let ghost before = items@;
            items.push(PlistValue::String(c));
            assert(view_values(items@) =~= view_values(before).push(PlistView::String(names[i as int])));
            assert(view_values(items@) =~= names.take(i + 1).map_values(|c: Seq<char>| PlistView::String(c)));
            i = i + 1;
        }
        assert(names.take(n as int) =~= names);
        reply.insert(String::from_str(list_key), PlistValue::Array(items));
        assert(reply@ =~= seq![(list_key@, PlistView::Array(names.map_values(|c: Seq<char>| PlistView::String(c))))]);
        return reply;
    }
    let data = named_data_dict(personalized);
    match plan.image_name {
        Some(name) => {
            let ghost nv = name@;
            if let Some(d) = data.get(name.as_str()) {
                reply.insert(String::from_str(data_key), d.deep_clone());
                assert(reply@ =~= seq![(data_key@, d@)]);
            } else {
                assert(reply@ =~= Seq::<(Seq<char>, PlistView)>::empty());
            }
            reply.insert(String::from_str("ImageName"), PlistValue::String(name));
            proof {
                if lookup(data@, nv) is None {
                    assert(reply@ =~= seq![("ImageName"@, PlistView::String(nv))]);
                }
            }
            reply
        },
        None => {
            reply.insert(String::from_str(data_key), PlistValue::Dictionary(data));
            assert(reply@ =~= seq![(data_key@, PlistView::Dictionary(dict_from(named_data(personalized@))))]);
            reply
        },
    }
}


// ---------------------------------------------------------------------------
// NOR data
// ---------------------------------------------------------------------------

/// What a NOR data reply is made of.
#[derive(Debug)]
pub struct NorPlan {
    /// Whether the device asks for the version-1 layout (images by name).
    pub flash_version_1: bool,
    /// The LLB's IPSW path.
    pub llb_path: String,
    /// The firmware images other than the LLB and the restore SEP: name and
    /// path, in manifest order.
    pub images: Vec<(String, String)>,
    /// The SEP images the build identity has: component, reply key and
    /// path.
    pub seps: Vec<(String, String, String)>,
}

/// The firmware images of a NOR reply: all but the LLB and the restore SEP.
pub open spec fn nor_images(fw: Seq<(Seq<char>, Seq<char>)>) -> Seq<(Seq<char>, Seq<char>)>
    decreases fw.len(),
{
    if fw.len() == 0 {
        Seq::empty()
    } else if fw.last().0 == "LLB"@ || fw.last().0 == "RestoreSEP"@ {
        nor_images(fw.drop_last())
    } else {
        nor_images(fw.drop_last()).push(fw.last())
    }
}

/// The SEP images of a NOR reply: of `RestoreSEP`, `SEP` and `SepStage1`
/// (sent as `SEPPatch`), those with a path.
pub open spec fn nor_seps(identity: Seq<(Seq<char>, PlistView)>) -> Seq<(Seq<char>, Seq<char>, Seq<char>)> {
    let a = match component_path_of(identity, "RestoreSEP"@) {
        Some(p) => seq![("RestoreSEP"@, "RestoreSEP"@, p)],
        None => Seq::empty(),
    };
    let b = match component_path_of(identity, "SEP"@) {
        Some(p) => seq![("SEP"@, "SEP"@, p)],
        None => Seq::empty(),
    };
    let c = match component_path_of(identity, "SepStage1"@) {
        Some(p) => seq![("SepStage1"@, "SEPPatch"@, p)],
        None => Seq::empty(),
    };
    a + b + c
}

/// The views of SEP entries.
pub open spec fn sep_views(v: Seq<(String, String, String)>) -> Seq<(Seq<char>, Seq<char>, Seq<char>)> {
    v.map_values(|t: (String, String, String)| (t.0@, t.1@, t.2@))
}

/// Plans a NOR data reply: the version-1 flag from the request, the LLB's
/// path, the other firmware images and the SEP images.
///
/// Fails with a component-not-found error when the build identity has no
/// LLB path.
pub fn nor_plan(message: &PlistDict, build_identity: &PlistDict) -> (r: Result<NorPlan, IdeviceError>)
    ensures
        match component_path_of(build_identity@, "LLB"@) {
            None => r matches Err(IdeviceError::Restore(RestoreError::ComponentNotFound(c))) && c@
                == "LLB"@,
            Some(llb) => r matches Ok(p) && p.llb_path@ == llb && p.flash_version_1 == flag_set(
                opt_get(lookup(message@, "Arguments"@), "FlashVersion1"@),
            ) && name_paths(p.images@) == nor_images(
                match view_dict(lookup(build_identity@, "Manifest"@)) {
                    Some(m) => firmware_list(m),
                    None => Seq::empty(),
                },
            ) && sep_views(p.seps@) == nor_seps(build_identity@),
        },
{
    let args = crate::plist::dict_of(message.get("Arguments"));
    let flash_version_1 = match crate::plist::get_in(args, "FlashVersion1") {
        Some(v) => is_truthy(v),
        None => false,
    };
    let llb_path = match component_path(build_identity, "LLB") {
        Ok(p) => p,
        Err(e) => return Err(e),
    };
    let firmware = firmware_components(build_identity);
    let ghost fw = name_paths(firmware@);
    let mut images: Vec<(String, String)> = Vec::new();
    let mut i: usize = 0;
    while i < firmware.len()
        invariant
            i <= firmware@.len(),
            fw == name_paths(firmware@),
            name_paths(images@) == nor_images(fw.take(i as int)),
        decreases firmware@.len() - i,
    {
        assert(fw.take(i + 1).drop_last() =~= fw.take(i as int));
        assert(fw.take(i + 1).last() == (firmware@[i as int].0@, firmware@[i as int].1@));
        let name = firmware[i].0.as_str();
        if !str_equal(name, "LLB") && !str_equal(name, "RestoreSEP") {
            let ghost before = images@;
            images.push((firmware[i].0.clone(), firmware[i].1.clone()));
            assert(name_paths(images@) =~= name_paths(before).push(fw[i as int]));
        }
        i = i + 1;
    }
    assert(fw.take(firmware@.len() as int) =~= fw);
    let mut seps: Vec<(String, String, String)> = Vec::new();
    let ghost s0 = sep_views(seps@);
    if let Ok(p) = component_path(build_identity, "RestoreSEP") {
        seps.push((String::from_str("RestoreSEP"), String::from_str("RestoreSEP"), p));
    }
    let ghost s1 = sep_views(seps@);
    if let Ok(p) = component_path(build_identity, "SEP") {
        seps.push((String::from_str("SEP"), String::from_str("SEP"), p));
    }
    let ghost s2 = sep_views(seps@);
    if let Ok(p) = component_path(build_identity, "SepStage1") {
        seps.push((String::from_str("SepStage1"), String::from_str("SEPPatch"), p));
    }
    assert(sep_views(seps@) =~= nor_seps(build_identity@));
    Ok(NorPlan { flash_version_1, llb_path, images, seps })
}

/// The NOR images in the array layout: iBoot images go to the front (each
/// before the ones already there), the others to the back.
pub open spec fn iboot_first(images: Seq<(Seq<char>, PlistView)>) -> Seq<PlistView>
    decreases images.len(),
{
    if images.len() == 0 {
        Seq::empty()
    } else if has_prefix(images.last().0, "iBoot"@) {
        seq![images.last().1] + iboot_first(images.drop_last())
    } else {
        iboot_first(images.drop_last()).push(images.last().1)
    }
}

/// The entries of a NOR data reply: the LLB, the images (by name for the
/// version-1 layout, else in the array layout), then each SEP image under
/// its key followed by `ImageData`.
pub open spec fn nor_reply_entries(
    llb: Seq<u8>,
    images: Seq<(Seq<char>, PlistView)>,
    flash_version_1: bool,
    seps: Seq<(Seq<char>, PlistView)>,
) -> Seq<(Seq<char>, PlistView)> {
    let e = seq![
        ("LlbImageData"@, PlistView::Data(llb)),
        (
            "NorImageData"@,
            if flash_version_1 {
                PlistView::Dictionary(dict_from(images))
            } else {
                PlistView::Array(iboot_first(images))
            },
        ),
    ];
    dict_from(e + seps.map_values(|p: (Seq<char>, PlistView)| (p.0 + "ImageData"@, p.1)))
}

/// Builds a NOR data reply from the personalized LLB, firmware images and
/// SEP images (each SEP image by its reply key).
pub fn nor_reply(
    llb: Vec<u8>,
    images: Vec<(String, Vec<u8>)>,
    flash_version_1: bool,
    seps: Vec<(String, Vec<u8>)>,
) -> (r: PlistDict)
    ensures
        r@ == nor_reply_entries(llb@, named_data(images@), flash_version_1, named_data(seps@)),
{
    let ghost iv = named_data(images@);
    let nor = if flash_version_1 {
        PlistValue::Dictionary(named_data_dict(images))
    } else {
        let mut arr: Vec<PlistValue> = Vec::new();
        let mut images = images;
        let ghost all = images@;
        let n = images.len();
        let mut i: usize = 0;
        while i < n
            invariant
                n == all.len(),
                i <= n,
                iv == named_data(all),
                images@ =~= all.skip(i as int),
                view_values(arr@) == iboot_first(iv.take(i as int)),
            decreases n - i,
        {
            let (name, bytes) = images.remove(0);
            assert(images@ =~= all.skip(i + 1));
            assert(iv.take(i + 1).drop_last() =~= iv.take(i as int));
            assert(iv.take(i + 1).last() == (name@, PlistView::Data(bytes@)));
            let ghost before = view_values(arr@);
            if str_starts_with(name.as_str(), "iBoot") {
                arr.insert(0, PlistValue::Data(bytes));
                assert(view_values(arr@) =~= seq![PlistView::Data(iv[i as int].1->Data_0)] + before);
            } else {
                arr.push(PlistValue::Data(bytes));
                assert(view_values(arr@) =~= before.push(iv[i as int].1));
            }
            i = i + 1;
        }
        assert(iv.take(n as int) =~= iv);
        PlistValue::Array(arr)
    };
    let mut pairs: Vec<(String, PlistValue)> = Vec::new();
    pairs.push((String::from_str("LlbImageData"), PlistValue::Data(llb)));
    pairs.push((String::from_str("NorImageData"), nor));
    let ghost head = pairs@.map_values(|p: (String, PlistValue)| (p.0@, p.1@));
    let ghost sv = named_data(seps@);
    let mut seps = seps;
    let ghost all = seps@;
    let n = seps.len();
    let mut i: usize = 0;
    while i < n
        invariant
            n == all.len(),
            i <= n,
            sv == named_data(all),
            seps@ =~= all.skip(i as int),
            pairs@.map_values(|p: (String, PlistValue)| (p.0@, p.1@)) == head + sv.take(i as int).map_values(
                |p: (Seq<char>, PlistView)| (p.0 + "ImageData"@, p.1),
            ),
        decreases n - i,
    {
        let pair = seps.remove(0);
        assert(pair == all[i as int]);
        let (key, bytes) = pair;
        assert(sv[i as int] == (key@, PlistView::Data(bytes@)));
        assert(seps@ =~= all.skip(i + 1));
        let mut k = key;
        k.append("ImageData");
        let ghost before = pairs@;
        let ghost entry = (k@, PlistView::Data(bytes@));
        pairs.push((k, PlistValue::Data(bytes)));
        assert(pairs@.map_values(|p: (String, PlistValue)| (p.0@, p.1@)) =~= before.map_values(
            |p: (String, PlistValue)| (p.0@, p.1@),
        ).push(entry));
        assert(sv.take(i + 1) =~= sv.take(i as int).push(sv[i as int]));
        assert(pairs@.map_values(|p: (String, PlistValue)| (p.0@, p.1@)) =~= head + sv.take(i + 1).map_values(
            |p: (Seq<char>, PlistView)| (p.0 + "ImageData"@, p.1),
        ));
        i = i + 1;
    }
    assert(sv.take(n as int) =~= sv);
    let r = string_pairs_dict(pairs);
    assert(head =~= seq![
        ("LlbImageData"@, PlistView::Data(llb@)),
        (
            "NorImageData"@,
            if flash_version_1 {
                PlistView::Dictionary(dict_from(iv))
            } else {
                PlistView::Array(iboot_first(iv))
            },
        ),
    ]);
    r
}

/// The dictionary of key and value pairs, inserted in order.
fn string_pairs_dict(pairs: Vec<(String, PlistValue)>) -> (r: PlistDict)
    ensures
        r@ == dict_from(pairs@.map_values(|p: (String, PlistValue)| (p.0@, p.1@))),
{
    let ghost all_v = pairs@.map_values(|p: (String, PlistValue)| (p.0@, p.1@));
    let mut d = PlistDict::new();
    let mut pairs = pairs;
    let ghost all = pairs@;
    let n = pairs.len();
    let mut i: usize = 0;
    while i < n
        invariant
            n == all.len(),
            i <= n,
            all_v == all.map_values(|p: (String, PlistValue)| (p.0@, p.1@)),
            pairs@ =~= all.skip(i as int),
            d@ == dict_from(all_v.take(i as int)),
        decreases n - i,
    {
        let (k, v) = pairs.remove(0);
        assert(pairs@ =~= all.skip(i + 1));
        assert(all_v.take(i + 1).drop_last() =~= all_v.take(i as int));
        d.insert(k, v);
        i = i + 1;
    }
    assert(all_v.take(n as int) =~= all_v);
    d
}


// ---------------------------------------------------------------------------
// Boot objects, ports and small replies
// ---------------------------------------------------------------------------

/// The size of the file chunks a boot object is sent in.
pub const FILE_CHUNK_SIZE: usize = 8192;

/// The port of the filesystem transfer when a request names none.
pub const ASR_DEFAULT_PORT: u16 = 12345;

/// The data port a request names: its `DataPort` integer's low 16 bits.
pub open spec fn data_port_of(message: Seq<(Seq<char>, PlistView)>) -> Option<u16> {
    match crate::plist::view_unsigned(lookup(message, "DataPort"@)) {
        Some(p) => Some((p % 0x1_0000) as u16),
        None => None,
    }
}

/// The data port a request names, if any (a reply goes there instead of
/// to `restored`).
pub fn data_port(message: &PlistDict) -> (r: Option<u16>)
    ensures
        r == data_port_of(message@),
{
    match message.get("DataPort") {
        Some(v) => match v.as_unsigned_integer() {
            Some(p) => Some((p % 0x1_0000) as u16),
            None => None,
        },
        None => None,
    }
}

/// The port the filesystem transfer uses: the request's, else the default.
pub fn filesystem_port(message: &PlistDict) -> (r: u16)
    ensures
        r == match data_port_of(message@) {
            Some(p) => p,
            None => ASR_DEFAULT_PORT,
        },
{
    match data_port(message) {
        Some(p) => p,
        None => ASR_DEFAULT_PORT,
    }
}

/// Where a boot object's bytes come from.
#[derive(Debug, Clone, Copy)]
pub enum BootObjectSource {
    /// A file of the IPSW read as it is.
    File(&'static str),
    /// The named component, personalized.
    Personalized,
    /// The named component, streamed as it is.
    Streamed,
}

/// How a boot object request is answered.
#[derive(Debug)]
pub struct BootObjectPlan {
    /// The requested image.
    pub image_name: String,
    /// The data port to send it to, if the request names one.
    pub port: Option<u16>,
    /// Where its bytes come from.
    pub source: BootObjectSource,
}

/// Plans the answer to a boot object request: `__RestoreVersion__` and
/// `__SystemVersion__` are their IPSW files; source boot objects (`aea`)
/// are streamed; anything else is personalized.
///
/// Fails with a missing-field error without an `ImageName`, and with an
/// unsupported error for `__GlobalManifest__`.
pub fn boot_object_plan(message: &PlistDict, handle_aea: bool) -> (r: Result<BootObjectPlan, IdeviceError>)
    ensures
        match view_string(opt_get(lookup(message@, "Arguments"@), "ImageName"@)) {
            None => r matches Err(IdeviceError::Restore(RestoreError::MissingField(m))) && m@
                == "ImageName"@,
            Some(name) => if name == "__GlobalManifest__"@ {
                r matches Err(IdeviceError::Restore(RestoreError::Unsupported(m))) && m@
                    == "__GlobalManifest__ (macOS)"@
            } else {
                r matches Ok(p) && p.image_name@ == name && p.port == data_port_of(message@) && if name
                    == "__RestoreVersion__"@ {
                    p.source matches BootObjectSource::File(f) && f@ == "RestoreVersion.plist"@
                } else if name == "__SystemVersion__"@ {
                    p.source matches BootObjectSource::File(f) && f@ == "SystemVersion.plist"@
                } else if handle_aea {
                    p.source is Streamed
                } else {
                    p.source is Personalized
                }
            },
        },
{
    let args = crate::plist::dict_of(message.get("Arguments"));
    let image_name = match crate::plist::get_in(args, "ImageName") {
        Some(PlistValue::String(n)) => n.clone(),
        _ => return Err(
            IdeviceError::Restore(RestoreError::MissingField(String::from_str("ImageName"))),
        ),
    };
    let port = data_port(message);
    let n = image_name.as_str();
    if str_equal(n, "__GlobalManifest__") {
        return Err(
            IdeviceError::Restore(
                RestoreError::Unsupported(String::from_str("__GlobalManifest__ (macOS)")),
            ),
        );
    }
    let source = if str_equal(n, "__RestoreVersion__") {
        BootObjectSource::File("RestoreVersion.plist")
    } else if str_equal(n, "__SystemVersion__") {
        BootObjectSource::File("SystemVersion.plist")
    } else if handle_aea {
        BootObjectSource::Streamed
    } else {
        BootObjectSource::Personalized
    };
    Ok(BootObjectPlan { image_name, port, source })
}

/// The reply to a build identity request: the identity and the requested
/// `Variant` (`Erase` when the request names none).
pub fn build_identity_reply(message: &PlistDict, build_identity: &PlistDict) -> (r: PlistDict)
    ensures
        r@ == dict_from(
            seq![
                ("BuildIdentityDict"@, PlistView::Dictionary(build_identity@)),
                (
                    "Variant"@,
                    PlistView::String(
                        match view_string(opt_get(lookup(message@, "Arguments"@), "Variant"@)) {
                            Some(v) => v,
                            None => "Erase"@,
                        },
                    ),
                ),
            ],
        ),
{
    let args = crate::plist::dict_of(message.get("Arguments"));
    let variant = match crate::plist::get_in(args, "Variant") {
        Some(PlistValue::String(v)) => v.clone(),
        _ => String::from_str("Erase"),
    };
    let pairs = vec![
        (String::from_str("BuildIdentityDict"), PlistValue::Dictionary(build_identity.deep_clone())),
        (String::from_str("Variant"), PlistValue::String(variant)),
    ];
    let ghost pv = pairs@.map_values(|p: (String, PlistValue)| (p.0@, p.1@));
    let r = string_pairs_dict(pairs);
    assert(pv =~= seq![
        ("BuildIdentityDict"@, PlistView::Dictionary(build_identity@)),
        (
            "Variant"@,
            PlistView::String(
                match view_string(opt_get(lookup(message@, "Arguments"@), "Variant"@)) {
                    Some(v) => v,
                    None => "Erase"@,
                },
            ),
        ),
    ]);
    r
}

/// The reply to a root ticket request: the ticket.
///
/// Fails when there is no ticket.
pub fn root_ticket_reply(ticket: &[u8]) -> (r: Result<PlistDict, IdeviceError>)
    ensures
        ticket@.len() == 0 ==> (r matches Err(IdeviceError::Restore(RestoreError::Other(m))) && m@
            == "cannot send RootTicket without a TSS ticket"@),
        ticket@.len() > 0 ==> (r matches Ok(d) && d@ == seq![("RootTicketData"@, PlistView::Data(ticket@))]),
{
    if ticket.len() == 0 {
        return Err(
            IdeviceError::Restore(
                RestoreError::Other(String::from_str("cannot send RootTicket without a TSS ticket")),
            ),
        );
    }
    let mut d = PlistDict::new();
    d.insert(String::from_str("RootTicketData"), PlistValue::Data(vstd::slice::slice_to_vec(ticket)));
    assert(d@ =~= seq![("RootTicketData"@, PlistView::Data(ticket@))]);
    Ok(d)
}

/// The reply carrying a personalized component: its data under the reply
/// name followed by `File`.
pub fn component_reply(reply_name: &str, data: Vec<u8>) -> (r: PlistDict)
    ensures
        r@ == seq![(reply_name@ + "File"@, PlistView::Data(data@))],
{
    let mut key = String::from_str(reply_name);
    key.append("File");
    let ghost k = key@;
    let ghost d = data@;
    let mut r = PlistDict::new();
    r.insert(key, PlistValue::Data(data));
    assert(r@ =~= seq![(k, PlistView::Data(d))]);
    r
}

} // verus!
