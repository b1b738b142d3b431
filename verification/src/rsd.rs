//! Remote Service Discovery: the services a device announces in its RSD
//! handshake.
//!
//! Opening the XPC connection and receiving the root message is the caller's
//! I/O; [`RsdHandshake::from_root`] reads the message.

use vstd::prelude::*;

use crate::error::IdeviceError;
use crate::plist::{
    dict_of, get_in, keys_unique, lookup, opt_get, view_array, view_bool, view_dict, view_get, view_signed,
    view_string, PlistDict, PlistValue, PlistView,
};
use crate::text::{parse_u16, parse_u16_spec};

verus! {

/// An available XPC service.
#[derive(Debug, Clone)]
pub struct RsdService {
    /// Entitlement required to access the service.
    pub entitlement: String,
    /// Port the service is available on.
    pub port: u16,
    /// Whether the service uses remote XPC.
    pub uses_remote_xpc: bool,
    /// Supported features, when announced.
    pub features: Option<Vec<String>>,
    /// Service version, when announced.
    pub service_version: Option<i64>,
}

/// The result of an RSD handshake.
#[derive(Debug)]
pub struct RsdHandshake {
    /// The announced services, by name, in the order announced.
    pub services: Vec<(String, RsdService)>,
    /// The messaging protocol version.
    pub protocol_version: usize,
    /// The device properties, in order.
    pub properties: Vec<(String, PlistValue)>,
    /// The device UUID.
    pub uuid: String,
}

/// A service's `Properties` entry.
pub open spec fn service_properties(v: PlistView) -> Option<PlistView> {
    view_get(v, "Properties"@)
}

/// A service's port: its `Port` string, read as a 16-bit number.
pub open spec fn service_port(v: PlistView) -> Option<u16> {
    match view_string(view_get(v, "Port"@)) {
        Some(s) => parse_u16_spec(s),
        None => None,
    }
}

/// Whether an announced service is kept: a dictionary with an
/// `Entitlement` string and a `Port` string that is a 16-bit number.
pub open spec fn service_kept(v: PlistView) -> bool {
    v is Dictionary && view_string(view_get(v, "Entitlement"@)) is Some && service_port(v) is Some
}

/// The strings among some values, in order.
pub open spec fn strings_among(items: Seq<PlistView>) -> Seq<Seq<char>>
    decreases items.len(),
{
    if items.len() == 0 {
        Seq::empty()
    } else {
        let rest = strings_among(items.drop_last());
        match items.last() {
            PlistView::String(s) => rest.push(s),
            _ => rest,
        }
    }
}

/// `s` is the service that the announced `v` describes.
pub open spec fn service_of(s: RsdService, v: PlistView) -> bool {
    let props = service_properties(v);
    &&& s.entitlement@ == view_string(view_get(v, "Entitlement"@))->0
    &&& s.port == service_port(v)->0
    &&& s.uses_remote_xpc == match view_bool(opt_get(props, "UsesRemoteXPC"@)) {
        Some(b) => b,
        None => false,
    }
    &&& match view_array(opt_get(props, "Features"@)) {
        Some(items) => s.features matches Some(f) && f@.len() == strings_among(items).len() && forall|
            i: int,
        | 0 <= i < f@.len() ==> (#[trigger] f@[i])@ == strings_among(items)[i],
        None => s.features is None,
    }
    &&& s.service_version == view_signed(opt_get(props, "ServiceVersion"@))
}

/// The announced services that are kept, in order.
pub open spec fn kept_services(es: Seq<(Seq<char>, PlistView)>) -> Seq<(Seq<char>, PlistView)>
    decreases es.len(),
{
    if es.len() == 0 {
        Seq::empty()
    } else {
        let rest = kept_services(es.drop_last());
        if service_kept(es.last().1) {
            rest.push(es.last())
        } else {
            rest
        }
    }
}

/// Every kept service is one of the announced ones.
proof fn lemma_kept_from(es: Seq<(Seq<char>, PlistView)>)
    ensures
        forall|k: int|
            0 <= k < kept_services(es).len() ==> exists|j: int| 0 <= j < es.len() && #[trigger] kept_services(es)[k] == es[j],
    decreases es.len(),
{
    if es.len() > 0 {
        lemma_kept_from(es.drop_last());
        let rest = kept_services(es.drop_last());
        assert forall|k: int| 0 <= k < kept_services(es).len() implies exists|j: int|
            0 <= j < es.len() && #[trigger] kept_services(es)[k] == es[j] by {
            if k < rest.len() {
                let j = choose|j: int| 0 <= j < es.drop_last().len() && rest[k] == es.drop_last()[j];
                assert(kept_services(es)[k] == es[j]);
            } else {
                assert(kept_services(es)[k] == es[es.len() - 1]);
            }
        }
    }
}

/// Kept services of a dictionary keep its names distinct.
pub proof fn lemma_kept_unique(es: Seq<(Seq<char>, PlistView)>)
    requires
        keys_unique(es),
    ensures
        keys_unique(kept_services(es)),
    decreases es.len(),
{
    if es.len() > 0 {
        let d = es.drop_last();
        assert(keys_unique(d));
        lemma_kept_unique(d);
        lemma_kept_from(d);
        let rest = kept_services(d);
        if service_kept(es.last().1) {
            let ks = kept_services(es);
            assert forall|a: int, b: int| 0 <= a < b < ks.len() implies ks[a].0 != ks[b].0 by {
                if b == ks.len() - 1 {
                    let j = choose|j: int| 0 <= j < d.len() && #[trigger] rest[a] == d[j];
                    assert(ks[a] == d[j]);
                    assert(es[j] == d[j]);
                } else {
                    assert(ks[a] == rest[a] && ks[b] == rest[b]);
                }
            }
        }
    }
}

/// Whether a root message is one the handshake accepts: a dictionary with a
/// `Services` dictionary, a signed `MessagingProtocolVersion`, a `UUID`
/// string and a `Properties` dictionary.
pub open spec fn root_accepted(root: PlistView) -> bool {
    &&& view_dict(view_get(root, "Services"@)) is Some
    &&& view_signed(view_get(root, "MessagingProtocolVersion"@)) is Some
    &&& view_string(view_get(root, "UUID"@)) is Some
    &&& view_dict(view_get(root, "Properties"@)) is Some
}

/// The features of a service: the strings among the `Features` array.
fn features_of(props: Option<&PlistDict>) -> (r: Option<Vec<String>>)
    ensures
        match view_array(
            match props {
                Some(p) => lookup(p@, "Features"@),
                None => None,
            },
        ) {
            Some(items) => r matches Some(f) && f@.len() == strings_among(items).len() && forall|
                i: int,
            | 0 <= i < f@.len() ==> (#[trigger] f@[i])@ == strings_among(items)[i],
            None => r is None,
        },
{
    let arr = match get_in(props, "Features") {
        Some(v) => match v.as_array() {
            Some(a) => a,
            None => return None,
        },
        None => return None,
    };
    let ghost items = crate::plist::view_values(arr@);
    let mut out: Vec<String> = Vec::new();
    let mut i: usize = 0;
    while i < arr.len()
        invariant
            i <= arr@.len(),
            items == crate::plist::view_values(arr@),
            out@.len() == strings_among(items.take(i as int)).len(),
            forall|k: int|
                0 <= k < out@.len() ==> (#[trigger] out@[k])@ == strings_among(items.take(i as int))[k],
        decreases arr.len() - i,
    {
        assert(items.take(i + 1).drop_last() =~= items.take(i as int));
        assert(items[i as int] == arr@[i as int]@);
        match arr[i].as_string() {
            Some(s) => {
                out.push(s.to_owned());
            },
            None => {},
        }
        i = i + 1;
    }
    assert(items.take(i as int) =~= items);
    Some(out)
}

/// Reads one announced service.
fn read_service(v: &PlistValue) -> (r: Option<RsdService>)
    ensures
        match r {
            Some(s) => service_kept(v@) && service_of(s, v@),
            None => !service_kept(v@),
        },
{
    let service = match v.as_dictionary() {
        Some(d) => d,
        None => return None,
    };
    let entitlement = match get_in(Some(service), "Entitlement") {
        Some(e) => match e.as_string() {
            Some(s) => s.to_owned(),
            None => return None,
        },
        None => return None,
    };
    let port = match get_in(Some(service), "Port") {
        Some(p) => match p.as_string() {
            Some(s) => match parse_u16(s) {
                Some(n) => n,
                None => return None,
            },
            None => return None,
        },
        None => return None,
    };
    let props = dict_of(get_in(Some(service), "Properties"));
    let uses_remote_xpc = match get_in(props, "UsesRemoteXPC") {
        Some(b) => match b.as_boolean() {
            Some(x) => x,
            None => false,
        },
        None => false,
    };
    let features = features_of(props);
    let service_version = match get_in(props, "ServiceVersion") {
        Some(n) => n.as_signed_integer(),
        None => None,
    };
    Some(RsdService { entitlement, port, uses_remote_xpc, features, service_version })
}

impl RsdHandshake {
    /// Reads the handshake from the device's root message.
    ///
    /// Fails with an unexpected-response error unless the message is a
    /// dictionary with a `Services` dictionary, a signed
    /// `MessagingProtocolVersion`, a `UUID` string and a `Properties`
    /// dictionary. Services without an entitlement or a numeric port are
    /// skipped.
    pub fn from_root(root: &PlistValue) -> (r: Result<RsdHandshake, IdeviceError>)
        ensures
            match r {
                Ok(h) => root_accepted(root@) && {
                    let kept = kept_services(view_dict(view_get(root@, "Services"@))->0);
                    &&& h.services@.len() == kept.len()
                    &&& forall|a: int, b: int|
                        0 <= a < b < h.services@.len() ==> (#[trigger] h.services@[a]).0@ != (
                        #[trigger] h.services@[b]).0@
                    &&& forall|i: int|
                        0 <= i < kept.len() ==> (#[trigger] h.services@[i]).0@ == kept[i].0
                            && service_of(h.services@[i].1, kept[i].1)
                    &&& h.protocol_version == view_signed(
                        view_get(root@, "MessagingProtocolVersion"@),
                    )->0 as usize
                    &&& h.uuid@ == view_string(view_get(root@, "UUID"@))->0
                    &&& h.properties@.len() == view_dict(view_get(root@, "Properties"@))->0.len()
                    &&& forall|i: int|
                        0 <= i < h.properties@.len() ==> (#[trigger] h.properties@[i]).0@ == view_dict(
                            view_get(root@, "Properties"@),
                        )->0[i].0 && h.properties@[i].1@ == view_dict(
                            view_get(root@, "Properties"@),
                        )->0[i].1
                },
                Err(e) => !root_accepted(root@) && e matches IdeviceError::UnexpectedResponse,
            },
    {
        let data = root.as_dictionary();
        let services_dict = match dict_of(get_in(data, "Services")) {
            Some(d) => d,
            None => return Err(IdeviceError::UnexpectedResponse),
        };
        let ghost es = services_dict@;
        let count = services_dict.len();
        proof {
            lemma_kept_unique(es);
        }
        let mut services: Vec<(String, RsdService)> = Vec::new();
        let mut i: usize = 0;
        while i < count
            invariant
                es == services_dict@,
                count == es.len(),
                i <= es.len(),
                services@.len() == kept_services(es.take(i as int)).len(),
                forall|k: int|
                    0 <= k < services@.len() ==> (#[trigger] services@[k]).0@ == kept_services(
                        es.take(i as int),
                    )[k].0 && service_of(services@[k].1, kept_services(es.take(i as int))[k].1),
            decreases es.len() - i,
        {
            let (name, service) = services_dict.entry(i);
            assert(es.take(i + 1).drop_last() =~= es.take(i as int));
            assert(es.take(i + 1).last() == es[i as int]);
            match read_service(service) {
                Some(s) => {
                    services.push((name.clone(), s));
                },
                None => {},
            }
            i = i + 1;
        }
        assert(es.take(i as int) =~= es);
        let protocol_version = match get_in(data, "MessagingProtocolVersion") {
            Some(p) => match p.as_signed_integer() {
                Some(v) => v as usize,
                None => return Err(IdeviceError::UnexpectedResponse),
            },
            None => return Err(IdeviceError::UnexpectedResponse),
        };
        let uuid = match get_in(data, "UUID") {
            Some(u) => match u.as_string() {
                Some(s) => s.to_owned(),
                None => return Err(IdeviceError::UnexpectedResponse),
            },
            None => return Err(IdeviceError::UnexpectedResponse),
        };
        let props = match dict_of(get_in(data, "Properties")) {
            Some(d) => d,
            None => return Err(IdeviceError::UnexpectedResponse),
        };
        let ghost ps = props@;
        let mut properties: Vec<(String, PlistValue)> = Vec::new();
        let mut j: usize = 0;
        while j < props.len()
            invariant
                ps == props@,
                j <= ps.len(),
                properties@.len() == j,
                forall|k: int|
                    0 <= k < j ==> (#[trigger] properties@[k]).0@ == ps[k].0 && properties@[k].1@
                        == ps[k].1,
            decreases ps.len() - j,
        {
            let (name, value) = props.entry(j);
            properties.push((name.clone(), value.deep_clone()));
            j = j + 1;
        }
        Ok(RsdHandshake { services, protocol_version, properties, uuid })
    }

    /// The port of the service named `name`, if announced.
    pub fn service_port(&self, name: &str) -> (r: Option<u16>)
        ensures
            match r {
                Some(p) => exists|i: int|
                    0 <= i < self.services@.len() && (#[trigger] self.services@[i]).0@ == name@
                        && self.services@[i].1.port == p,
                None => forall|i: int|
                    0 <= i < self.services@.len() ==> (#[trigger] self.services@[i]).0@ != name@,
            },
    {
        let key = name.to_owned();
        let mut i: usize = 0;
        while i < self.services.len()
            invariant
                i <= self.services@.len(),
                key@ == name@,
                forall|k: int| 0 <= k < i ==> (#[trigger] self.services@[k]).0@ != name@,
            decreases self.services.len() - i,
        {
            if self.services[i].0 == key {
                return Some(self.services[i].1.port);
            }
            i = i + 1;
        }
        None
    }
}

} // verus!
