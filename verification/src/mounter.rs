//! Personalizing a developer disk image: the ticket request built from the
//! device's personalization identifiers and nonce and from the image's build
//! manifest, and the ticket read back from the signing server's reply.

use vstd::prelude::*;

use sha2::Digest;

use crate::error::IdeviceError;
use crate::plist::{
    law_lookup_inserted, inserted, lookup, opt_get, removed, view_array, view_string, view_unsigned, view_values,
    PlistDict, PlistValue, PlistView,
};
use crate::text::{parse_hex_u64_spec, parse_prefixed_hex, without_hex_prefixes};
use crate::tss::{
    ap_identifiers, apply_restore_request_rules, extract_img4_ticket, rules_applied, TSSRequest,
};
use vstd::string::StringExecFns;

verus! {

/// The board and chip IDs among the personalization identifiers: the
/// `BoardId` and `ChipID` integers, when both fit a `u64`.
pub open spec fn personalization_board_chip(ids: Seq<(Seq<char>, PlistView)>) -> Option<
    (u64, u64),
> {
    match (view_unsigned(lookup(ids, "BoardId"@)), view_unsigned(lookup(ids, "ChipID"@))) {
        (Some(b), Some(c)) => Some((b, c)),
        _ => None,
    }
}

/// Reads the board and chip IDs from the personalization identifiers.
///
/// Fails with an unexpected-response error when either is missing or not a
/// `u64` integer.
pub fn personalization_ids(identifiers: &PlistDict) -> (r: Result<(u64, u64), IdeviceError>)
    ensures
        match personalization_board_chip(identifiers@) {
            Some(p) => r == Ok::<(u64, u64), IdeviceError>(p),
            None => r == Err::<(u64, u64), IdeviceError>(IdeviceError::UnexpectedResponse),
        },
{
    let board = match identifiers.get("BoardId") {
        Some(v) => v.as_unsigned_integer(),
        None => None,
    };
    let chip = match identifiers.get("ChipID") {
        Some(v) => v.as_unsigned_integer(),
        None => None,
    };
    match (board, chip) {
        (Some(b), Some(c)) => Ok((b, c)),
        _ => Err(IdeviceError::UnexpectedResponse),
    }
}

/// A hexadecimal string field (leading `0x`s dropped).
pub open spec fn hex_string_field(v: Option<PlistView>) -> Option<u64> {
    match view_string(v) {
        Some(s) => parse_hex_u64_spec(without_hex_prefixes(s)),
        None => None,
    }
}

/// Whether a build identity is a dictionary whose `ApBoardID` and
/// `ApChipID` strings name the board and chip.
pub open spec fn disk_image_identity(id: PlistView, board_id: u64, chip_id: u64) -> bool {
    match id {
        PlistView::Dictionary(d) => hex_string_field(lookup(d, "ApBoardID"@)) == Some(board_id)
            && hex_string_field(lookup(d, "ApChipID"@)) == Some(chip_id),
        _ => false,
    }
}

/// The first build identity for the board and chip.
pub open spec fn first_disk_image_identity(ids: Seq<PlistView>, board_id: u64, chip_id: u64) -> Option<
    Seq<(Seq<char>, PlistView)>,
>
    decreases ids.len(),
{
    if ids.len() == 0 {
        None
    } else {
        match first_disk_image_identity(ids.drop_last(), board_id, chip_id) {
            Some(d) => Some(d),
            None => if disk_image_identity(ids.last(), board_id, chip_id) {
                Some(ids.last()->Dictionary_0)
            } else {
                None
            },
        }
    }
}

/// The parameters the trust-cache rules are checked against.
pub open spec fn disk_image_parameters() -> Seq<(Seq<char>, PlistView)> {
    seq![
        ("ApProductionMode"@, PlistView::Boolean(true)),
        ("ApSecurityMode"@, PlistView::Boolean(true)),
        ("ApSupportsImg4"@, PlistView::Boolean(true)),
    ]
}

/// The restore request rules of the manifest's `LoadableTrustCache`.
pub open spec fn trust_cache_rules(manifest: Seq<(Seq<char>, PlistView)>) -> Option<Seq<PlistView>> {
    view_array(opt_get(opt_get(lookup(manifest, "LoadableTrustCache"@), "Info"@), "RestoreRequestRules"@))
}

/// A manifest component's request entry: trusted dictionary components
/// that have an `Info`, without it, with the trust-cache rules applied, and
/// an empty `Digest` when the component has none.
pub open spec fn disk_image_entry(
    item: PlistView,
    rules: Option<Seq<PlistView>>,
) -> Option<Seq<(Seq<char>, PlistView)>> {
    match item {
        PlistView::Dictionary(m) => if lookup(m, "Info"@) is Some && lookup(m, "Trusted"@) == Some(
            PlistView::Boolean(true),
        ) {
            let e = removed(m, "Info"@);
            let e = match rules {
                Some(r) => rules_applied(e, disk_image_parameters(), r),
                None => e,
            };
            if lookup(m, "Digest"@) is None {
                Some(inserted(e, "Digest"@, PlistView::Data(Seq::empty())))
            } else {
                Some(e)
            }
        } else {
            None
        },
        _ => None,
    }
}

/// The entries after adding each manifest component's entry, in order.
pub open spec fn disk_image_entries(
    es: Seq<(Seq<char>, PlistView)>,
    manifest: Seq<(Seq<char>, PlistView)>,
    rules: Option<Seq<PlistView>>,
) -> Seq<(Seq<char>, PlistView)>
    decreases manifest.len(),
{
    if manifest.len() == 0 {
        es
    } else {
        let prev = disk_image_entries(es, manifest.drop_last(), rules);
        match disk_image_entry(manifest.last().1, rules) {
            Some(e) => inserted(prev, manifest.last().0, PlistView::Dictionary(e)),
            None => prev,
        }
    }
}

/// The request tags after the identifiers: ticket flags, the device's
/// identity, the nonces and the security settings.
pub open spec fn disk_image_tags(
    es: Seq<(Seq<char>, PlistView)>,
    board_id: u64,
    chip_id: u64,
    ecid: u64,
    nonce: Seq<u8>,
) -> Seq<(Seq<char>, PlistView)> {
    let e = inserted(es, "@ApImg4Ticket"@, PlistView::Boolean(true));
    let e = inserted(e, "@BBTicket"@, PlistView::Boolean(true));
    let e = inserted(e, "ApBoardID"@, PlistView::Integer(board_id as int));
    let e = inserted(e, "ApChipID"@, PlistView::Integer(chip_id as int));
    let e = inserted(e, "ApECID"@, PlistView::Integer(ecid as int));
    let e = inserted(e, "ApNonce"@, PlistView::Data(nonce));
    let e = inserted(e, "ApProductionMode"@, PlistView::Boolean(true));
    let e = inserted(e, "ApSecurityDomain"@, PlistView::Integer(1));
    let e = inserted(e, "ApSecurityMode"@, PlistView::Boolean(true));
    let e = inserted(e, "SepNonce"@, PlistView::Data(Seq::new(20, |i: int| 0u8)));
    inserted(e, "UID_MODE"@, PlistView::Boolean(false))
}

/// A personalization request names the device as given: its `ApBoardID`
/// and `ApChipID` are the board and chip IDs, its `ApECID` the ECID and
/// its `ApNonce` the nonce, whatever the request held before.
pub proof fn law_request_tags_identity(
    es: Seq<(Seq<char>, PlistView)>,
    board_id: u64,
    chip_id: u64,
    ecid: u64,
    nonce: Seq<u8>,
)
    ensures
        lookup(disk_image_tags(es, board_id, chip_id, ecid, nonce), "ApBoardID"@) == Some(
            PlistView::Integer(board_id as int),
        ),
        lookup(disk_image_tags(es, board_id, chip_id, ecid, nonce), "ApChipID"@) == Some(
            PlistView::Integer(chip_id as int),
        ),
        lookup(disk_image_tags(es, board_id, chip_id, ecid, nonce), "ApECID"@) == Some(
            PlistView::Integer(ecid as int),
        ),
        lookup(disk_image_tags(es, board_id, chip_id, ecid, nonce), "ApNonce"@) == Some(
            PlistView::Data(nonce),
        ),
{
    reveal_strlit("@ApImg4Ticket");
    reveal_strlit("@BBTicket");
    reveal_strlit("ApBoardID");
    reveal_strlit("ApChipID");
    reveal_strlit("ApECID");
    reveal_strlit("ApNonce");
    reveal_strlit("ApProductionMode");
    reveal_strlit("ApSecurityDomain");
    reveal_strlit("ApSecurityMode");
    reveal_strlit("SepNonce");
    reveal_strlit("UID_MODE");
    assert("@ApImg4Ticket"@[0] == '@' && "@BBTicket"@[0] == '@' && "SepNonce"@[0] == 'S' && "UID_MODE"@[0] == 'U');
    assert("ApBoardID"@[0] == 'A' && "ApBoardID"@[2] == 'B');
    assert("ApChipID"@[0] == 'A' && "ApChipID"@[2] == 'C');
    assert("ApECID"@[0] == 'A' && "ApECID"@[2] == 'E');
    assert("ApNonce"@[0] == 'A' && "ApNonce"@[2] == 'N');
    assert("ApProductionMode"@[0] == 'A' && "ApProductionMode"@[2] == 'P');
    assert("ApSecurityDomain"@[0] == 'A' && "ApSecurityDomain"@[2] == 'S');
    assert("ApSecurityMode"@[0] == 'A' && "ApSecurityMode"@[2] == 'S');
    let e0 = inserted(es, "@ApImg4Ticket"@, PlistView::Boolean(true));
    law_lookup_inserted(es, "@ApImg4Ticket"@, PlistView::Boolean(true), "ApBoardID"@);
    law_lookup_inserted(es, "@ApImg4Ticket"@, PlistView::Boolean(true), "ApChipID"@);
    law_lookup_inserted(es, "@ApImg4Ticket"@, PlistView::Boolean(true), "ApECID"@);
    law_lookup_inserted(es, "@ApImg4Ticket"@, PlistView::Boolean(true), "ApNonce"@);
    let e1 = inserted(e0, "@BBTicket"@, PlistView::Boolean(true));
    law_lookup_inserted(e0, "@BBTicket"@, PlistView::Boolean(true), "ApBoardID"@);
    law_lookup_inserted(e0, "@BBTicket"@, PlistView::Boolean(true), "ApChipID"@);
    law_lookup_inserted(e0, "@BBTicket"@, PlistView::Boolean(true), "ApECID"@);
    law_lookup_inserted(e0, "@BBTicket"@, PlistView::Boolean(true), "ApNonce"@);
    let e2 = inserted(e1, "ApBoardID"@, PlistView::Integer(board_id as int));
    law_lookup_inserted(e1, "ApBoardID"@, PlistView::Integer(board_id as int), "ApBoardID"@);
    law_lookup_inserted(e1, "ApBoardID"@, PlistView::Integer(board_id as int), "ApChipID"@);
    law_lookup_inserted(e1, "ApBoardID"@, PlistView::Integer(board_id as int), "ApECID"@);
    law_lookup_inserted(e1, "ApBoardID"@, PlistView::Integer(board_id as int), "ApNonce"@);
    let e3 = inserted(e2, "ApChipID"@, PlistView::Integer(chip_id as int));
    law_lookup_inserted(e2, "ApChipID"@, PlistView::Integer(chip_id as int), "ApBoardID"@);
    law_lookup_inserted(e2, "ApChipID"@, PlistView::Integer(chip_id as int), "ApChipID"@);
    law_lookup_inserted(e2, "ApChipID"@, PlistView::Integer(chip_id as int), "ApECID"@);
    law_lookup_inserted(e2, "ApChipID"@, PlistView::Integer(chip_id as int), "ApNonce"@);
    let e4 = inserted(e3, "ApECID"@, PlistView::Integer(ecid as int));
    law_lookup_inserted(e3, "ApECID"@, PlistView::Integer(ecid as int), "ApBoardID"@);
    law_lookup_inserted(e3, "ApECID"@, PlistView::Integer(ecid as int), "ApChipID"@);
    law_lookup_inserted(e3, "ApECID"@, PlistView::Integer(ecid as int), "ApECID"@);
    law_lookup_inserted(e3, "ApECID"@, PlistView::Integer(ecid as int), "ApNonce"@);
    let e5 = inserted(e4, "ApNonce"@, PlistView::Data(nonce));
    law_lookup_inserted(e4, "ApNonce"@, PlistView::Data(nonce), "ApBoardID"@);
    law_lookup_inserted(e4, "ApNonce"@, PlistView::Data(nonce), "ApChipID"@);
    law_lookup_inserted(e4, "ApNonce"@, PlistView::Data(nonce), "ApECID"@);
    law_lookup_inserted(e4, "ApNonce"@, PlistView::Data(nonce), "ApNonce"@);
    let e6 = inserted(e5, "ApProductionMode"@, PlistView::Boolean(true));
    law_lookup_inserted(e5, "ApProductionMode"@, PlistView::Boolean(true), "ApBoardID"@);
    law_lookup_inserted(e5, "ApProductionMode"@, PlistView::Boolean(true), "ApChipID"@);
    law_lookup_inserted(e5, "ApProductionMode"@, PlistView::Boolean(true), "ApECID"@);
    law_lookup_inserted(e5, "ApProductionMode"@, PlistView::Boolean(true), "ApNonce"@);
    let e7 = inserted(e6, "ApSecurityDomain"@, PlistView::Integer(1));
    law_lookup_inserted(e6, "ApSecurityDomain"@, PlistView::Integer(1), "ApBoardID"@);
    law_lookup_inserted(e6, "ApSecurityDomain"@, PlistView::Integer(1), "ApChipID"@);
    law_lookup_inserted(e6, "ApSecurityDomain"@, PlistView::Integer(1), "ApECID"@);
    law_lookup_inserted(e6, "ApSecurityDomain"@, PlistView::Integer(1), "ApNonce"@);
    let e8 = inserted(e7, "ApSecurityMode"@, PlistView::Boolean(true));
    law_lookup_inserted(e7, "ApSecurityMode"@, PlistView::Boolean(true), "ApBoardID"@);
    law_lookup_inserted(e7, "ApSecurityMode"@, PlistView::Boolean(true), "ApChipID"@);
    law_lookup_inserted(e7, "ApSecurityMode"@, PlistView::Boolean(true), "ApECID"@);
    law_lookup_inserted(e7, "ApSecurityMode"@, PlistView::Boolean(true), "ApNonce"@);
    let e9 = inserted(e8, "SepNonce"@, PlistView::Data(Seq::new(20, |i: int| 0u8)));
    law_lookup_inserted(e8, "SepNonce"@, PlistView::Data(Seq::new(20, |i: int| 0u8)), "ApBoardID"@);
    law_lookup_inserted(e8, "SepNonce"@, PlistView::Data(Seq::new(20, |i: int| 0u8)), "ApChipID"@);
    law_lookup_inserted(e8, "SepNonce"@, PlistView::Data(Seq::new(20, |i: int| 0u8)), "ApECID"@);
    law_lookup_inserted(e8, "SepNonce"@, PlistView::Data(Seq::new(20, |i: int| 0u8)), "ApNonce"@);
    let e10 = inserted(e9, "UID_MODE"@, PlistView::Boolean(false));
    law_lookup_inserted(e9, "UID_MODE"@, PlistView::Boolean(false), "ApBoardID"@);
    law_lookup_inserted(e9, "UID_MODE"@, PlistView::Boolean(false), "ApChipID"@);
    law_lookup_inserted(e9, "UID_MODE"@, PlistView::Boolean(false), "ApECID"@);
    law_lookup_inserted(e9, "UID_MODE"@, PlistView::Boolean(false), "ApNonce"@);
    assert(e10 == disk_image_tags(es, board_id, chip_id, ecid, nonce));
}

/// What a personalization request holds, or why there is none: the
/// identifiers must give the board and chip, the manifest must have a
/// matching build identity, and that identity a `Manifest` dictionary.
pub open spec fn disk_image_request(
    es: Seq<(Seq<char>, PlistView)>,
    identifiers: Seq<(Seq<char>, PlistView)>,
    nonce: Seq<u8>,
    build_manifest: Seq<(Seq<char>, PlistView)>,
    ecid: u64,
) -> Result<Seq<(Seq<char>, PlistView)>, IdeviceError> {
    match personalization_board_chip(identifiers) {
        None => Err(IdeviceError::UnexpectedResponse),
        Some((board, chip)) => {
            let e = disk_image_tags(ap_identifiers(es, identifiers), board, chip, ecid, nonce);
            match view_array(lookup(build_manifest, "BuildIdentities"@)) {
                None => Err(IdeviceError::BadBuildManifest),
                Some(ids) => match first_disk_image_identity(ids, board, chip) {
                    None => Err(IdeviceError::BadBuildManifest),
                    Some(identity) => match lookup(identity, "Manifest"@) {
                        Some(PlistView::Dictionary(m)) => Ok(
                            disk_image_entries(e, m, trust_cache_rules(m)),
                        ),
                        _ => Err(IdeviceError::BadBuildManifest),
                    },
                },
            }
        },
    }
}

/// Whether a build identity's `Manifest` (when it has one) names no
/// component `ApBoardID` or `ApChipID`.
pub open spec fn manifest_keeps_device_ids(id: PlistView) -> bool {
    match id {
        PlistView::Dictionary(d) => match lookup(d, "Manifest"@) {
            Some(PlistView::Dictionary(m)) => forall|j: int|
                0 <= j < m.len() ==> #[trigger] m[j].0 != "ApBoardID"@ && m[j].0 != "ApChipID"@,
            _ => true,
        },
        _ => true,
    }
}

/// The identity chosen for a request is one of the build identities.
proof fn lemma_first_identity_is_listed(ids: Seq<PlistView>, board_id: u64, chip_id: u64)
    ensures
        first_disk_image_identity(ids, board_id, chip_id) matches Some(d) ==> exists|i: int|
            0 <= i < ids.len() && ids[i] == PlistView::Dictionary(d),
    decreases ids.len(),
{
    if ids.len() > 0 {
        lemma_first_identity_is_listed(ids.drop_last(), board_id, chip_id);
        match first_disk_image_identity(ids.drop_last(), board_id, chip_id) {
            Some(d) => {
                let i = choose|i: int| 0 <= i < ids.drop_last().len() && ids.drop_last()[i] == PlistView::Dictionary(d);
                assert(ids[i] == ids.drop_last()[i]);
            },
            None => {
                if disk_image_identity(ids.last(), board_id, chip_id) {
                    assert(ids[ids.len() - 1] == ids.last());
                }
            },
        }
    }
}

/// Adding manifest entries leaves every key that no entry names as it was.
proof fn lemma_entries_keep_key(
    es: Seq<(Seq<char>, PlistView)>,
    manifest: Seq<(Seq<char>, PlistView)>,
    rules: Option<Seq<PlistView>>,
    key: Seq<char>,
)
    requires
        forall|j: int| 0 <= j < manifest.len() ==> #[trigger] manifest[j].0 != key,
    ensures
        lookup(disk_image_entries(es, manifest, rules), key) == lookup(es, key),
    decreases manifest.len(),
{
    if manifest.len() > 0 {
        let d = manifest.drop_last();
        assert forall|j: int| 0 <= j < d.len() implies #[trigger] d[j].0 != key by {
            assert(d[j] == manifest[j]);
        }
        lemma_entries_keep_key(es, d, rules, key);
        assert(manifest[manifest.len() - 1] == manifest.last());
        let prev = disk_image_entries(es, d, rules);
        match disk_image_entry(manifest.last().1, rules) {
            Some(e) => {
                law_lookup_inserted(prev, manifest.last().0, PlistView::Dictionary(e), key);
            },
            None => {},
        }
    }
}

/// A personalization request carries the device's own board and chip: its
/// `ApBoardID` is the identifiers' `BoardId` and its `ApChipID` their
/// `ChipID` (unless a build identity's manifest itself names a component
/// by one of those keys).
pub proof fn law_personalization_request_identity(
    es: Seq<(Seq<char>, PlistView)>,
    identifiers: Seq<(Seq<char>, PlistView)>,
    nonce: Seq<u8>,
    build_manifest: Seq<(Seq<char>, PlistView)>,
    ecid: u64,
)
    requires
        view_array(lookup(build_manifest, "BuildIdentities"@)) matches Some(ids) ==> forall|i: int|
            0 <= i < ids.len() ==> manifest_keeps_device_ids(#[trigger] ids[i]),
    ensures
        disk_image_request(es, identifiers, nonce, build_manifest, ecid) matches Ok(r) ==> (view_unsigned(
            lookup(identifiers, "BoardId"@),
        ) matches Some(b) && view_unsigned(lookup(identifiers, "ChipID"@)) matches Some(c) && lookup(
            r,
            "ApBoardID"@,
        ) == Some(PlistView::Integer(b as int)) && lookup(r, "ApChipID"@) == Some(
            PlistView::Integer(c as int),
        )),
{
    match personalization_board_chip(identifiers) {
        None => {},
        Some((board, chip)) => {
            let e = disk_image_tags(ap_identifiers(es, identifiers), board, chip, ecid, nonce);
            law_request_tags_identity(ap_identifiers(es, identifiers), board, chip, ecid, nonce);
            match view_array(lookup(build_manifest, "BuildIdentities"@)) {
                None => {},
                Some(ids) => {
                    lemma_first_identity_is_listed(ids, board, chip);
                    match first_disk_image_identity(ids, board, chip) {
                        None => {},
                        Some(identity) => {
                            let i = choose|i: int| 0 <= i < ids.len() && ids[i] == PlistView::Dictionary(identity);
                            assert(manifest_keeps_device_ids(ids[i]));
                            match lookup(identity, "Manifest"@) {
                                Some(PlistView::Dictionary(m)) => {
                                    lemma_entries_keep_key(e, m, trust_cache_rules(m), "ApBoardID"@);
                                    lemma_entries_keep_key(e, m, trust_cache_rules(m), "ApChipID"@);
                                },
                                _ => {},
                            }
                        },
                    }
                },
            }
        },
    }
}

/// Whether a build identity is a dictionary for the board and chip.
fn is_disk_image_identity(id: &PlistValue, board_id: u64, chip_id: u64) -> (r: bool)
    ensures
        r == disk_image_identity(id@, board_id, chip_id),
{
    let d = match id {
        PlistValue::Dictionary(d) => d,
        _ => return false,
    };
    let board = match d.get("ApBoardID") {
        Some(PlistValue::String(s)) => parse_prefixed_hex(s.as_str()),
        _ => None,
    };
    let chip = match d.get("ApChipID") {
        Some(PlistValue::String(s)) => parse_prefixed_hex(s.as_str()),
        _ => None,
    };
    board == Some(board_id) && chip == Some(chip_id)
}

/// A manifest component's request entry.
fn disk_image_entry_for(item: &PlistValue, rules: Option<&Vec<PlistValue>>) -> (r: Option<PlistDict>)
    ensures
        match disk_image_entry(
            item@,
            match rules {
                Some(x) => Some(view_values(x@)),
                None => None,
            },
        ) {
            Some(e) => r matches Some(d) && d@ == e,
            None => r is None,
        },
{
    let m = match item {
        PlistValue::Dictionary(m) => m,
        _ => return None,
    };
    if !m.contains_key("Info") {
        return None;
    }
    match m.get("Trusted") {
        Some(PlistValue::Boolean(true)) => {},
        _ => return None,
    }
    let mut entry = m.deep_clone();
    entry.remove("Info");
    if let Some(r) = rules {
        let params = disk_image_parameter_dict();
        apply_restore_request_rules(&mut entry, &params, r.as_slice());
    }
    if !m.contains_key("Digest") {
        entry.insert(String::from_str("Digest"), PlistValue::Data(Vec::new()));
    }
    Some(entry)
}

/// The parameters the trust-cache rules are checked against.
fn disk_image_parameter_dict() -> (r: PlistDict)
    ensures
        r@ == disk_image_parameters(),
{
    let mut d = PlistDict::new();
    proof {
        reveal_strlit("ApProductionMode");
        reveal_strlit("ApSecurityMode");
        reveal_strlit("ApSupportsImg4");
    }
    d.insert(String::from_str("ApProductionMode"), PlistValue::Boolean(true));
    let ghost e1 = d@;
    assert(e1.drop_last() =~= Seq::<(Seq<char>, PlistView)>::empty());
    assert("ApProductionMode"@.len() == 16 && "ApSecurityMode"@.len() == 14 && "ApSupportsImg4"@.len()
        == 14);
    assert("ApSecurityMode"@[5] != "ApSupportsImg4"@[5]);
    proof {
        crate::plist::lemma_key_index(e1, "ApSecurityMode"@);
    }
    d.insert(String::from_str("ApSecurityMode"), PlistValue::Integer(1));
    let ghost e2 = d@;
    proof {
        crate::plist::lemma_key_index(e2, "ApSecurityMode"@);
    }
    d.insert(String::from_str("ApSecurityMode"), PlistValue::Boolean(true));
    let ghost e3 = d@;
    assert(e3.len() == 2);
    proof {
        crate::plist::lemma_key_index(e3, "ApSupportsImg4"@);
    }
    d.insert(String::from_str("ApSupportsImg4"), PlistValue::Boolean(true));
    assert(d@ =~= disk_image_parameters());
    d
}

/// The first build identity for the board and chip.
fn find_disk_image_identity(identities: &Vec<PlistValue>, board_id: u64, chip_id: u64) -> (r:
    Option<&PlistDict>)
    ensures
        match first_disk_image_identity(view_values(identities@), board_id, chip_id) {
            Some(d) => r matches Some(x) && x@ == d,
            None => r is None,
        },
{
    let ghost ids = view_values(identities@);
    let mut i: usize = 0;
    while i < identities.len()
        invariant
            i <= identities@.len(),
            ids == view_values(identities@),
            first_disk_image_identity(ids.take(i as int), board_id, chip_id) is None,
        decreases identities@.len() - i,
    {
        assert(ids.take(i + 1).drop_last() =~= ids.take(i as int));
        assert(ids.take(i + 1).last() == identities@[i as int]@);
        if is_disk_image_identity(&identities[i], board_id, chip_id) {
            proof {
                lemma_first_identity_extends(ids, i as int, board_id, chip_id);
            }
            if let PlistValue::Dictionary(d) = &identities[i] {
                return Some(d);
            }
        }
        i = i + 1;
    }
    assert(ids.take(i as int) =~= ids);
    None
}

/// Builds the ticket request that personalizes a developer disk image.
///
/// `request` is a fresh request; the personalization identifiers starting
/// with `Ap,` are copied, then the flags, the device's identity, the
/// nonces and the security settings, then an entry for each trusted
/// component of the matching build identity's manifest, with the manifest's
/// `LoadableTrustCache` rules applied.
///
/// Fails with an unexpected-response error when the identifiers lack the
/// board or chip ID, and with a bad-build-manifest error when no build
/// identity matches or it has no `Manifest` dictionary.
pub fn build_personalization_request(
    request: TSSRequest,
    identifiers: &PlistDict,
    nonce: Vec<u8>,
    build_manifest: &PlistDict,
    unique_chip_id: u64,
) -> (r: Result<TSSRequest, IdeviceError>)
    ensures
        match disk_image_request(request@, identifiers@, nonce@, build_manifest@, unique_chip_id) {
            Ok(es) => r matches Ok(q) && q@ == es,
            Err(e) => r matches Err(x) && x == e,
        },
{
    let mut request = request;
    request.add_ap_personalization_identifiers(identifiers);
    let (board_id, chip_id) = match personalization_ids(identifiers) {
        Ok(p) => p,
        Err(e) => return Err(e),
    };
    request.set_ap_img4_ticket(true);
    request.set_bb_ticket(true);
    request.insert(String::from_str("ApBoardID"), PlistValue::Integer(board_id as i128));
    request.insert(String::from_str("ApChipID"), PlistValue::Integer(chip_id as i128));
    request.insert(String::from_str("ApECID"), PlistValue::Integer(unique_chip_id as i128));
    request.insert(String::from_str("ApNonce"), PlistValue::Data(nonce));
    request.insert(String::from_str("ApProductionMode"), PlistValue::Boolean(true));
    request.insert(String::from_str("ApSecurityDomain"), PlistValue::Integer(1));
    request.insert(String::from_str("ApSecurityMode"), PlistValue::Boolean(true));
    let zeros: Vec<u8> = vec![0u8; 20];
    assert(zeros@ =~= Seq::new(20, |i: int| 0u8));
    request.insert(String::from_str("SepNonce"), PlistValue::Data(zeros));
    request.insert(String::from_str("UID_MODE"), PlistValue::Boolean(false));
    let ghost tagged = request@;
    let identities = match build_manifest.get("BuildIdentities") {
        Some(PlistValue::Array(i)) => i,
        _ => return Err(IdeviceError::BadBuildManifest),
    };
    let identity = match find_disk_image_identity(identities, board_id, chip_id) {
        Some(d) => d,
        None => return Err(IdeviceError::BadBuildManifest),
    };
    let manifest = match identity.get("Manifest") {
        Some(PlistValue::Dictionary(m)) => m,
        _ => return Err(IdeviceError::BadBuildManifest),
    };
    let trust_cache_info = crate::plist::dict_of(manifest.get("LoadableTrustCache"));
    let info = crate::plist::dict_of(crate::plist::get_in(trust_cache_info, "Info"));
    let rules = match crate::plist::get_in(info, "RestoreRequestRules") {
        Some(PlistValue::Array(r)) => Some(r),
        _ => None,
    };
    let ghost rv = match rules {
        Some(x) => Some(view_values(x@)),
        None => None,
    };
    assert(rv == trust_cache_rules(manifest@));
    let mut j: usize = 0;
    while j < manifest.len()
        invariant
            j <= manifest@.len(),
            rv == match rules {
                Some(x) => Some(view_values(x@)),
                None => None::<Seq<PlistView>>,
            },
            request@ == disk_image_entries(tagged, manifest@.take(j as int), rv),
        decreases manifest@.len() - j,
    {
        let (key, item) = manifest.entry(j);
        assert(manifest@.take(j + 1).drop_last() =~= manifest@.take(j as int));
        assert(manifest@.take(j + 1).last() == manifest@[j as int]);
        if let Some(entry) = disk_image_entry_for(item, rules) {
            request.insert(key.clone(), PlistValue::Dictionary(entry));
        }
        j = j + 1;
    }
    assert(manifest@.take(manifest@.len() as int) =~= manifest@);
    Ok(request)
}

/// Once no identity before `i` matched and the one at `i` does, it is the
/// first.
proof fn lemma_first_identity_extends(ids: Seq<PlistView>, i: int, board_id: u64, chip_id: u64)
    requires
        0 <= i < ids.len(),
        first_disk_image_identity(ids.take(i), board_id, chip_id) is None,
        disk_image_identity(ids[i], board_id, chip_id),
    ensures
        first_disk_image_identity(ids, board_id, chip_id) == Some(ids[i]->Dictionary_0),
    decreases ids.len(),
{
    if i == ids.len() - 1 {
        assert(ids.drop_last() =~= ids.take(i));
    } else {
        assert(ids.drop_last().take(i) =~= ids.take(i));
        lemma_first_identity_extends(ids.drop_last(), i, board_id, chip_id);
    }
}

/// The personalization ticket of a signing server reply: its
/// `ApImg4Ticket` data.
///
/// Fails with an unexpected-response error when the reply is not a
/// dictionary or has no such data.
pub fn personalization_ticket(response: &PlistValue) -> (r: Result<Vec<u8>, IdeviceError>)
    ensures
        match response@ {
            PlistView::Dictionary(d) => match lookup(d, "ApImg4Ticket"@) {
                Some(PlistView::Data(t)) => r matches Ok(v) && v@ == t,
                _ => r == Err::<Vec<u8>, IdeviceError>(IdeviceError::UnexpectedResponse),
            },
            _ => r == Err::<Vec<u8>, IdeviceError>(IdeviceError::UnexpectedResponse),
        },
{
    match response {
        PlistValue::Dictionary(d) => extract_img4_ticket(d),
        _ => Err(IdeviceError::UnexpectedResponse),
    }
}

} // verus!

verus! {

// ---------------------------------------------------------------------------
// Image mounter commands
// ---------------------------------------------------------------------------

/// A command without arguments: `CopyDevices`, `QueryDeveloperModeStatus`,
/// `RollPersonalizationNonce` or `RollCryptexNonce`.
pub fn command_request(command: &str) -> (r: PlistDict)
    ensures
        r@ == seq![crate::lockdown::string_entry("Command"@, command@)],
{
    let mut d = PlistDict::new();
    d.insert(String::from_str("Command"), PlistValue::String(String::from_str(command)));
    assert(d@ =~= seq![crate::lockdown::string_entry("Command"@, command@)]);
    d
}

/// The pairs of a command and its arguments.
fn command_pairs<'a>(command: &str) -> (r: Vec<(&'a str, PlistValue)>)
    ensures
        crate::restore::options::pair_views(r@) == seq![crate::lockdown::string_entry("Command"@, command@)],
{
    let mut pairs: Vec<(&'a str, PlistValue)> = Vec::new();
    crate::lockdown::push_pair(&mut pairs, "Command", PlistValue::String(String::from_str(command)));
    assert(crate::restore::options::pair_views(pairs@) =~= seq![
        crate::lockdown::string_entry("Command"@, command@),
    ]);
    pairs
}

/// The devices a `CopyDevices` reply lists under `EntryList`.
pub fn entry_list_reply(reply: PlistDict) -> (r: Result<Vec<PlistValue>, IdeviceError>)
    ensures
        match lookup(reply@, "EntryList"@) {
            Some(PlistView::Array(items)) => r matches Ok(v) && view_values(v@) == items,
            _ => r matches Err(IdeviceError::UnexpectedResponse),
        },
{
    let mut reply = reply;
    match reply.remove("EntryList") {
        Some(PlistValue::Array(items)) => Ok(items),
        _ => Err(IdeviceError::UnexpectedResponse),
    }
}

/// The request that looks up the signature of a mounted image type.
pub fn lookup_image_request(image_type: &str) -> (r: PlistDict)
    ensures
        r@ == crate::restore::options::dict_from(
            seq![
                crate::lockdown::string_entry("Command"@, "LookupImage"@),
                crate::lockdown::string_entry("ImageType"@, image_type@),
            ],
        ),
{
    let mut pairs = command_pairs("LookupImage");
    crate::lockdown::push_pair(&mut pairs, "ImageType", PlistValue::String(String::from_str(image_type)));
    assert(crate::restore::options::pair_views(pairs@) =~= seq![
        crate::lockdown::string_entry("Command"@, "LookupImage"@),
        crate::lockdown::string_entry("ImageType"@, image_type@),
    ]);
    crate::restore::options::dict_from_pairs(pairs)
}

/// The signature a reply carries as `ImageSignature` data; without one, the
/// image is not there.
pub fn image_signature_reply(reply: &PlistDict) -> (r: Result<Vec<u8>, IdeviceError>)
    ensures
        match lookup(reply@, "ImageSignature"@) {
            Some(PlistView::Data(b)) => r matches Ok(x) && x@ == b,
            _ => r matches Err(IdeviceError::NotFound),
        },
{
    match reply.get("ImageSignature") {
        Some(PlistValue::Data(b)) => Ok(b.clone()),
        _ => Err(IdeviceError::NotFound),
    }
}

/// The request that announces an image upload: its type, size and
/// signature.
pub fn receive_bytes_request(image_type: &str, image_size: u64, signature: Vec<u8>) -> (r: PlistDict)
    ensures
        r@ == crate::restore::options::dict_from(
            seq![
                crate::lockdown::string_entry("Command"@, "ReceiveBytes"@),
                crate::lockdown::string_entry("ImageType"@, image_type@),
                ("ImageSize"@, PlistView::Integer(image_size as int)),
                ("ImageSignature"@, PlistView::Data(signature@)),
            ],
        ),
{
    let ghost sig = signature@;
    let mut pairs = command_pairs("ReceiveBytes");
    crate::lockdown::push_pair(&mut pairs, "ImageType", PlistValue::String(String::from_str(image_type)));
    crate::lockdown::push_pair(&mut pairs, "ImageSize", PlistValue::Integer(image_size as i128));
    crate::lockdown::push_pair(&mut pairs, "ImageSignature", PlistValue::Data(signature));
    assert(crate::restore::options::pair_views(pairs@) =~= seq![
        crate::lockdown::string_entry("Command"@, "ReceiveBytes"@),
        crate::lockdown::string_entry("ImageType"@, image_type@),
        ("ImageSize"@, PlistView::Integer(image_size as int)),
        ("ImageSignature"@, PlistView::Data(sig)),
    ]);
    crate::restore::options::dict_from_pairs(pairs)
}

/// Checks a reply's `Status`: it must be the expected one
/// (`ReceiveBytesAck` before an upload, `Complete` after it, after a mount
/// and after an unmount).
pub fn status_reply(reply: &PlistDict, expected: &str) -> (r: Result<(), IdeviceError>)
    ensures
        view_string(lookup(reply@, "Status"@)) == Some(expected@) ==> r is Ok,
        view_string(lookup(reply@, "Status"@)) != Some(expected@) ==> r matches Err(
            IdeviceError::UnexpectedResponse,
        ),
{
    match reply.get("Status") {
        Some(PlistValue::String(s)) => {
            if crate::text::str_equal(s.as_str(), expected) {
                Ok(())
            } else {
                Err(IdeviceError::UnexpectedResponse)
            }
        },
        _ => Err(IdeviceError::UnexpectedResponse),
    }
}

/// The request that mounts an uploaded image, with its trust cache and
/// info plist when given.
pub fn mount_image_request(
    image_type: &str,
    signature: Vec<u8>,
    trust_cache: Option<Vec<u8>>,
    info_plist: Option<PlistValue>,
) -> (r: PlistDict)
    ensures
        r@ == crate::restore::options::dict_from(
            seq![
                crate::lockdown::string_entry("Command"@, "MountImage"@),
                crate::lockdown::string_entry("ImageType"@, image_type@),
                ("ImageSignature"@, PlistView::Data(signature@)),
            ] + match trust_cache {
                Some(t) => seq![("ImageTrustCache"@, PlistView::Data(t@))],
                None => Seq::empty(),
            } + match info_plist {
                Some(i) => seq![("ImageInfoPlist"@, i@)],
                None => Seq::empty(),
            },
        ),
{
    let ghost sig = signature@;
    let ghost tc = trust_cache;
    let ghost ip = info_plist;
    let mut pairs = command_pairs("MountImage");
    crate::lockdown::push_pair(&mut pairs, "ImageType", PlistValue::String(String::from_str(image_type)));
    crate::lockdown::push_pair(&mut pairs, "ImageSignature", PlistValue::Data(signature));
    let ghost head = crate::restore::options::pair_views(pairs@);
    assert(head =~= seq![
        crate::lockdown::string_entry("Command"@, "MountImage"@),
        crate::lockdown::string_entry("ImageType"@, image_type@),
        ("ImageSignature"@, PlistView::Data(sig)),
    ]);
    match trust_cache {
        Some(t) => crate::lockdown::push_pair(&mut pairs, "ImageTrustCache", PlistValue::Data(t)),
        None => {},
    }
    let ghost mid = crate::restore::options::pair_views(pairs@);
    assert(mid =~= head + match tc {
        Some(t) => seq![("ImageTrustCache"@, PlistView::Data(t@))],
        None => Seq::empty(),
    });
    match info_plist {
        Some(i) => crate::lockdown::push_pair(&mut pairs, "ImageInfoPlist", i),
        None => {},
    }
    assert(crate::restore::options::pair_views(pairs@) =~= mid + match ip {
        Some(i) => seq![("ImageInfoPlist"@, i@)],
        None => Seq::empty(),
    });
    crate::restore::options::dict_from_pairs(pairs)
}

/// The request that unmounts the image at a path.
pub fn unmount_image_request(mount_path: &str) -> (r: PlistDict)
    ensures
        r@ == crate::restore::options::dict_from(
            seq![
                crate::lockdown::string_entry("Command"@, "UnmountImage"@),
                crate::lockdown::string_entry("MountPath"@, mount_path@),
            ],
        ),
{
    let mut pairs = command_pairs("UnmountImage");
    crate::lockdown::push_pair(&mut pairs, "MountPath", PlistValue::String(String::from_str(mount_path)));
    assert(crate::restore::options::pair_views(pairs@) =~= seq![
        crate::lockdown::string_entry("Command"@, "UnmountImage"@),
        crate::lockdown::string_entry("MountPath"@, mount_path@),
    ]);
    crate::restore::options::dict_from_pairs(pairs)
}

/// The request for the personalization manifest the device holds for an
/// image, by the image's digest.
pub fn personalization_manifest_request(image_type: &str, signature: Vec<u8>) -> (r: PlistDict)
    ensures
        r@ == crate::restore::options::dict_from(
            seq![
                crate::lockdown::string_entry("Command"@, "QueryPersonalizationManifest"@),
                crate::lockdown::string_entry("PersonalizedImageType"@, image_type@),
                crate::lockdown::string_entry("ImageType"@, image_type@),
                ("ImageSignature"@, PlistView::Data(signature@)),
            ],
        ),
{
    let ghost sig = signature@;
    let mut pairs = command_pairs("QueryPersonalizationManifest");
    crate::lockdown::push_pair(
        &mut pairs,
        "PersonalizedImageType",
        PlistValue::String(String::from_str(image_type)),
    );
    crate::lockdown::push_pair(&mut pairs, "ImageType", PlistValue::String(String::from_str(image_type)));
    crate::lockdown::push_pair(&mut pairs, "ImageSignature", PlistValue::Data(signature));
    assert(crate::restore::options::pair_views(pairs@) =~= seq![
        crate::lockdown::string_entry("Command"@, "QueryPersonalizationManifest"@),
        crate::lockdown::string_entry("PersonalizedImageType"@, image_type@),
        crate::lockdown::string_entry("ImageType"@, image_type@),
        ("ImageSignature"@, PlistView::Data(sig)),
    ]);
    crate::restore::options::dict_from_pairs(pairs)
}

/// Whether developer mode is on, by the reply's `DeveloperModeStatus`.
pub fn developer_mode_reply(reply: &PlistDict) -> (r: Result<bool, IdeviceError>)
    ensures
        match lookup(reply@, "DeveloperModeStatus"@) {
            Some(PlistView::Boolean(b)) => r == Ok::<bool, IdeviceError>(b),
            _ => r matches Err(IdeviceError::UnexpectedResponse),
        },
{
    match reply.get("DeveloperModeStatus") {
        Some(PlistValue::Boolean(b)) => Ok(*b),
        _ => Err(IdeviceError::UnexpectedResponse),
    }
}

/// A query for a personalized image type: `QueryNonce` or
/// `QueryPersonalizationIdentifiers`, with the type when given.
pub fn personalized_query_request(command: &str, image_type: Option<&str>) -> (r: PlistDict)
    ensures
        r@ == crate::restore::options::dict_from(
            seq![crate::lockdown::string_entry("Command"@, command@)] + crate::lockdown::opt_string_entry(
                "PersonalizedImageType"@,
                crate::lockdown::opt_str(image_type),
            ),
        ),
{
    let mut pairs = command_pairs(command);
    crate::lockdown::push_opt_string(&mut pairs, "PersonalizedImageType", image_type);
    crate::restore::options::dict_from_pairs(pairs)
}

/// The nonce a `QueryNonce` reply carries as `PersonalizationNonce` data.
pub fn nonce_reply(reply: &PlistDict) -> (r: Result<Vec<u8>, IdeviceError>)
    ensures
        match lookup(reply@, "PersonalizationNonce"@) {
            Some(PlistView::Data(b)) => r matches Ok(x) && x@ == b,
            _ => r matches Err(IdeviceError::UnexpectedResponse),
        },
{
    match reply.get("PersonalizationNonce") {
        Some(PlistValue::Data(b)) => Ok(b.clone()),
        _ => Err(IdeviceError::UnexpectedResponse),
    }
}

/// The identifiers a `QueryPersonalizationIdentifiers` reply carries.
pub fn identifiers_reply(reply: &PlistDict) -> (r: Result<PlistDict, IdeviceError>)
    ensures
        match lookup(reply@, "PersonalizationIdentifiers"@) {
            Some(PlistView::Dictionary(d)) => r matches Ok(x) && x@ == d,
            _ => r matches Err(IdeviceError::UnexpectedResponse),
        },
{
    match reply.get("PersonalizationIdentifiers") {
        Some(PlistValue::Dictionary(d)) => Ok(d.deep_clone()),
        _ => Err(IdeviceError::UnexpectedResponse),
    }
}

/// The SHA-384 digest of some bytes.
pub uninterp spec fn sha384_digest(data: Seq<u8>) -> Seq<u8>;

/// Hashes with SHA-384.
///
/// Calls `Sha384::digest` of the sha2 crate; the contract names the result
/// and states its length, 48 bytes.
#[verifier::external_body]
fn sha384(data: &[u8]) -> (r: Vec<u8>)
    ensures
        r@ == sha384_digest(data@),
        r@.len() == 48,
{
    sha2::Sha384::digest(data).to_vec()
}

/// The digest a personalized image is known by: its SHA-384.
pub fn personalized_image_digest(image: &[u8]) -> (r: Vec<u8>)
    ensures
        r@ == sha384_digest(image@),
        r@.len() == 48,
{
    sha384(image)
}

} // verus!
