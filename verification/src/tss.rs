//! Requests to Apple's ticket signature server (TSS): building the request
//! dictionary from a build identity and device parameters, applying a
//! component's restore request rules, choosing a build identity, and
//! reading the server's reply.

use vstd::prelude::*;

use crate::error::IdeviceError;
use crate::plist::{
    keys_unique, law_inserted_unique, law_lookup_inserted, law_lookup_removed, dict_of, get_in, inserted, lookup, opt_get, plist_equal, removed, values_equal, view_array,
    view_bool, view_dict, view_string, view_unsigned, view_values, PlistDict, PlistValue, PlistView,
};
use crate::text::{
    has_prefix, parse_hex_u64_spec, parse_prefixed_hex, str_equal, str_starts_with,
    without_hex_prefixes,
};
use vstd::string::StringExecFns;
use vstd::string::StringSliceAdditionalSpecFns;

verus! {

// ---------------------------------------------------------------------------
// Restore request rules
// ---------------------------------------------------------------------------

/// The device parameter a rule condition is checked against.
pub open spec fn condition_param(key: Seq<char>) -> Option<Seq<char>> {
    if key == "ApRawProductionMode"@ || key == "ApCurrentProductionMode"@ {
        Some("ApProductionMode"@)
    } else if key == "ApRawSecurityMode"@ {
        Some("ApSecurityMode"@)
    } else if key == "ApRequiresImage4"@ {
        Some("ApSupportsImg4"@)
    } else if key == "ApDemotionPolicyOverride"@ {
        Some("DemotionPolicy"@)
    } else if key == "ApInRomDFU"@ {
        Some("ApInRomDFU"@)
    } else {
        None
    }
}

/// Whether one condition holds: its key names a parameter that is present
/// and equal to the condition's value.
pub open spec fn condition_holds(
    params: Seq<(Seq<char>, PlistView)>,
    key: Seq<char>,
    value: PlistView,
) -> bool {
    match condition_param(key) {
        Some(p) => match lookup(params, p) {
            Some(v) => plist_equal(v, value),
            None => false,
        },
        None => false,
    }
}

/// Whether every condition of a rule holds.
pub open spec fn conditions_hold(
    params: Seq<(Seq<char>, PlistView)>,
    conds: Seq<(Seq<char>, PlistView)>,
) -> bool {
    forall|i: int| 0 <= i < conds.len() ==> condition_holds(params, #[trigger] conds[i].0, conds[i].1)
}

/// An action whose value is the integer 255 is skipped.
pub open spec fn action_skipped(v: PlistView) -> bool {
    v == PlistView::Integer(255)
}

/// The entries after applying actions in order: each key that is not
/// skipped is removed and then set to the action's value.
pub open spec fn actions_applied(
    es: Seq<(Seq<char>, PlistView)>,
    actions: Seq<(Seq<char>, PlistView)>,
) -> Seq<(Seq<char>, PlistView)>
    decreases actions.len(),
{
    if actions.len() == 0 {
        es
    } else {
        let prev = actions_applied(es, actions.drop_last());
        let k = actions.last().0;
        let v = actions.last().1;
        if action_skipped(v) {
            prev
        } else {
            inserted(removed(prev, k), k, v)
        }
    }
}

/// The entries after one rule: a dictionary rule whose `Conditions`
/// dictionary all holds applies its `Actions` dictionary; any other rule
/// changes nothing.
pub open spec fn rule_applied(
    es: Seq<(Seq<char>, PlistView)>,
    params: Seq<(Seq<char>, PlistView)>,
    rule: PlistView,
) -> Seq<(Seq<char>, PlistView)> {
    match rule {
        PlistView::Dictionary(r) => match lookup(r, "Conditions"@) {
            Some(PlistView::Dictionary(c)) => if conditions_hold(params, c) {
                match lookup(r, "Actions"@) {
                    Some(PlistView::Dictionary(a)) => actions_applied(es, a),
                    _ => es,
                }
            } else {
                es
            },
            _ => es,
        },
        _ => es,
    }
}

/// The entries after the rules, in order.
pub open spec fn rules_applied(
    es: Seq<(Seq<char>, PlistView)>,
    params: Seq<(Seq<char>, PlistView)>,
    rules: Seq<PlistView>,
) -> Seq<(Seq<char>, PlistView)>
    decreases rules.len(),
{
    if rules.len() == 0 {
        es
    } else {
        rule_applied(rules_applied(es, params, rules.drop_last()), params, rules.last())
    }
}

/// The parameter name a condition key is checked against.
fn condition_parameter(key: &str) -> (r: Option<&'static str>)
    ensures
        match condition_param(key@) {
            Some(p) => r matches Some(x) && x@ == p,
            None => r is None,
        },
{
    if str_equal(key, "ApRawProductionMode") || str_equal(key, "ApCurrentProductionMode") {
        Some("ApProductionMode")
    } else if str_equal(key, "ApRawSecurityMode") {
        Some("ApSecurityMode")
    } else if str_equal(key, "ApRequiresImage4") {
        Some("ApSupportsImg4")
    } else if str_equal(key, "ApDemotionPolicyOverride") {
        Some("DemotionPolicy")
    } else if str_equal(key, "ApInRomDFU") {
        Some("ApInRomDFU")
    } else {
        None
    }
}

/// Whether all of a rule's conditions hold.
fn conditions_fulfilled(parameters: &PlistDict, conditions: &PlistDict) -> (r: bool)
    ensures
        r == conditions_hold(parameters@, conditions@),
{
    let mut i: usize = 0;
    while i < conditions.len()
        invariant
            i <= conditions@.len(),
            forall|k: int|
                0 <= k < i ==> condition_holds(parameters@, #[trigger] conditions@[k].0, conditions@[k].1),
        decreases conditions@.len() - i,
    {
        let (key, value) = conditions.entry(i);
        let holds = match condition_parameter(key.as_str()) {
            Some(p) => match parameters.get(p) {
                Some(v) => values_equal(v, value),
                None => false,
            },
            None => false,
        };
        if !holds {
            assert(!condition_holds(parameters@, conditions@[i as int].0, conditions@[i as int].1));
            return false;
        }
        i = i + 1;
    }
    true
}

/// Applies a rule's actions to `input`.
fn apply_actions(input: &mut PlistDict, actions: &PlistDict)
    ensures
        final(input)@ == actions_applied(old(input)@, actions@),
{
    let ghost start = input@;
    let mut i: usize = 0;
    while i < actions.len()
        invariant
            i <= actions@.len(),
            input@ == actions_applied(start, actions@.take(i as int)),
        decreases actions@.len() - i,
    {
        let (key, value) = actions.entry(i);
        assert(actions@.take(i + 1).drop_last() =~= actions@.take(i as int));
        assert(actions@.take(i + 1).last() == actions@[i as int]);
        let skipped = match value {
            PlistValue::Integer(n) => *n == 255,
            _ => false,
        };
        if !skipped {
            input.remove(key.as_str());
            input.insert(key.clone(), value.deep_clone());
        }
        i = i + 1;
    }
    assert(actions@.take(actions@.len() as int) =~= actions@);
}

/// Applies one rule to `input`.
fn apply_rule(input: &mut PlistDict, parameters: &PlistDict, rule: &PlistValue)
    ensures
        final(input)@ == rule_applied(old(input)@, parameters@, rule@),
{
    let r = match rule {
        PlistValue::Dictionary(r) => r,
        _ => return ,
    };
    let conditions = match r.get("Conditions") {
        Some(PlistValue::Dictionary(c)) => c,
        _ => return ,
    };
    if !conditions_fulfilled(parameters, conditions) {
        return ;
    }
    let actions = match r.get("Actions") {
        Some(PlistValue::Dictionary(a)) => a,
        _ => return ,
    };
    apply_actions(input, actions);
}

/// Applies restore request rules to a manifest entry: for each rule whose
/// conditions all hold against `parameters`, its actions set keys of
/// `input` (actions whose value is 255 are skipped).
pub fn apply_restore_request_rules(input: &mut PlistDict, parameters: &PlistDict, rules: &[PlistValue])
    ensures
        final(input)@ == rules_applied(old(input)@, parameters@, view_values(rules@)),
{
    let ghost start = input@;
    let mut i: usize = 0;
    while i < rules.len()
        invariant
            i <= rules@.len(),
            input@ == rules_applied(start, parameters@, view_values(rules@).take(i as int)),
        decreases rules@.len() - i,
    {
        apply_rule(input, parameters, &rules[i]);
        assert(view_values(rules@).take(i + 1).drop_last() =~= view_values(rules@).take(i as int));
        assert(view_values(rules@).take(i + 1).last() == rules@[i as int]@);
        i = i + 1;
    }
    assert(view_values(rules@).take(rules@.len() as int) =~= view_values(rules@));
}


/// A rule with a failing condition changes nothing: when any one entry of
/// its `Conditions` dictionary does not hold (its key names no known
/// parameter, the parameter is missing, or its value differs), the entries
/// are left exactly as they were, whatever the other conditions say.
pub proof fn law_failed_condition_blocks_rule(
    es: Seq<(Seq<char>, PlistView)>,
    params: Seq<(Seq<char>, PlistView)>,
    rule: PlistView,
    i: int,
)
    requires
        rule matches PlistView::Dictionary(r) && lookup(r, "Conditions"@) matches Some(
            PlistView::Dictionary(c),
        ) && 0 <= i < c.len() && !condition_holds(params, c[i].0, c[i].1),
    ensures
        rule_applied(es, params, rule) == es,
{
}

/// A condition on a parameter holds only when the device parameter it is
/// checked against is present with an equal value: a missing or different
/// parameter value makes it fail, for each of the condition keys.
pub proof fn law_condition_needs_matching_parameter(
    params: Seq<(Seq<char>, PlistView)>,
    key: Seq<char>,
    value: PlistView,
)
    ensures
        (key == "ApRawProductionMode"@ || key == "ApCurrentProductionMode"@) ==> (condition_holds(params, key, value)
            <==> (lookup(params, "ApProductionMode"@) matches Some(v) && plist_equal(v, value))),
        key == "ApRawSecurityMode"@ ==> (condition_holds(params, key, value) <==> (lookup(
            params,
            "ApSecurityMode"@,
        ) matches Some(v) && plist_equal(v, value))),
        key == "ApRequiresImage4"@ ==> (condition_holds(params, key, value) <==> (lookup(
            params,
            "ApSupportsImg4"@,
        ) matches Some(v) && plist_equal(v, value))),
        key == "ApDemotionPolicyOverride"@ ==> (condition_holds(params, key, value) <==> (lookup(
            params,
            "DemotionPolicy"@,
        ) matches Some(v) && plist_equal(v, value))),
        key == "ApInRomDFU"@ ==> (condition_holds(params, key, value) <==> (lookup(
            params,
            "ApInRomDFU"@,
        ) matches Some(v) && plist_equal(v, value))),
{
    reveal_strlit("ApRawProductionMode");
    reveal_strlit("ApCurrentProductionMode");
    reveal_strlit("ApRawSecurityMode");
    reveal_strlit("ApRequiresImage4");
    reveal_strlit("ApDemotionPolicyOverride");
    reveal_strlit("ApInRomDFU");
    assert("ApRawProductionMode"@[2] == 'R' && "ApRawProductionMode"@[3] == 'a' && "ApRawProductionMode"@[5] == 'P');
    assert("ApCurrentProductionMode"@[2] == 'C');
    assert("ApRawSecurityMode"@[2] == 'R' && "ApRawSecurityMode"@[3] == 'a' && "ApRawSecurityMode"@[5] == 'S');
    assert("ApRequiresImage4"@[2] == 'R' && "ApRequiresImage4"@[3] == 'e');
    assert("ApDemotionPolicyOverride"@[2] == 'D');
    assert("ApInRomDFU"@[2] == 'I');
}

/// Applying actions keeps a dictionary's keys unique.
proof fn lemma_actions_unique(es: Seq<(Seq<char>, PlistView)>, actions: Seq<(Seq<char>, PlistView)>)
    requires
        keys_unique(es),
    ensures
        keys_unique(actions_applied(es, actions)),
    decreases actions.len(),
{
    if actions.len() > 0 {
        lemma_actions_unique(es, actions.drop_last());
        let prev = actions_applied(es, actions.drop_last());
        let k = actions.last().0;
        law_lookup_removed(prev, k, k);
        law_inserted_unique(removed(prev, k), k, actions.last().1);
    }
}

/// After applying actions with unique keys, each action that is not skipped
/// has set its key to its value.
proof fn lemma_action_sets_key(es: Seq<(Seq<char>, PlistView)>, actions: Seq<(Seq<char>, PlistView)>, j: int)
    requires
        keys_unique(es),
        keys_unique(actions),
        0 <= j < actions.len(),
        !action_skipped(actions[j].1),
    ensures
        lookup(actions_applied(es, actions), actions[j].0) == Some(actions[j].1),
    decreases actions.len(),
{
    let d = actions.drop_last();
    let prev = actions_applied(es, d);
    let k = actions.last().0;
    let v = actions.last().1;
    lemma_actions_unique(es, d);
    if j == actions.len() - 1 {
        law_lookup_inserted(removed(prev, k), k, v, k);
    } else {
        assert(keys_unique(d)) by {
            assert forall|a: int, b: int| 0 <= a < b < d.len() implies d[a].0 != d[b].0 by {
                assert(d[a] == actions[a] && d[b] == actions[b]);
            }
        }
        assert(d[j] == actions[j]);
        lemma_action_sets_key(es, d, j);
        assert(actions[j].0 != k);
        if !action_skipped(v) {
            law_lookup_removed(prev, k, actions[j].0);
            law_lookup_inserted(removed(prev, k), k, v, actions[j].0);
        }
    }
}

/// A rule whose conditions all hold sets each of its actions: every
/// `Actions` entry whose value is not the integer 255 gives its key that
/// value (in a dictionary of unique keys).
pub proof fn law_rule_sets_actions(
    es: Seq<(Seq<char>, PlistView)>,
    params: Seq<(Seq<char>, PlistView)>,
    rule: PlistView,
    j: int,
)
    requires
        keys_unique(es),
        rule matches PlistView::Dictionary(r) && (lookup(r, "Conditions"@) matches Some(
            PlistView::Dictionary(c),
        ) && (forall|i: int| 0 <= i < c.len() ==> #[trigger] condition_holds(params, c[i].0, c[i].1))
            && (lookup(r, "Actions"@) matches Some(PlistView::Dictionary(a)) && keys_unique(a) && 0 <= j
            < a.len() && !action_skipped(a[j].1))),
    ensures
        ({
            let a = lookup(rule->Dictionary_0, "Actions"@)->0->Dictionary_0;
            lookup(rule_applied(es, params, rule), a[j].0) == Some(a[j].1)
        }),
{
    let r = rule->Dictionary_0;
    let a = lookup(r, "Actions"@)->0->Dictionary_0;
    lemma_action_sets_key(es, a, j);
}

// ---------------------------------------------------------------------------
// Build identities and replies
// ---------------------------------------------------------------------------

/// A hexadecimal field of a build identity: a string (leading `0x`s
/// dropped) parsed as hexadecimal, or an integer that fits a `u64`.
pub open spec fn hex_field(v: Option<PlistView>) -> Option<u64> {
    match v {
        Some(PlistView::String(s)) => parse_hex_u64_spec(without_hex_prefixes(s)),
        Some(PlistView::Integer(i)) => if 0 <= i <= u64::MAX {
            Some(i as u64)
        } else {
            None
        },
        _ => None,
    }
}

/// Reads a hexadecimal field.
fn parse_hex_field(v: Option<&PlistValue>) -> (r: Option<u64>)
    ensures
        r == hex_field(match v {
            Some(x) => Some(x@),
            None => None,
        }),
{
    match v {
        Some(PlistValue::String(s)) => parse_prefixed_hex(s.as_str()),
        Some(PlistValue::Integer(_)) => v.unwrap().as_unsigned_integer(),
        _ => None,
    }
}

/// Whether a build identity is for the board and chip, and, when one is
/// asked for, has that `Info` / `RestoreBehavior`.
pub open spec fn identity_selected(
    id: PlistView,
    board_id: u64,
    chip_id: u64,
    behavior: Option<Seq<char>>,
) -> bool {
    match id {
        PlistView::Dictionary(d) => {
            &&& hex_field(lookup(d, "ApBoardID"@)) == Some(board_id)
            &&& hex_field(lookup(d, "ApChipID"@)) == Some(chip_id)
            &&& match behavior {
                Some(b) => view_string(opt_get(lookup(d, "Info"@), "RestoreBehavior"@)) == Some(b),
                None => true,
            }
        },
        _ => false,
    }
}

/// Picks the first build identity of the manifest's `BuildIdentities` for
/// the board and chip (and restore behavior, when given).
///
/// Fails with a bad-build-manifest error when there is no such array or no
/// identity in it matches.
pub fn select_build_identity<'a>(
    build_manifest: &'a PlistDict,
    board_id: u64,
    chip_id: u64,
    restore_behavior: Option<&str>,
) -> (r: Result<&'a PlistDict, IdeviceError>)
    ensures
        ({
            let behavior = match restore_behavior {
                Some(b) => Some(b@),
                None => None,
            };
            match view_array(lookup(build_manifest@, "BuildIdentities"@)) {
                Some(ids) => match r {
                    Ok(d) => exists|i: int|
                        0 <= i < ids.len() && identity_selected(
                            #[trigger] ids[i],
                            board_id,
                            chip_id,
                            behavior,
                        ) && ids[i] == PlistView::Dictionary(d@) && forall|j: int|
                            0 <= j < i ==> !identity_selected(
                                #[trigger] ids[j],
                                board_id,
                                chip_id,
                                behavior,
                            ),
                    Err(e) => e == IdeviceError::BadBuildManifest && forall|j: int|
                        0 <= j < ids.len() ==> !identity_selected(
                            #[trigger] ids[j],
                            board_id,
                            chip_id,
                            behavior,
                        ),
                },
                None => r == Err::<&PlistDict, IdeviceError>(IdeviceError::BadBuildManifest),
            }
        }),
{
    let ghost behavior = match restore_behavior {
        Some(b) => Some(b@),
        None => None,
    };
    let identities = match build_manifest.get("BuildIdentities") {
        Some(PlistValue::Array(a)) => a,
        _ => return Err(IdeviceError::BadBuildManifest),
    };
    let ghost ids = view_values(identities@);
    assert(view_array(lookup(build_manifest@, "BuildIdentities"@)) == Some(ids));
    let mut i: usize = 0;
    while i < identities.len()
        invariant
            i <= identities@.len(),
            ids == view_values(identities@),
            view_array(lookup(build_manifest@, "BuildIdentities"@)) == Some(ids),
            behavior == match restore_behavior {
                Some(b) => Some(b@),
                None => None::<Seq<char>>,
            },
            forall|j: int| 0 <= j < i ==> !identity_selected(#[trigger] ids[j], board_id, chip_id, behavior),
        decreases identities@.len() - i,
    {
        assert(ids[i as int] == identities@[i as int]@);
        if let PlistValue::Dictionary(id) = &identities[i] {
            let board = parse_hex_field(id.get("ApBoardID"));
            let chip = parse_hex_field(id.get("ApChipID"));
            let mut behavior_ok = true;
            if let Some(b) = restore_behavior {
                let info = crate::plist::dict_of(id.get("Info"));
                behavior_ok = match crate::plist::get_in(info, "RestoreBehavior") {
                    Some(PlistValue::String(s)) => str_equal(s.as_str(), b),
                    _ => false,
                };
            }
            if board == Some(board_id) && chip == Some(chip_id) && behavior_ok {
                assert(identity_selected(ids[i as int], board_id, chip_id, behavior));
                assert(ids[i as int] == PlistView::Dictionary(id@));
                let ghost ids2 = view_array(lookup(build_manifest@, "BuildIdentities"@))->0;
                assert(identity_selected(ids2[i as int], board_id, chip_id, behavior));
                return Ok(id);
            }
        }
        i = i + 1;
    }
    Err(IdeviceError::BadBuildManifest)
}

/// The `ApImg4Ticket` data of a TSS reply.
///
/// Fails with an unexpected-response error when the reply has no such
/// data.
pub fn extract_img4_ticket(response: &PlistDict) -> (r: Result<Vec<u8>, IdeviceError>)
    ensures
        match lookup(response@, "ApImg4Ticket"@) {
            Some(PlistView::Data(d)) => r matches Ok(t) && t@ == d,
            _ => r == Err::<Vec<u8>, IdeviceError>(IdeviceError::UnexpectedResponse),
        },
{
    match response.get("ApImg4Ticket") {
        Some(PlistValue::Data(d)) => Ok(vstd::slice::slice_to_vec(d.as_slice())),
        _ => Err(IdeviceError::UnexpectedResponse),
    }
}


// ---------------------------------------------------------------------------
// Requests
// ---------------------------------------------------------------------------

/// The client version a request announces.
pub const TSS_CLIENT_VERSION_STRING: &'static str = "libauthinstall-1033.0.2";

/// The signing server's endpoint.
pub const TSS_CONTROLLER_ACTION_URL: &'static str = "http://gs.apple.com/TSS/controller?action=2";

/// Whether `s` is an upper-case hyphenated version-4 UUID: 36 characters,
/// hyphens at 8, 13, 18 and 23, upper-case hexadecimal digits elsewhere,
/// `4` at 14 and one of `8 9 A B` at 19.
pub open spec fn is_uuid_v4_upper(s: Seq<char>) -> bool {
    &&& s.len() == 36
    &&& forall|i: int|
        0 <= i < 36 ==> if i == 8 || i == 13 || i == 18 || i == 23 {
            #[trigger] s[i] == '-'
        } else {
            ('0' <= s[i] <= '9') || ('A' <= s[i] <= 'F')
        }
    &&& s[14] == '4'
    &&& (s[19] == '8' || s[19] == '9' || s[19] == 'A' || s[19] == 'B')
}

/// A fresh random version-4 UUID in upper-case hyphenated form.
///
/// Calls `uuid::Uuid::new_v4` and formats it with `UpperHex`; the contract
/// states the form that the uuid crate's formatter writes and the version
/// and variant bits that `new_v4` sets. The other digits are random.
#[verifier::external_body]
pub(crate) fn random_uuid_upper() -> (r: String)
    ensures
        is_uuid_v4_upper(r@),
{
    format!("{:X}", uuid::Uuid::new_v4())
}

/// The entries every request starts with: host platform, client version
/// and the request's UUID.
pub open spec fn header_entries(uuid: Seq<char>) -> Seq<(Seq<char>, PlistView)> {
    seq![
        ("@HostPlatformInfo"@, PlistView::String("mac"@)),
        ("@VersionInfo"@, PlistView::String(TSS_CLIENT_VERSION_STRING@)),
        ("@UUID"@, PlistView::String(uuid)),
    ]
}

/// The entries after the tags shared by image personalization and restore.
pub open spec fn common_tags(
    es: Seq<(Seq<char>, PlistView)>,
    board_id: u64,
    chip_id: u64,
    ecid: u64,
    ap_nonce: Option<Seq<u8>>,
    sep_nonce: Option<Seq<u8>>,
) -> Seq<(Seq<char>, PlistView)> {
    let e = inserted(es, "ApBoardID"@, PlistView::Integer(board_id as int));
    let e = inserted(e, "ApChipID"@, PlistView::Integer(chip_id as int));
    let e = inserted(e, "ApECID"@, PlistView::Integer(ecid as int));
    let e = inserted(e, "ApProductionMode"@, PlistView::Boolean(true));
    let e = inserted(e, "ApSecurityDomain"@, PlistView::Integer(1));
    let e = inserted(e, "ApSecurityMode"@, PlistView::Boolean(true));
    let e = inserted(e, "UID_MODE"@, PlistView::Boolean(false));
    let e = match ap_nonce {
        Some(n) => inserted(e, "ApNonce"@, PlistView::Data(n)),
        None => e,
    };
    match sep_nonce {
        Some(n) => inserted(e, "SepNonce"@, PlistView::Data(n)),
        None => e,
    }
}

/// A build-identity value as a request carries it: a string starting with
/// `0x` that parses as hexadecimal becomes that integer; anything else is
/// kept.
pub open spec fn identity_tag_value(v: PlistView) -> PlistView {
    match v {
        PlistView::String(s) => if has_prefix(s, "0x"@) {
            match parse_hex_u64_spec(without_hex_prefixes(s)) {
                Some(n) => PlistView::Integer(n as int),
                None => v,
            }
        } else {
            v
        },
        _ => v,
    }
}

/// The entries after copying the listed keys of a build identity, in
/// order, converting each value with `identity_tag_value`; absent keys
/// are skipped.
pub open spec fn identity_tags(
    es: Seq<(Seq<char>, PlistView)>,
    identity: Seq<(Seq<char>, PlistView)>,
    keys: Seq<Seq<char>>,
) -> Seq<(Seq<char>, PlistView)>
    decreases keys.len(),
{
    if keys.len() == 0 {
        es
    } else {
        let prev = identity_tags(es, identity, keys.drop_last());
        match lookup(identity, keys.last()) {
            Some(v) => inserted(prev, keys.last(), identity_tag_value(v)),
            None => prev,
        }
    }
}

/// The entries after copying the listed keys of `src` unchanged, in order;
/// absent keys are skipped.
pub open spec fn copied_keys(
    es: Seq<(Seq<char>, PlistView)>,
    src: Seq<(Seq<char>, PlistView)>,
    keys: Seq<Seq<char>>,
) -> Seq<(Seq<char>, PlistView)>
    decreases keys.len(),
{
    if keys.len() == 0 {
        es
    } else {
        let prev = copied_keys(es, src, keys.drop_last());
        match lookup(src, keys.last()) {
            Some(v) => inserted(prev, keys.last(), v),
            None => prev,
        }
    }
}

/// The entries after copying, in order, the identifiers whose key starts
/// with `Ap,`.
pub open spec fn ap_identifiers(
    es: Seq<(Seq<char>, PlistView)>,
    ids: Seq<(Seq<char>, PlistView)>,
) -> Seq<(Seq<char>, PlistView)>
    decreases ids.len(),
{
    if ids.len() == 0 {
        es
    } else {
        let prev = ap_identifiers(es, ids.drop_last());
        if has_prefix(ids.last().0, "Ap,"@) {
            inserted(prev, ids.last().0, ids.last().1)
        } else {
            prev
        }
    }
}

/// The views of a list of keys.
pub open spec fn key_views(keys: Seq<&str>) -> Seq<Seq<char>> {
    keys.map_values(|k: &str| k@)
}

/// The build-identity keys an AP ticket request copies.
pub open spec fn ap_tag_keys() -> Seq<Seq<char>> {
    seq![
        "UniqueBuildID"@,
        "Ap,OSLongVersion"@,
        "Ap,OSReleaseType"@,
        "Ap,ProductType"@,
        "Ap,SDKPlatform"@,
        "Ap,SikaFuse"@,
        "Ap,Target"@,
        "Ap,TargetType"@,
        "Ap,ProductMarketingVersion"@,
        "ApBoardID"@,
        "ApChipID"@,
        "ApSecurityDomain"@,
        "BMU,BoardID"@,
        "BMU,ChipID"@,
        "BbChipID"@,
        "BbProvisioningManifestKeyHash"@,
        "BbActivationManifestKeyHash"@,
        "BbCalibrationManifestKeyHash"@,
        "BbFactoryActivationManifestKeyHash"@,
        "BbFDRSecurityKeyHash"@,
        "BbSkeyId"@,
        "SE,ChipID"@,
        "Savage,ChipID"@,
        "Savage,PatchEpoch"@,
        "Yonkers,BoardID"@,
        "Yonkers,ChipID"@,
        "Yonkers,PatchEpoch"@,
        "Rap,BoardID"@,
        "Rap,ChipID"@,
        "Rap,SecurityDomain"@,
        "Baobab,BoardID"@,
        "Baobab,ChipID"@,
        "Baobab,ManifestEpoch"@,
        "Baobab,SecurityDomain"@,
        "eUICC,ChipID"@,
        "PearlCertificationRootPub"@,
        "Timer,BoardID,1"@,
        "Timer,BoardID,2"@,
        "Timer,ChipID,1"@,
        "Timer,ChipID,2"@,
        "Timer,SecurityDomain,1"@,
        "Timer,SecurityDomain,2"@,
        "NeRDEpoch"@,
    ]
}

/// The entries after the AP tags of a build identity: its listed keys, and
/// `RequiresUIDMode` from its `Info` when present.
pub open spec fn ap_tags(
    es: Seq<(Seq<char>, PlistView)>,
    identity: Seq<(Seq<char>, PlistView)>,
) -> Seq<(Seq<char>, PlistView)> {
    let e = identity_tags(es, identity, ap_tag_keys());
    match opt_get(lookup(identity, "Info"@), "RequiresUIDMode"@) {
        Some(v) => inserted(e, "RequiresUIDMode"@, v),
        None => e,
    }
}

/// Manifest components an AP ticket leaves out.
pub open spec fn ap_manifest_key_skipped(key: Seq<char>) -> bool {
    key == "BasebandFirmware"@ || key == "SE,UpdatePayload"@ || key == "BaseSystem"@ || key
        == "Diags"@ || key == "Ap,ExclaveOS"@ || has_prefix(key, "Cryptex1,"@)
}

/// Whether the parameters say the device supports IMG4.
pub open spec fn supports_img4(params: Seq<(Seq<char>, PlistView)>) -> bool {
    view_bool(lookup(params, "ApSupportsImg4"@)) == Some(true)
}

/// A manifest component's AP ticket entry: the component without its
/// `Info`, with its restore request rules applied and an empty `Digest`
/// added when it is trusted and has none. Components that are skipped, not
/// dictionaries, without an `Info` dictionary, without rules on an IMG4
/// device, or marked `IsFTAB`, have none.
pub open spec fn ap_manifest_entry(
    key: Seq<char>,
    item: PlistView,
    params: Seq<(Seq<char>, PlistView)>,
    img4: bool,
) -> Option<Seq<(Seq<char>, PlistView)>> {
    if ap_manifest_key_skipped(key) {
        None
    } else {
        match item {
            PlistView::Dictionary(m) => match lookup(m, "Info"@) {
                Some(PlistView::Dictionary(info)) => {
                    if img4 && lookup(info, "RestoreRequestRules"@) is None {
                        None
                    } else if view_bool(lookup(info, "IsFTAB"@)) == Some(true) {
                        None
                    } else {
                        let e = removed(m, "Info"@);
                        let e = match lookup(info, "RestoreRequestRules"@) {
                            Some(PlistView::Array(rules)) => rules_applied(e, params, rules),
                            _ => e,
                        };
                        if view_bool(lookup(m, "Trusted"@)) == Some(true) && lookup(e, "Digest"@) is None {
                            Some(inserted(e, "Digest"@, PlistView::Data(Seq::empty())))
                        } else {
                            Some(e)
                        }
                    }
                },
                _ => None,
            },
            _ => None,
        }
    }
}

/// The entries after adding the AP ticket entry of each manifest
/// component, in order.
pub open spec fn ap_manifest_tags(
    es: Seq<(Seq<char>, PlistView)>,
    manifest: Seq<(Seq<char>, PlistView)>,
    params: Seq<(Seq<char>, PlistView)>,
    img4: bool,
) -> Seq<(Seq<char>, PlistView)>
    decreases manifest.len(),
{
    if manifest.len() == 0 {
        es
    } else {
        let prev = ap_manifest_tags(es, manifest.drop_last(), params, img4);
        match ap_manifest_entry(manifest.last().0, manifest.last().1, params, img4) {
            Some(e) => inserted(prev, manifest.last().0, PlistView::Dictionary(e)),
            None => prev,
        }
    }
}

/// The parameter keys a baseband request copies.
pub open spec fn baseband_keys() -> Seq<Seq<char>> {
    seq![
        "BbChipID"@,
        "BbProvisioningManifestKeyHash"@,
        "BbActivationManifestKeyHash"@,
        "BbCalibrationManifestKeyHash"@,
        "BbFactoryActivationManifestKeyHash"@,
        "BbFDRSecurityKeyHash"@,
        "BbSkeyId"@,
        "BbNonce"@,
        "BbGoldCertId"@,
        "BbSNUM"@,
        "PearlCertificationRootPub"@,
        "Ap,OSLongVersion"@,
    ]
}

/// Whether a gold certificate ID is one of those whose baseband keeps the
/// first PSI digests.
pub open spec fn keeps_psi_digests(cert: Option<u64>) -> bool {
    cert == Some(0x26F3_FACCu64) || cert == Some(0x5CF2_EC4Eu64) || cert == Some(0x8399_785Au64)
}

/// The `BasebandFirmware` entry of a baseband request: the manifest's
/// component without its `Info`; for baseband chip 0x68 one pair of
/// partial digests is dropped, chosen by the gold certificate ID.
pub open spec fn baseband_firmware_entry(params: Seq<(Seq<char>, PlistView)>) -> Option<
    Seq<(Seq<char>, PlistView)>,
> {
    match view_dict(opt_get(lookup(params, "Manifest"@), "BasebandFirmware"@)) {
        Some(b) => {
            let d = removed(b, "Info"@);
            if view_unsigned(lookup(params, "BbChipID"@)) == Some(0x68u64) {
                if keeps_psi_digests(view_unsigned(lookup(params, "BbGoldCertId"@))) {
                    Some(removed(removed(d, "PSI2-PartialDigest"@), "RestorePSI2-PartialDigest"@))
                } else {
                    Some(removed(removed(d, "PSI-PartialDigest"@), "RestorePSI-PartialDigest"@))
                }
            } else {
                Some(d)
            }
        },
        None => None,
    }
}

/// The entries after the baseband tags.
pub open spec fn baseband_tags(
    es: Seq<(Seq<char>, PlistView)>,
    params: Seq<(Seq<char>, PlistView)>,
) -> Seq<(Seq<char>, PlistView)> {
    let e = inserted(es, "@BBTicket"@, PlistView::Boolean(true));
    let e = copied_keys(e, params, baseband_keys());
    match baseband_firmware_entry(params) {
        Some(d) => inserted(e, "BasebandFirmware"@, PlistView::Dictionary(d)),
        None => e,
    }
}

/// A manifest component's request entry when populating from a manifest:
/// trusted dictionary components with an `Info` dictionary, without their
/// `Info`, with the rules (the override, or the component's own) applied,
/// and an empty `Digest` when the component has none.
pub open spec fn populated_entry(
    item: PlistView,
    params: Seq<(Seq<char>, PlistView)>,
    rules_override: Option<Seq<PlistView>>,
) -> Option<Seq<(Seq<char>, PlistView)>> {
    match item {
        PlistView::Dictionary(m) => match lookup(m, "Info"@) {
            Some(PlistView::Dictionary(info)) => if lookup(m, "Trusted"@) == Some(
                PlistView::Boolean(true),
            ) {
                let e = removed(m, "Info"@);
                let rules = match rules_override {
                    Some(r) => Some(r),
                    None => view_array(lookup(info, "RestoreRequestRules"@)),
                };
                let e = match rules {
                    Some(r) => rules_applied(e, params, r),
                    None => e,
                };
                if lookup(m, "Digest"@) is None {
                    Some(inserted(e, "Digest"@, PlistView::Data(Seq::empty())))
                } else {
                    Some(e)
                }
            } else {
                None
            },
            _ => None,
        },
        _ => None,
    }
}

/// The entries after populating from each manifest component, in order.
pub open spec fn populated(
    es: Seq<(Seq<char>, PlistView)>,
    manifest: Seq<(Seq<char>, PlistView)>,
    params: Seq<(Seq<char>, PlistView)>,
    rules_override: Option<Seq<PlistView>>,
) -> Seq<(Seq<char>, PlistView)>
    decreases manifest.len(),
{
    if manifest.len() == 0 {
        es
    } else {
        let prev = populated(es, manifest.drop_last(), params, rules_override);
        match populated_entry(manifest.last().1, params, rules_override) {
            Some(e) => inserted(prev, manifest.last().0, PlistView::Dictionary(e)),
            None => prev,
        }
    }
}

/// The build-identity keys an AP ticket request copies.
fn ap_tag_key_list() -> (r: Vec<&'static str>)
    ensures
        key_views(r@) == ap_tag_keys(),
{
    let v = vec![
        "UniqueBuildID",
        "Ap,OSLongVersion",
        "Ap,OSReleaseType",
        "Ap,ProductType",
        "Ap,SDKPlatform",
        "Ap,SikaFuse",
        "Ap,Target",
        "Ap,TargetType",
        "Ap,ProductMarketingVersion",
        "ApBoardID",
        "ApChipID",
        "ApSecurityDomain",
        "BMU,BoardID",
        "BMU,ChipID",
        "BbChipID",
        "BbProvisioningManifestKeyHash",
        "BbActivationManifestKeyHash",
        "BbCalibrationManifestKeyHash",
        "BbFactoryActivationManifestKeyHash",
        "BbFDRSecurityKeyHash",
        "BbSkeyId",
        "SE,ChipID",
        "Savage,ChipID",
        "Savage,PatchEpoch",
        "Yonkers,BoardID",
        "Yonkers,ChipID",
        "Yonkers,PatchEpoch",
        "Rap,BoardID",
        "Rap,ChipID",
        "Rap,SecurityDomain",
        "Baobab,BoardID",
        "Baobab,ChipID",
        "Baobab,ManifestEpoch",
        "Baobab,SecurityDomain",
        "eUICC,ChipID",
        "PearlCertificationRootPub",
        "Timer,BoardID,1",
        "Timer,BoardID,2",
        "Timer,ChipID,1",
        "Timer,ChipID,2",
        "Timer,SecurityDomain,1",
        "Timer,SecurityDomain,2",
        "NeRDEpoch",
    ];
    assert(key_views(v@) =~= ap_tag_keys());
    v
}

/// The parameter keys a baseband request copies.
fn baseband_key_list() -> (r: Vec<&'static str>)
    ensures
        key_views(r@) == baseband_keys(),
{
    let v = vec![
        "BbChipID",
        "BbProvisioningManifestKeyHash",
        "BbActivationManifestKeyHash",
        "BbCalibrationManifestKeyHash",
        "BbFactoryActivationManifestKeyHash",
        "BbFDRSecurityKeyHash",
        "BbSkeyId",
        "BbNonce",
        "BbGoldCertId",
        "BbSNUM",
        "PearlCertificationRootPub",
        "Ap,OSLongVersion",
    ];
    assert(key_views(v@) =~= baseband_keys());
    v
}

/// Whether a manifest component is left out of an AP ticket.
fn is_ap_manifest_key_skipped(key: &str) -> (r: bool)
    ensures
        r == ap_manifest_key_skipped(key@),
{
    str_equal(key, "BasebandFirmware") || str_equal(key, "SE,UpdatePayload") || str_equal(
        key,
        "BaseSystem",
    ) || str_equal(key, "Diags") || str_equal(key, "Ap,ExclaveOS") || str_starts_with(
        key,
        "Cryptex1,",
    )
}

/// The boolean a value holds, or `false`.
fn bool_or_false(v: Option<&PlistValue>) -> (r: bool)
    ensures
        r == (view_bool(
            match v {
                Some(x) => Some(x@),
                None => None,
            },
        ) == Some(true)),
{
    match v {
        Some(PlistValue::Boolean(b)) => *b,
        _ => false,
    }
}

/// A manifest component's AP ticket entry.
fn ap_manifest_entry_for(
    key: &str,
    item: &PlistValue,
    parameters: &PlistDict,
    img4: bool,
) -> (r: Option<PlistDict>)
    ensures
        match ap_manifest_entry(key@, item@, parameters@, img4) {
            Some(e) => r matches Some(d) && d@ == e,
            None => r is None,
        },
{
    if is_ap_manifest_key_skipped(key) {
        return None;
    }
    let m = match item {
        PlistValue::Dictionary(m) => m,
        _ => return None,
    };
    let info = match m.get("Info") {
        Some(PlistValue::Dictionary(i)) => i,
        _ => return None,
    };
    if img4 && !info.contains_key("RestoreRequestRules") {
        return None;
    }
    if bool_or_false(info.get("IsFTAB")) {
        return None;
    }
    let mut entry = m.deep_clone();
    entry.remove("Info");
    if let Some(PlistValue::Array(rules)) = info.get("RestoreRequestRules") {
        apply_restore_request_rules(&mut entry, parameters, rules.as_slice());
    }
    if bool_or_false(m.get("Trusted")) && !entry.contains_key("Digest") {
        entry.insert(String::from_str("Digest"), PlistValue::Data(Vec::new()));
    }
    Some(entry)
}

/// A manifest component's request entry when populating from a manifest.
fn populated_entry_for(
    item: &PlistValue,
    parameters: &PlistDict,
    rules_override: Option<&[PlistValue]>,
) -> (r: Option<PlistDict>)
    ensures
        match populated_entry(
            item@,
            parameters@,
            match rules_override {
                Some(x) => Some(view_values(x@)),
                None => None,
            },
        ) {
            Some(e) => r matches Some(d) && d@ == e,
            None => r is None,
        },
{
    let m = match item {
        PlistValue::Dictionary(m) => m,
        _ => return None,
    };
    let info = match m.get("Info") {
        Some(PlistValue::Dictionary(i)) => i,
        _ => return None,
    };
    match m.get("Trusted") {
        Some(PlistValue::Boolean(true)) => {},
        _ => return None,
    }
    let mut entry = m.deep_clone();
    entry.remove("Info");
    match rules_override {
        Some(r) => apply_restore_request_rules(&mut entry, parameters, r),
        None => {
            if let Some(PlistValue::Array(rules)) = info.get("RestoreRequestRules") {
                apply_restore_request_rules(&mut entry, parameters, rules.as_slice());
            }
        },
    }
    if !m.contains_key("Digest") {
        entry.insert(String::from_str("Digest"), PlistValue::Data(Vec::new()));
    }
    Some(entry)
}

/// A ticket request being assembled: a dictionary of request tags.
pub struct TSSRequest {
    inner: PlistDict,
}

impl View for TSSRequest {
    type V = Seq<(Seq<char>, PlistView)>;

    closed spec fn view(&self) -> Seq<(Seq<char>, PlistView)> {
        self.inner@
    }
}

impl TSSRequest {
    /// A request with the standard header and a fresh random UUID.
    pub fn new() -> (r: TSSRequest)
        ensures
            r@[2].1 matches PlistView::String(u) && is_uuid_v4_upper(u) && r@ == header_entries(u),
    {
        let uuid = random_uuid_upper();
        TSSRequest::with_uuid(uuid)
    }

    /// A request with the standard header and the given UUID.
    pub fn with_uuid(uuid: String) -> (r: TSSRequest)
        ensures
            r@ == header_entries(uuid@),
    {
        let ghost u = uuid@;
        proof {
            reveal_strlit("@HostPlatformInfo");
            reveal_strlit("@VersionInfo");
            reveal_strlit("@UUID");
        }
        let mut inner = PlistDict::new();
        inner.insert(String::from_str("@HostPlatformInfo"), PlistValue::String(String::from_str("mac")));
        assert(inner@ =~= header_entries(u).take(1));
        let ghost e1 = inner@;
        assert(e1.drop_last() =~= Seq::<(Seq<char>, PlistView)>::empty());
        assert("@HostPlatformInfo"@.len() == 17 && "@VersionInfo"@.len() == 12 && "@UUID"@.len() == 5);
        assert("@HostPlatformInfo"@ != "@VersionInfo"@);
        proof {
            crate::plist::lemma_key_index(e1, "@VersionInfo"@);
        }
        inner.insert(
            String::from_str("@VersionInfo"),
            PlistValue::String(String::from_str(TSS_CLIENT_VERSION_STRING)),
        );
        assert(inner@ =~= header_entries(u).take(2));
        let ghost e2 = inner@;
        assert(e2.drop_last() =~= e1);
        assert("@HostPlatformInfo"@ != "@UUID"@);
        assert("@VersionInfo"@ != "@UUID"@);
        proof {
            crate::plist::lemma_key_index(e2, "@UUID"@);
        }
        inner.insert(String::from_str("@UUID"), PlistValue::String(uuid));
        assert(inner@ =~= header_entries(u));
        TSSRequest { inner }
    }

    /// The request's dictionary.
    pub fn dictionary(&self) -> (r: &PlistDict)
        ensures
            r@ == self@,
    {
        &self.inner
    }

    /// Sets `key` to `val`.
    pub fn insert(&mut self, key: String, val: PlistValue)
        ensures
            final(self)@ == inserted(old(self)@, key@, val@),
    {
        self.inner.insert(key, val);
    }

    /// Sets the tag named by a literal.
    fn put(&mut self, key: &str, val: PlistValue)
        ensures
            final(self)@ == inserted(old(self)@, key@, val@),
    {
        self.inner.insert(String::from_str(key), val);
    }

    /// Removes `key`, giving back its value if it was present.
    pub fn remove(&mut self, key: &str) -> (r: Option<PlistValue>)
        ensures
            final(self)@ == removed(old(self)@, key@),
            match lookup(old(self)@, key@) {
                Some(v) => r matches Some(x) && x@ == v,
                None => r is None,
            },
    {
        self.inner.remove(key)
    }

    /// Sets the `@ApImg4Ticket` flag.
    pub fn set_ap_img4_ticket(&mut self, value: bool)
        ensures
            final(self)@ == inserted(old(self)@, "@ApImg4Ticket"@, PlistView::Boolean(value)),
    {
        self.put("@ApImg4Ticket", PlistValue::Boolean(value));
    }

    /// Sets the `@BBTicket` flag.
    pub fn set_bb_ticket(&mut self, value: bool)
        ensures
            final(self)@ == inserted(old(self)@, "@BBTicket"@, PlistView::Boolean(value)),
    {
        self.put("@BBTicket", PlistValue::Boolean(value));
    }

    /// Adds the `Ap*` identity tags shared by image personalization and
    /// restore, and the nonces that are given.
    pub fn add_common_tags(
        &mut self,
        board_id: u64,
        chip_id: u64,
        ecid: u64,
        ap_nonce: Option<Vec<u8>>,
        sep_nonce: Option<Vec<u8>>,
    )
        ensures
            final(self)@ == common_tags(
                old(self)@,
                board_id,
                chip_id,
                ecid,
                match ap_nonce {
                    Some(n) => Some(n@),
                    None => None,
                },
                match sep_nonce {
                    Some(n) => Some(n@),
                    None => None,
                },
            ),
    {
        self.put("ApBoardID", PlistValue::Integer(board_id as i128));
        self.put("ApChipID", PlistValue::Integer(chip_id as i128));
        self.put("ApECID", PlistValue::Integer(ecid as i128));
        self.put("ApProductionMode", PlistValue::Boolean(true));
        self.put("ApSecurityDomain", PlistValue::Integer(1));
        self.put("ApSecurityMode", PlistValue::Boolean(true));
        self.put("UID_MODE", PlistValue::Boolean(false));
        if let Some(n) = ap_nonce {
            self.put("ApNonce", PlistValue::Data(n));
        }
        if let Some(n) = sep_nonce {
            self.put("SepNonce", PlistValue::Data(n));
        }
    }

    /// Copies the listed keys of a build identity; a string value starting
    /// with `0x` that parses as hexadecimal is stored as that integer.
    pub fn add_build_identity_tags(&mut self, build_identity: &PlistDict, keys: &[&str])
        ensures
            final(self)@ == identity_tags(old(self)@, build_identity@, key_views(keys@)),
    {
        let ghost start = self@;
        let mut i: usize = 0;
        while i < keys.len()
            invariant
                i <= keys@.len(),
                self@ == identity_tags(start, build_identity@, key_views(keys@).take(i as int)),
            decreases keys@.len() - i,
        {
            let key = keys[i];
            assert(key_views(keys@).take(i + 1).drop_last() =~= key_views(keys@).take(i as int));
            assert(key_views(keys@).take(i + 1).last() == key@);
            if let Some(v) = build_identity.get(key) {
                let converted = match v {
                    PlistValue::String(s) => {
                        if str_starts_with(s.as_str(), "0x") {
                            match parse_prefixed_hex(s.as_str()) {
                                Some(n) => PlistValue::Integer(n as i128),
                                None => v.deep_clone(),
                            }
                        } else {
                            v.deep_clone()
                        }
                    },
                    _ => v.deep_clone(),
                };
                proof {
                    reveal_strlit("0x");
                }
                self.put(key, converted);
            }
            i = i + 1;
        }
        assert(key_views(keys@).take(keys@.len() as int) =~= key_views(keys@));
    }

    /// Copies the personalization identifiers whose key starts with `Ap,`.
    pub fn add_ap_personalization_identifiers(&mut self, identifiers: &PlistDict)
        ensures
            final(self)@ == ap_identifiers(old(self)@, identifiers@),
    {
        let ghost start = self@;
        let mut i: usize = 0;
        while i < identifiers.len()
            invariant
                i <= identifiers@.len(),
                self@ == ap_identifiers(start, identifiers@.take(i as int)),
            decreases identifiers@.len() - i,
        {
            let (key, val) = identifiers.entry(i);
            assert(identifiers@.take(i + 1).drop_last() =~= identifiers@.take(i as int));
            assert(identifiers@.take(i + 1).last() == identifiers@[i as int]);
            if str_starts_with(key.as_str(), "Ap,") {
                self.insert(key.clone(), val.deep_clone());
            }
            i = i + 1;
        }
        assert(identifiers@.take(identifiers@.len() as int) =~= identifiers@);
    }

    /// Copies the listed keys of `src` unchanged.
    fn add_copied_keys(&mut self, src: &PlistDict, keys: &[&str])
        ensures
            final(self)@ == copied_keys(old(self)@, src@, key_views(keys@)),
    {
        let ghost start = self@;
        let mut i: usize = 0;
        while i < keys.len()
            invariant
                i <= keys@.len(),
                self@ == copied_keys(start, src@, key_views(keys@).take(i as int)),
            decreases keys@.len() - i,
        {
            let key = keys[i];
            assert(key_views(keys@).take(i + 1).drop_last() =~= key_views(keys@).take(i as int));
            assert(key_views(keys@).take(i + 1).last() == key@);
            if let Some(v) = src.get(key) {
                self.put(key, v.deep_clone());
            }
            i = i + 1;
        }
        assert(key_views(keys@).take(keys@.len() as int) =~= key_views(keys@));
    }

    /// Adds the AP tags of a build identity: its identity keys (hex strings
    /// made integers) and `RequiresUIDMode` from its `Info`.
    pub fn add_ap_tags(&mut self, build_identity: &PlistDict)
        ensures
            final(self)@ == ap_tags(old(self)@, build_identity@),
    {
        let keys = ap_tag_key_list();
        self.add_build_identity_tags(build_identity, keys.as_slice());
        let info = dict_of(build_identity.get("Info"));
        if let Some(r) = get_in(info, "RequiresUIDMode") {
            self.put("RequiresUIDMode", r.deep_clone());
        }
    }

    /// Adds the AP ticket entry of each component of the build identity's
    /// manifest.
    ///
    /// Fails with a bad-build-manifest error, changing nothing, when the
    /// identity has no `Manifest` dictionary.
    pub fn add_ap_manifest_tags(&mut self, build_identity: &PlistDict, parameters: &PlistDict) -> (r:
        Result<(), IdeviceError>)
        ensures
            match view_dict(lookup(build_identity@, "Manifest"@)) {
                Some(m) => r is Ok && final(self)@ == ap_manifest_tags(
                    old(self)@,
                    m,
                    parameters@,
                    supports_img4(parameters@),
                ),
                None => r == Err::<(), IdeviceError>(IdeviceError::BadBuildManifest) && final(self)@
                    == old(self)@,
            },
    {
        let manifest = match build_identity.get("Manifest") {
            Some(PlistValue::Dictionary(m)) => m,
            _ => return Err(IdeviceError::BadBuildManifest),
        };
        let img4 = bool_or_false(parameters.get("ApSupportsImg4"));
        let ghost start = self@;
        let mut i: usize = 0;
        while i < manifest.len()
            invariant
                i <= manifest@.len(),
                img4 == supports_img4(parameters@),
                self@ == ap_manifest_tags(start, manifest@.take(i as int), parameters@, img4),
            decreases manifest@.len() - i,
        {
            let (key, item) = manifest.entry(i);
            assert(manifest@.take(i + 1).drop_last() =~= manifest@.take(i as int));
            assert(manifest@.take(i + 1).last() == manifest@[i as int]);
            if let Some(entry) = ap_manifest_entry_for(key.as_str(), item, parameters, img4) {
                self.insert(key.clone(), PlistValue::Dictionary(entry));
            }
            i = i + 1;
        }
        assert(manifest@.take(manifest@.len() as int) =~= manifest@);
        Ok(())
    }

    /// Adds the baseband tags: the `@BBTicket` flag, the baseband
    /// parameters, and the manifest's `BasebandFirmware` entry.
    pub fn add_baseband_tags(&mut self, parameters: &PlistDict)
        ensures
            final(self)@ == baseband_tags(old(self)@, parameters@),
    {
        self.put("@BBTicket", PlistValue::Boolean(true));
        let keys = baseband_key_list();
        self.add_copied_keys(parameters, keys.as_slice());
        let manifest = dict_of(parameters.get("Manifest"));
        if let Some(bbfw) = dict_of(get_in(manifest, "BasebandFirmware")) {
            let mut d = bbfw.deep_clone();
            d.remove("Info");
            let chip = match parameters.get("BbChipID") {
                Some(v) => v.as_unsigned_integer(),
                None => None,
            };
            let cert = match parameters.get("BbGoldCertId") {
                Some(v) => v.as_unsigned_integer(),
                None => None,
            };
            if chip == Some(0x68u64) {
                if cert == Some(0x26F3_FACCu64) || cert == Some(0x5CF2_EC4Eu64) || cert == Some(
                    0x8399_785Au64,
                ) {
                    d.remove("PSI2-PartialDigest");
                    d.remove("RestorePSI2-PartialDigest");
                } else {
                    d.remove("PSI-PartialDigest");
                    d.remove("RestorePSI-PartialDigest");
                }
            }
            self.put("BasebandFirmware", PlistValue::Dictionary(d));
        }
    }

    /// Adds a request entry for each trusted component of the build
    /// identity's manifest, applying `rules_override` in place of each
    /// component's own rules when given.
    ///
    /// Fails with a bad-build-manifest error, changing nothing, when the
    /// identity has no `Manifest` dictionary.
    pub fn populate_from_manifest(
        &mut self,
        build_identity: &PlistDict,
        parameters: &PlistDict,
        rules_override: Option<&[PlistValue]>,
    ) -> (r: Result<(), IdeviceError>)
        ensures
            match view_dict(lookup(build_identity@, "Manifest"@)) {
                Some(m) => r is Ok && final(self)@ == populated(
                    old(self)@,
                    m,
                    parameters@,
                    match rules_override {
                        Some(x) => Some(view_values(x@)),
                        None => None,
                    },
                ),
                None => r == Err::<(), IdeviceError>(IdeviceError::BadBuildManifest) && final(self)@
                    == old(self)@,
            },
    {
        let manifest = match build_identity.get("Manifest") {
            Some(PlistValue::Dictionary(m)) => m,
            _ => return Err(IdeviceError::BadBuildManifest),
        };
        let ghost ov = match rules_override {
            Some(x) => Some(view_values(x@)),
            None => None,
        };
        let ghost start = self@;
        let mut i: usize = 0;
        while i < manifest.len()
            invariant
                i <= manifest@.len(),
                ov == match rules_override {
                    Some(x) => Some(view_values(x@)),
                    None => None::<Seq<PlistView>>,
                },
                self@ == populated(start, manifest@.take(i as int), parameters@, ov),
            decreases manifest@.len() - i,
        {
            let (key, item) = manifest.entry(i);
            assert(manifest@.take(i + 1).drop_last() =~= manifest@.take(i as int));
            assert(manifest@.take(i + 1).last() == manifest@[i as int]);
            if let Some(entry) = populated_entry_for(item, parameters, rules_override) {
                self.insert(key.clone(), PlistValue::Dictionary(entry));
            }
            i = i + 1;
        }
        assert(manifest@.take(manifest@.len() as int) =~= manifest@);
        Ok(())
    }
}


// ---------------------------------------------------------------------------
// Replies
// ---------------------------------------------------------------------------

/// `s` without all of its leading copies of `p` (what
/// `trim_start_matches` leaves).
pub open spec fn trim_leading(s: Seq<u8>, p: Seq<u8>) -> Seq<u8>
    decreases s.len(),
{
    if p.len() > 0 && p.len() <= s.len() && s.take(p.len() as int) == p {
        trim_leading(s.skip(p.len() as int), p)
    } else {
        s
    }
}

/// The first position at or after `from` where `p` occurs in `s`.
pub open spec fn find_from(s: Seq<u8>, p: Seq<u8>, from: int) -> Option<int>
    decreases s.len() + 1 - from,
{
    if from < 0 || from + p.len() > s.len() {
        None
    } else if s.subrange(from, from + p.len()) == p {
        Some(from)
    } else {
        find_from(s, p, from + 1)
    }
}

/// What follows the status in a signing server reply: the text after the
/// first `REQUEST_STRING=`, up to the next one. There is none unless the
/// reply, without its leading `STATUS=0&`s and then its leading
/// `MESSAGE=`s, starts with `SUCCESS`, and has a `REQUEST_STRING=`.
pub open spec fn tss_payload(res: Seq<u8>) -> Option<Seq<u8>> {
    let marker = "REQUEST_STRING=".spec_bytes();
    let t = trim_leading(trim_leading(res, "STATUS=0&".spec_bytes()), "MESSAGE=".spec_bytes());
    let success = "SUCCESS".spec_bytes();
    if !(success.len() <= t.len() && t.take(success.len() as int) == success) {
        None
    } else {
        match find_from(res, marker, 0) {
            None => None,
            Some(i) => {
                let start = i + marker.len();
                match find_from(res, marker, start) {
                    Some(j) => Some(res.subrange(start, j)),
                    None => Some(res.subrange(start, res.len() as int)),
                }
            },
        }
    }
}

/// Whether `p` occurs in `s` at `at`.
fn bytes_match_at(s: &[u8], p: &[u8], at: usize) -> (r: bool)
    ensures
        r == (at + p@.len() <= s@.len() && s@.subrange(at as int, at + p@.len()) == p@),
{
    if at > s.len() || p.len() > s.len() - at {
        return false;
    }
    let mut k: usize = 0;
    while k < p.len()
        invariant
            at + p@.len() <= s@.len(),
            s@.len() == s.len(),
            k <= p@.len(),
            forall|m: int| 0 <= m < k ==> s@[at + m] == p@[m],
        decreases p.len() - k,
    {
        if s[at + k] != p[k] {
            assert(s@.subrange(at as int, at + p@.len())[k as int] != p@[k as int]);
            return false;
        }
        k = k + 1;
    }
    assert(s@.subrange(at as int, at + p@.len()) =~= p@);
    true
}

/// The position after the leading copies of `p` in `s[from..]`.
fn skip_leading(s: &[u8], p: &[u8], from: usize) -> (r: usize)
    requires
        from <= s@.len(),
    ensures
        from <= r <= s@.len(),
        trim_leading(s@.skip(from as int), p@) == s@.skip(r as int),
{
    let mut pos = from;
    while p.len() > 0 && bytes_match_at(s, p, pos)
        invariant
            from <= pos <= s@.len(),
            s@.len() == s.len(),
            trim_leading(s@.skip(from as int), p@) == trim_leading(s@.skip(pos as int), p@),
        decreases s@.len() - pos,
    {
        let ghost rest = s@.skip(pos as int);
        assert(rest.take(p@.len() as int) =~= s@.subrange(pos as int, pos + p@.len()));
        assert(rest.skip(p@.len() as int) =~= s@.skip(pos + p@.len()));
        pos = pos + p.len();
    }
    proof {
        let rest = s@.skip(pos as int);
        if p@.len() > 0 && p@.len() <= rest.len() {
            assert(rest.take(p@.len() as int) =~= s@.subrange(pos as int, pos + p@.len()));
        }
    }
    pos
}

/// The first position at or after `from` where `p` occurs in `s`.
fn find_bytes_from(s: &[u8], p: &[u8], from: usize) -> (r: Option<usize>)
    requires
        p@.len() > 0,
    ensures
        match r {
            Some(i) => find_from(s@, p@, from as int) == Some(i as int) && from <= i && i + p@.len()
                <= s@.len(),
            None => find_from(s@, p@, from as int) is None,
        },
{
    let mut i = from;
    while i <= s.len() && p.len() <= s.len() - i
        invariant
            from <= i,
            p@.len() > 0,
            find_from(s@, p@, from as int) == find_from(s@, p@, i as int),
        decreases s@.len() + 1 - i,
    {
        if bytes_match_at(s, p, i) {
            return Some(i);
        }
        i = i + 1;
    }
    None
}

/// The text after the status of a signing server reply, as
/// `tss_payload` describes it.
///
/// Fails with an unexpected-response error when the reply is not a success
/// or has no `REQUEST_STRING=`.
pub fn tss_response_payload(res: &[u8]) -> (r: Result<Vec<u8>, IdeviceError>)
    ensures
        match tss_payload(res@) {
            Some(p) => r matches Ok(v) && v@ == p,
            None => r == Err::<Vec<u8>, IdeviceError>(IdeviceError::UnexpectedResponse),
        },
{
    let status = "STATUS=0&".as_bytes();
    let message = "MESSAGE=".as_bytes();
    let success = "SUCCESS".as_bytes();
    let marker = "REQUEST_STRING=".as_bytes();
    proof {
        reveal_strlit("REQUEST_STRING=");
    }
    assert(res@.skip(0) =~= res@);
    let a = skip_leading(res, status, 0);
    let b = skip_leading(res, message, a);
    let ghost t = res@.skip(b as int);
    let ghost n = success@.len() as int;
    if !bytes_match_at(res, success, b) {
        proof {
            if n <= t.len() && t.take(n) == success@ {
                assert(t.take(n) =~= res@.subrange(b as int, b + n));
            }
        }
        return Err(IdeviceError::UnexpectedResponse);
    }
    assert(t.take(n) =~= res@.subrange(b as int, b + n));
    let i = match find_bytes_from(res, marker, 0) {
        Some(i) => i,
        None => return Err(IdeviceError::UnexpectedResponse),
    };
    let total = res.len();
    let start = i + marker.len();
    let end = match find_bytes_from(res, marker, start) {
        Some(j) => j,
        None => res.len(),
    };
    Ok(vstd::slice::slice_to_vec(&res[start..end]))
}

} // verus!
