//! The JSON envelope of the pairing-verification messages: the request text
//! that carries a message's base64 data, and the path in the reply that
//! holds the device's data.
use vstd::prelude::*;

use crate::pairing::verify::{verify_finish_data, verify_start_data, RpPairingFile};
use crate::plist::{opt_get, view_string, PlistValue, PlistView};
use crate::text::{decimal_chars, decimal_string, str_chars, utf8_bytes};
use vstd::string::{StrSliceExecFns, StringExecFns};

verus! {

/// The lower-case hexadecimal digit of a value below 16.
pub open spec fn hex_lower(v: int) -> char {
    if v < 10 {
        ('0' as int + v) as char
    } else {
        ('a' as int + (v - 10)) as char
    }
}

/// How a character is written inside a JSON string: `"` and `\` behind a
/// backslash, the control characters with a short escape where JSON has
/// one and as `\u00XX` otherwise, every other character as it is.
pub open spec fn json_escape_char(c: char) -> Seq<char> {
    if c == '"' {
        seq!['\\', '"']
    } else if c == '\\' {
        seq!['\\', '\\']
    } else if c == '\u{8}' {
        seq!['\\', 'b']
    } else if c == '\t' {
        seq!['\\', 't']
    } else if c == '\n' {
        seq!['\\', 'n']
    } else if c == '\u{c}' {
        seq!['\\', 'f']
    } else if c == '\r' {
        seq!['\\', 'r']
    } else if (c as u32) < 0x20 {
        seq!['\\', 'u', '0', '0', hex_lower(c as int / 16), hex_lower(c as int % 16)]
    } else {
        seq![c]
    }
}

/// The characters of a text as written inside a JSON string.
pub open spec fn json_escaped(s: Seq<char>) -> Seq<char>
    decreases s.len(),
{
    if s.len() == 0 {
        Seq::empty()
    } else {
        json_escaped(s.drop_last()) + json_escape_char(s.last())
    }
}

/// A text as a JSON string.
pub open spec fn json_string(s: Seq<char>) -> Seq<char> {
    seq!['"'] + json_escaped(s) + seq!['"']
}

/// The request that carries pairing data: the plain message numbered
/// `sequence`, from the host, whose event is a `verifyManualPairing`
/// pairing-data event with the data and whether it starts a new session.
pub open spec fn pairing_request_text(sequence: nat, data: Seq<char>, new_session: bool) -> Seq<char> {
    "{\"sequenceNumber\":"@ + decimal_chars(sequence)
        + ",\"originatedBy\":\"host\",\"message\":{\"plain\":{\"_0\":{\"event\":{\"_0\":{\"pairingData\":{\"_0\":{\"data\":"@
        + json_string(data) + ",\"kind\":\"verifyManualPairing\",\"startNewSession\":"@ + (if new_session {
        "true"@
    } else {
        "false"@
    }) + "}}}}}}}}"@
}

/// How one character is written inside a JSON string, given the
/// character's own text.
fn escape_piece(c: char, one: &str) -> (r: String)
    requires
        one@ == seq![c],
    ensures
        r@ == json_escape_char(c),
{
    let r = if c == '"' {
        String::from_str("\\\"")
    } else if c == '\\' {
        String::from_str("\\\\")
    } else if c == '\u{8}' {
        String::from_str("\\b")
    } else if c == '\t' {
        String::from_str("\\t")
    } else if c == '\n' {
        String::from_str("\\n")
    } else if c == '\u{c}' {
        String::from_str("\\f")
    } else if c == '\r' {
        String::from_str("\\r")
    } else if (c as u32) < 0x20 {
        let u = c as u32;
        let digits = "0123456789abcdef";
        proof {
            reveal_strlit("0123456789abcdef");
        }
        let hi = digits.substring_char((u / 16) as usize, (u / 16) as usize + 1);
        let lo = digits.substring_char((u % 16) as usize, (u % 16) as usize + 1);
        let mut s = String::from_str("\\u00");
        s.append(hi);
        s.append(lo);
        proof {
            reveal_strlit("\\u00");
            assert(hi@ =~= seq![hex_lower(c as int / 16)]);
            assert(lo@ =~= seq![hex_lower(c as int % 16)]);
        }
        s
    } else {
        String::from_str(one)
    };
    proof {
        reveal_strlit("\\\"");
        reveal_strlit("\\\\");
        reveal_strlit("\\b");
        reveal_strlit("\\t");
        reveal_strlit("\\n");
        reveal_strlit("\\f");
        reveal_strlit("\\r");
    }
    assert(r@ =~= json_escape_char(c));
    r
}

/// A text as a JSON string, quoted and escaped.
pub fn json_quote(text: &str) -> (r: String)
    ensures
        r@ == json_string(text@),
{
    let chars = str_chars(text);
    let n = chars.len();
    let mut out = String::from_str("\"");
    proof {
        reveal_strlit("\"");
    }
    let mut i: usize = 0;
    assert(text@.take(0) =~= Seq::<char>::empty());
    while i < n
        invariant
            n == chars@.len(),
            chars@ == text@,
            i <= n,
            out@ == seq!['"'] + json_escaped(text@.take(i as int)),
        decreases n - i,
    {
        let one = text.substring_char(i, i + 1);
        assert(one@ =~= seq![chars@[i as int]]);
        let piece = escape_piece(chars[i], one);
        out.append(piece.as_str());
        assert(text@.take(i + 1).drop_last() =~= text@.take(i as int));
        assert(text@.take(i + 1).last() == chars@[i as int]);
        assert(out@ =~= seq!['"'] + json_escaped(text@.take(i + 1)));
        i = i + 1;
    }
    assert(text@.take(n as int) =~= text@);
    out.append("\"");
    assert(out@ =~= json_string(text@));
    out
}

/// The request text that carries pairing data (see
/// [`pairing_request_text`]).
pub fn pairing_request(sequence: u64, data: &str, new_session: bool) -> (r: String)
    ensures
        r@ == pairing_request_text(sequence as nat, data@, new_session),
{
    let mut r = String::from_str("{\"sequenceNumber\":");
    let number = decimal_string(sequence);
    r.append(number.as_str());
    r.append(
        ",\"originatedBy\":\"host\",\"message\":{\"plain\":{\"_0\":{\"event\":{\"_0\":{\"pairingData\":{\"_0\":{\"data\":",
    );
    let quoted = json_quote(data);
    r.append(quoted.as_str());
    r.append(",\"kind\":\"verifyManualPairing\",\"startNewSession\":");
    if new_session {
        r.append("true");
    } else {
        r.append("false");
    }
    r.append("}}}}}}}}");
    r
}

/// The request that starts verification: the start message's data, in a
/// new session.
pub fn verify_start_request(pairing: &RpPairingFile, sequence: u64) -> (r: String)
    ensures
        r@ == pairing_request_text(sequence as nat, crate::pairing::verify::base64_text(
            crate::pairing::tlv::tlv8_encoding(crate::pairing::verify::verify_start_records(pairing.x_public_key@)),
        ), true),
{
    let data = verify_start_data(pairing);
    pairing_request(sequence, data.as_str(), true)
}

/// The request that finishes verification: the finishing message's data,
/// in the same session.
pub fn verify_finish_request(pairing: &RpPairingFile, device_public_key: &[u8; 32], sequence: u64) -> (r:
    String)
    requires
        utf8_bytes(pairing.identifier@).len() + 68 <= 0xFFFF_FFFF,
        4 * ((utf8_bytes(pairing.identifier@).len() + 91) / 3) <= usize::MAX,
    ensures
        r@ == pairing_request_text(sequence as nat, crate::pairing::verify::base64_text(
            crate::pairing::tlv::tlv8_encoding(crate::pairing::verify::verify_finish_records(*pairing, device_public_key@)),
        ), false),
{
    let data = verify_finish_data(pairing, device_public_key);
    pairing_request(sequence, data.as_str(), false)
}

/// The device's data text in a reply, at
/// `message.plain._0.event._0.pairingData._0.data`, when it is a string.
pub open spec fn reply_data_text(reply: PlistView) -> Option<Seq<char>> {
    view_string(
        opt_get(
            opt_get(
                opt_get(
                    opt_get(
                        opt_get(
                            opt_get(opt_get(opt_get(Some(reply), "message"@), "plain"@), "_0"@),
                            "event"@,
                        ),
                        "_0"@,
                    ),
                    "pairingData"@,
                ),
                "_0"@,
            ),
            "data"@,
        ),
    )
}

/// The view of an optional value.
pub open spec fn opt_value_view(v: Option<&PlistValue>) -> Option<PlistView> {
    match v {
        Some(x) => Some(x@),
        None => None,
    }
}

/// The member `key` of an optional dictionary value.
fn member<'a>(v: Option<&'a PlistValue>, key: &str) -> (r: Option<&'a PlistValue>)
    ensures
        opt_value_view(r) == opt_get(opt_value_view(v), key@),
{
    match v {
        Some(PlistValue::Dictionary(d)) => d.get(key),
        _ => None,
    }
}

/// The device's data text in a reply (see [`reply_data_text`]); none when
/// the path is missing or does not end in a string. The reply is the JSON
/// document with objects as dictionaries.
pub fn pairing_reply_data(reply: &PlistValue) -> (r: Option<&str>)
    ensures
        match reply_data_text(reply@) {
            Some(t) => r matches Some(s) && s@ == t,
            None => r is None,
        },
{
    let v = member(Some(reply), "message");
    let v = member(v, "plain");
    let v = member(v, "_0");
    let v = member(v, "event");
    let v = member(v, "_0");
    let v = member(v, "pairingData");
    let v = member(v, "_0");
    let v = member(v, "data");
    match v {
        Some(x) => x.as_string(),
        None => None,
    }
}

} // verus!
