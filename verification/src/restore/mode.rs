use vstd::prelude::*;

use crate::text::{
    char_from, find_char_from, hex_digit_value, is_hex_digit, parse_hex_u64, parse_hex_u64_spec,
    str_chars,
};
use vstd::string::{StrSliceExecFns, StringExecFns};

verus! {

/// A recovery-family USB mode, keyed by the USB product id.
#[derive(Debug, Clone, Copy, PartialEq, Eq, Structural)]
pub enum Mode {
    /// Recovery mode, product id 0x1280.
    Recovery1,
    /// Recovery mode, product id 0x1281.
    Recovery2,
    /// Recovery mode, product id 0x1282.
    Recovery3,
    /// Recovery mode, product id 0x1283.
    Recovery4,
    /// WTF mode, product id 0x1222.
    Wtf,
    /// DFU mode, product id 0x1227.
    Dfu,
}

/// The USB product id that identifies each mode.
pub open spec fn mode_product_id(m: Mode) -> u16 {
    match m {
        Mode::Recovery1 => 0x1280,
        Mode::Recovery2 => 0x1281,
        Mode::Recovery3 => 0x1282,
        Mode::Recovery4 => 0x1283,
        Mode::Wtf => 0x1222,
        Mode::Dfu => 0x1227,
    }
}

impl Mode {
    /// Maps a USB product id to a mode, if it is one of the recovery-family modes.
    pub fn from_product_id(product_id: u16) -> (res: Option<Mode>)
        ensures
            match res {
                Some(m) => mode_product_id(m) == product_id,
                None => forall|m: Mode| mode_product_id(m) != product_id,
            },
    {
        match product_id {
            0x1280 => Some(Mode::Recovery1),
            0x1281 => Some(Mode::Recovery2),
            0x1282 => Some(Mode::Recovery3),
            0x1283 => Some(Mode::Recovery4),
            0x1222 => Some(Mode::Wtf),
            0x1227 => Some(Mode::Dfu),
            _ => None,
        }
    }

    /// The USB product id for this mode.
    pub fn product_id(self) -> (r: u16)
        ensures
            r == mode_product_id(self),
    {
        match self {
            Mode::Recovery1 => 0x1280,
            Mode::Recovery2 => 0x1281,
            Mode::Recovery3 => 0x1282,
            Mode::Recovery4 => 0x1283,
            Mode::Wtf => 0x1222,
            Mode::Dfu => 0x1227,
        }
    }

    /// Whether this is a recovery (iBoot) mode, as opposed to DFU or WTF.
    pub fn is_recovery(self) -> (r: bool)
        ensures
            r == !(self is Wtf || self is Dfu),
    {
        !matches!(self, Mode::Wtf | Mode::Dfu)
    }
}

/// Law: a mode is found again from its product id.
pub proof fn law_product_id_roundtrip(m: Mode)
    ensures
        forall|other: Mode| mode_product_id(other) == mode_product_id(m) ==> other == m,
{
}

} // verus!

verus! {

/// `IBFL` bit telling that the iBoot understands IMG4.
pub const IBOOT_FLAG_IMAGE4_AWARE: u64 = 4;

/// Identifiers parsed from a recovery or DFU device's USB serial-number
/// string.
#[derive(Debug, Clone, Default)]
pub struct DeviceInfo {
    /// Chip ID (`CPID`).
    pub cpid: Option<u64>,
    /// Board ID (`BDID`).
    pub bdid: Option<u64>,
    /// Exclusive chip ID (`ECID`).
    pub ecid: Option<u64>,
    /// iBoot flags (`IBFL`).
    pub ibfl: Option<u64>,
    /// Serial number (`SRNM`, brackets stripped).
    pub srnm: Option<String>,
    /// iBoot version tag (`SRTG`, brackets stripped).
    pub srtg: Option<String>,
    /// AP nonce (`NONC`).
    pub ap_nonce: Option<Vec<u8>>,
    /// SEP nonce (`SNON`).
    pub sep_nonce: Option<Vec<u8>>,
    /// All raw key/value pairs, each key once, in order of first appearance.
    pub raw: Vec<(String, String)>,
}

impl DeviceInfo {
    /// Whether the iBoot is IMG4-aware: `IBFL` is known and has the
    /// IMG4-aware bit set.
    pub fn is_image4_supported(&self) -> (r: bool)
        ensures
            r == match self.ibfl {
                Some(f) => f & IBOOT_FLAG_IMAGE4_AWARE != 0,
                None => false,
            },
    {
        match self.ibfl {
            Some(f) => f & IBOOT_FLAG_IMAGE4_AWARE != 0,
            None => false,
        }
    }
}


// ---------------------------------------------------------------------------
// Parsing the serial-number string
// ---------------------------------------------------------------------------

/// The byte two hexadecimal digits stand for, if both are digits.
pub open spec fn hex_pair(a: char, b: char) -> Option<u8> {
    if is_hex_digit(a) && is_hex_digit(b) {
        Some((hex_digit_value(a) * 16 + hex_digit_value(b)) as u8)
    } else {
        None
    }
}

/// The bytes of hexadecimal text read two characters at a time.
pub open spec fn hex_pairs(v: Seq<char>) -> Option<Seq<u8>>
    decreases v.len(),
{
    if v.len() == 0 {
        Some(Seq::empty())
    } else if v.len() == 1 {
        None
    } else {
        match hex_pair(v[0], v[1]) {
            None => None,
            Some(b) => match hex_pairs(v.skip(2)) {
                Some(rest) => Some(seq![b] + rest),
                None => None,
            },
        }
    }
}

/// What the hex decoder gives: the bytes of the text's digit pairs, or
/// none when the text is malformed (an odd number of characters, or a
/// character that is not a hexadecimal digit).
pub open spec fn hex_decoded(v: Seq<char>) -> Option<Seq<u8>> {
    if v.len() % 2 == 1 {
        None
    } else {
        hex_pairs(v)
    }
}

/// Decodes hexadecimal text into bytes: none when it has an odd number of
/// bytes or a pair is not a base-16 byte.
pub fn hex_decode(text: &str) -> (r: Option<Vec<u8>>)
    ensures
        match hex_decoded(text@) {
            Some(b) => r matches Some(v) && v@ == b,
            None => r is None,
        },
{
    let chars = str_chars(text);
    let n = chars.len();
    if n % 2 == 1 {
        return None;
    }
    let mut out: Vec<u8> = Vec::new();
    let mut i: usize = 0;
    assert(chars@.skip(0) =~= chars@);
    proof {
        match hex_pairs(text@) {
            Some(r0) => {
                assert(out@ + r0 =~= r0);
            },
            None => {},
        }
    }
    while i < n
        invariant
            n == chars@.len(),
            chars@ == text@,
            i <= n,
            hex_pairs(text@) == match hex_pairs(chars@.skip(i as int)) {
                Some(rest) => Some(out@ + rest),
                None => None::<Seq<u8>>,
            },
        decreases n - i,
    {
        let ghost v = chars@.skip(i as int);
        if i + 1 >= n {
            assert(v.len() == 1);
            return None;
        }
        let a = chars[i];
        let b = chars[i + 1];
        assert(v[0] == a && v[1] == b);
        assert(v.skip(2) =~= chars@.skip(i + 2));
        let digit_a = hex_digit_char(a);
        let digit_b = hex_digit_char(b);
        let byte = if digit_a.is_some() && digit_b.is_some() {
            digit_a.unwrap() * 16 + digit_b.unwrap()
        } else {
            return None;
        };
        assert(hex_pair(a, b) == Some(byte));
        let ghost before = out@;
        out.push(byte);
        proof {
            match hex_pairs(chars@.skip(i + 2)) {
                Some(rest) => {
                    assert(out@ + rest =~= before + (seq![byte] + rest));
                },
                None => {},
            }
        }
        i = i + 2;
    }
    assert(chars@.skip(i as int) =~= Seq::<char>::empty());
    assert(out@ + Seq::<u8>::empty() =~= out@);
    Some(out)
}

/// The value of a hexadecimal digit character, if it is one.
fn hex_digit_char(c: char) -> (r: Option<u8>)
    ensures
        match r {
            Some(v) => is_hex_digit(c) && v == hex_digit_value(c) && v < 16,
            None => !is_hex_digit(c),
        },
{
    if '0' <= c && c <= '9' {
        Some((c as u32 - 48) as u8)
    } else if 'a' <= c && c <= 'f' {
        Some((c as u32 - 87) as u8)
    } else if 'A' <= c && c <= 'F' {
        Some((c as u32 - 55) as u8)
    } else {
        None
    }
}

/// The pieces of a string between spaces, from `start` on (`split(' ')`).
pub open spec fn pieces_from(s: Seq<char>, start: nat) -> Seq<Seq<char>>
    decreases s.len() + 1 - start,
{
    if start > s.len() {
        Seq::empty()
    } else {
        let e = char_from(s, ' ', start);
        proof {
            crate::text::lemma_char_from_bounds(s, ' ', start);
        }
        if e >= s.len() {
            seq![s.subrange(start as int, s.len() as int)]
        } else {
            seq![s.subrange(start as int, e as int)] + pieces_from(s, e + 1)
        }
    }
}

/// The key and value of a piece, split at its first `:`.
pub open spec fn split_colon(p: Seq<char>) -> Option<(Seq<char>, Seq<char>)> {
    let c = char_from(p, ':', 0);
    if c >= p.len() {
        None
    } else {
        Some((p.take(c as int), p.skip(c as int + 1)))
    }
}

/// A value as kept: `SRNM` and `SRTG` values lose their surrounding
/// brackets.
pub open spec fn kept_value(key: Seq<char>, v: Seq<char>) -> Seq<char> {
    if (key == "SRNM"@ || key == "SRTG"@) && v.len() > 0 && v[0] == '[' && v.last() == ']' {
        v.subrange(1, v.len() - 1)
    } else {
        v
    }
}

/// What a device's information is made of.
pub struct DeviceInfoView {
    /// `CPID`.
    pub cpid: Option<u64>,
    /// `BDID`.
    pub bdid: Option<u64>,
    /// `ECID`.
    pub ecid: Option<u64>,
    /// `IBFL`.
    pub ibfl: Option<u64>,
    /// `SRNM`.
    pub srnm: Option<Seq<char>>,
    /// `SRTG`.
    pub srtg: Option<Seq<char>>,
    /// `NONC`.
    pub ap_nonce: Option<Seq<u8>>,
    /// `SNON`.
    pub sep_nonce: Option<Seq<u8>>,
    /// The raw pairs.
    pub raw: Seq<(Seq<char>, Seq<char>)>,
}

/// The view of an optional string.
pub open spec fn opt_chars(v: Option<String>) -> Option<Seq<char>> {
    match v {
        Some(x) => Some(x@),
        None => None,
    }
}

/// The view of optional bytes.
pub open spec fn opt_bytes(v: Option<Vec<u8>>) -> Option<Seq<u8>> {
    match v {
        Some(x) => Some(x@),
        None => None,
    }
}

/// The view of a device's information.
pub open spec fn device_info_view(d: DeviceInfo) -> DeviceInfoView {
    DeviceInfoView {
        cpid: d.cpid,
        bdid: d.bdid,
        ecid: d.ecid,
        ibfl: d.ibfl,
        srnm: opt_chars(d.srnm),
        srtg: opt_chars(d.srtg),
        ap_nonce: opt_bytes(d.ap_nonce),
        sep_nonce: opt_bytes(d.sep_nonce),
        raw: d.raw@.map_values(|p: (String, String)| (p.0@, p.1@)),
    }
}

/// Where a key's pair is among raw pairs, or -1.
pub open spec fn raw_index(raw: Seq<(Seq<char>, Seq<char>)>, key: Seq<char>) -> int
    decreases raw.len(),
{
    if raw.len() == 0 {
        -1
    } else if raw_index(raw.drop_last(), key) >= 0 {
        raw_index(raw.drop_last(), key)
    } else if raw.last().0 == key {
        raw.len() - 1
    } else {
        -1
    }
}

/// The raw pairs with `key` set to `value`: in place when it is there,
/// else at the end.
pub open spec fn raw_set(raw: Seq<(Seq<char>, Seq<char>)>, key: Seq<char>, value: Seq<char>) -> Seq<
    (Seq<char>, Seq<char>),
> {
    let i = raw_index(raw, key);
    if i >= 0 {
        raw.update(i, (key, value))
    } else {
        raw.push((key, value))
    }
}

/// The information before any piece.
pub open spec fn empty_info() -> DeviceInfoView {
    DeviceInfoView {
        cpid: None,
        bdid: None,
        ecid: None,
        ibfl: None,
        srnm: None,
        srtg: None,
        ap_nonce: None,
        sep_nonce: None,
        raw: Seq::empty(),
    }
}

/// The information after one more piece: a `key:value` piece records the
/// pair and sets the field its key names (a later piece of a key wins);
/// a piece without `:` is passed over.
pub open spec fn info_step(m: DeviceInfoView, p: Seq<char>) -> DeviceInfoView {
    match split_colon(p) {
        None => m,
        Some((k, v0)) => {
            let v = kept_value(k, v0);
            DeviceInfoView {
                cpid: if k == "CPID"@ { parse_hex_u64_spec(v) } else { m.cpid },
                bdid: if k == "BDID"@ { parse_hex_u64_spec(v) } else { m.bdid },
                ecid: if k == "ECID"@ { parse_hex_u64_spec(v) } else { m.ecid },
                ibfl: if k == "IBFL"@ { parse_hex_u64_spec(v) } else { m.ibfl },
                srnm: if k == "SRNM"@ { Some(v) } else { m.srnm },
                srtg: if k == "SRTG"@ { Some(v) } else { m.srtg },
                ap_nonce: if k == "NONC"@ { hex_decoded(v) } else { m.ap_nonce },
                sep_nonce: if k == "SNON"@ { hex_decoded(v) } else { m.sep_nonce },
                raw: raw_set(m.raw, k, v),
            }
        },
    }
}

/// The information of a sequence of pieces, in order.
pub open spec fn info_of(ps: Seq<Seq<char>>) -> DeviceInfoView
    decreases ps.len(),
{
    if ps.len() == 0 {
        empty_info()
    } else {
        info_step(info_of(ps.drop_last()), ps.last())
    }
}

/// The pieces of a string between spaces.
fn split_spaces(s: &[char]) -> (r: Vec<(usize, usize)>)
    ensures
        r@.len() == pieces_from(s@, 0).len(),
        forall|i: int|
            0 <= i < r@.len() ==> (#[trigger] r@[i]).0 <= r@[i].1 <= s@.len() && s@.subrange(
                r@[i].0 as int,
                r@[i].1 as int,
            ) == pieces_from(s@, 0)[i],
{
    let n = s.len();
    let mut out: Vec<(usize, usize)> = Vec::new();
    let mut start: usize = 0;
    loop
        invariant
            n == s@.len(),
            start <= n,
            pieces_from(s@, 0).len() == out@.len() + pieces_from(s@, start as nat).len(),
            forall|i: int|
                0 <= i < out@.len() ==> (#[trigger] out@[i]).0 <= out@[i].1 <= s@.len() && s@.subrange(
                    out@[i].0 as int,
                    out@[i].1 as int,
                ) == pieces_from(s@, 0)[i],
            forall|i: int|
                0 <= i < pieces_from(s@, start as nat).len() ==> pieces_from(s@, 0)[out@.len() + i]
                    == #[trigger] pieces_from(s@, start as nat)[i],
        decreases n + 1 - start,
    {
        let e = find_char_from(s, ' ', start);
        let ghost ps = pieces_from(s@, start as nat);
        assert(ps[0] == s@.subrange(start as int, e as int));
        out.push((start, e));
        if e >= n {
            assert(ps.len() == 1);
            return out;
        }
        assert(ps == seq![s@.subrange(start as int, e as int)] + pieces_from(s@, (e + 1) as nat));
        let ghost old_len = out@.len() - 1;
        assert forall|i: int| 0 <= i < pieces_from(s@, (e + 1) as nat).len() implies pieces_from(s@, 0)[out@.len() + i]
            == #[trigger] pieces_from(s@, (e + 1) as nat)[i] by {
            assert(pieces_from(s@, (e + 1) as nat)[i] == ps[i + 1]);
            assert(pieces_from(s@, 0)[old_len + (i + 1)] == ps[i + 1]);
        }
        start = e + 1;
    }
}

impl DeviceInfo {
    /// Parses a serial-number string such as
    /// `CPID:8010 BDID:08 ECID:... IBFL:3C SRNM:[...] SRTG:[iBoot-...] NONC:...`:
    /// its space-separated `key:value` pieces, each recorded among the raw
    /// pairs; the chip, board, ECID and flags read as hexadecimal, the
    /// serial number and iBoot tag without their brackets, and the nonces
    /// hex-decoded.
    pub fn parse(serial: &str) -> (r: DeviceInfo)
        ensures
            device_info_view(r) == info_of(pieces_from(serial@, 0)),
    {
        let chars = str_chars(serial);
        let pieces = split_spaces(chars.as_slice());
        let ghost ps = pieces_from(serial@, 0);
        let mut info = DeviceInfo {
            cpid: None,
            bdid: None,
            ecid: None,
            ibfl: None,
            srnm: None,
            srtg: None,
            ap_nonce: None,
            sep_nonce: None,
            raw: Vec::new(),
        };
        assert(device_info_view(info).raw =~= Seq::<(Seq<char>, Seq<char>)>::empty());
        assert(ps.take(0) =~= Seq::<Seq<char>>::empty());
        let mut i: usize = 0;
        while i < pieces.len()
            invariant
                chars@ == serial@,
                ps == pieces_from(serial@, 0),
                pieces@.len() == ps.len(),
                forall|k: int|
                    0 <= k < pieces@.len() ==> (#[trigger] pieces@[k]).0 <= pieces@[k].1 <= chars@.len()
                        && chars@.subrange(pieces@[k].0 as int, pieces@[k].1 as int) == ps[k],
                i <= pieces@.len(),
                device_info_view(info) == info_of(ps.take(i as int)),
            decreases pieces@.len() - i,
        {
            let (a, b) = pieces[i];
            let ghost p = ps[i as int];
            assert(chars@.subrange(a as int, b as int) == p);
            assert(ps.take(i + 1).drop_last() =~= ps.take(i as int));
            assert(ps.take(i + 1).last() == p);
            self::apply_piece(&mut info, serial, chars.as_slice(), a, b);
            i = i + 1;
        }
        assert(ps.take(ps.len() as int) =~= ps);
        info
    }
}

/// Records one `key:value` piece, `chars[a..b]` of `serial`.
fn apply_piece(info: &mut DeviceInfo, serial: &str, chars: &[char], a: usize, b: usize)
    requires
        chars@ == serial@,
        a <= b <= chars@.len(),
    ensures
        device_info_view(*final(info)) == info_step(device_info_view(*old(info)), chars@.subrange(a as int, b as int)),
{
    let ghost p = chars@.subrange(a as int, b as int);
    let c = find_char_from(chars, ':', a);
    proof {
        lemma_char_from_sub(chars@, ':', a as nat, b as nat, 0);
        assert(a + 0 == a);
    }
    if c >= b {
        return;
    }
    let key = serial.substring_char(a, c);
    assert(key@ =~= p.take(c - a));
    assert(char_from(p, ':', 0) == c - a);
    assert(p.skip(c - a + 1) =~= chars@.subrange(c + 1, b as int));
    assert(split_colon(p) == Some((key@, p.skip(c - a + 1))));
    let mut vstart = c + 1;
    let mut vend = b;
    let is_tagged = crate::text::str_equal(key, "SRNM") || crate::text::str_equal(key, "SRTG");
    if is_tagged && vend > vstart && chars[vstart] == '[' && chars[vend - 1] == ']' {
        vstart = vstart + 1;
        vend = vend - 1;
    }
    let value = serial.substring_char(vstart, vend);
    assert(value@ =~= kept_value(key@, p.skip(c - a + 1)));
    let ghost old_view = device_info_view(*info);
    let vs = value;
    if crate::text::str_equal(key, "CPID") {
        info.cpid = parse_hex_str(vs);
    } else if crate::text::str_equal(key, "BDID") {
        info.bdid = parse_hex_str(vs);
    } else if crate::text::str_equal(key, "ECID") {
        info.ecid = parse_hex_str(vs);
    } else if crate::text::str_equal(key, "IBFL") {
        info.ibfl = parse_hex_str(vs);
    } else if crate::text::str_equal(key, "SRNM") {
        info.srnm = Some(String::from_str(vs));
    } else if crate::text::str_equal(key, "SRTG") {
        info.srtg = Some(String::from_str(vs));
    } else if crate::text::str_equal(key, "NONC") {
        info.ap_nonce = hex_decode(vs);
    } else if crate::text::str_equal(key, "SNON") {
        info.sep_nonce = hex_decode(vs);
    }
    proof {
        reveal_strlit("CPID");
        reveal_strlit("BDID");
        reveal_strlit("ECID");
        reveal_strlit("IBFL");
        reveal_strlit("SRNM");
        reveal_strlit("SRTG");
        reveal_strlit("NONC");
        reveal_strlit("SNON");
        assert("CPID"@[0] == 'C' && "BDID"@[0] == 'B' && "ECID"@[0] == 'E' && "IBFL"@[0] == 'I');
        assert("SRNM"@[0] == 'S' && "SRTG"@[0] == 'S' && "NONC"@[0] == 'N' && "SNON"@[0] == 'S');
        assert("SRNM"@[1] == 'R' && "SRTG"@[1] == 'R' && "SNON"@[1] == 'N');
        assert("SRNM"@[2] == 'N' && "SRTG"@[2] == 'T');
    }
    raw_put(&mut info.raw, key, vs);
    assert(device_info_view(*info).raw == raw_set(old_view.raw, key@, vs@));
}

/// Searching a piece `s[a..b]` from `j` finds what searching `s` from
/// `a + j` finds, when it lies before `b`; else the piece's end.
proof fn lemma_char_from_sub(s: Seq<char>, c: char, a: nat, b: nat, j: nat)
    requires
        a + j <= b <= s.len(),
    ensures
        ({
            let p = s.subrange(a as int, b as int);
            let x = char_from(s, c, a + j);
            &&& (x < b ==> char_from(p, c, j) == x - a)
            &&& (x >= b ==> char_from(p, c, j) == b - a)
        }),
    decreases b - (a + j),
{
    let p = s.subrange(a as int, b as int);
    crate::text::lemma_char_from_bounds(s, c, a + j);
    if a + j < b {
        assert(p[j as int] == s[(a + j) as int]);
        if s[(a + j) as int] != c {
            lemma_char_from_sub(s, c, a, b, j + 1);
            assert(a + (j + 1) == (a + j) + 1);
        }
    }
}

/// Parses hexadecimal text as `u64::from_str_radix(_, 16)` does.
fn parse_hex_str(s: &str) -> (r: Option<u64>)
    ensures
        r == parse_hex_u64_spec(s@),
{
    let chars = str_chars(s);
    assert(chars@.subrange(0, chars@.len() as int) =~= s@);
    parse_hex_u64(chars.as_slice(), 0, chars.len())
}

/// Sets a raw pair: in place when the key is there, else at the end.
fn raw_put(raw: &mut Vec<(String, String)>, key: &str, value: &str)
    ensures
        final(raw)@.map_values(|p: (String, String)| (p.0@, p.1@)) == raw_set(
            old(raw)@.map_values(|p: (String, String)| (p.0@, p.1@)),
            key@,
            value@,
        ),
{
    let ghost before = raw@.map_values(|p: (String, String)| (p.0@, p.1@));
    let n = raw.len();
    let mut i: usize = 0;
    while i < n
        invariant
            n == raw@.len(),
            i <= n,
            before == raw@.map_values(|p: (String, String)| (p.0@, p.1@)),
            before == old(raw)@.map_values(|p: (String, String)| (p.0@, p.1@)),
            raw_index(before.take(i as int), key@) == -1,
        decreases n - i,
    {
        assert(before.take(i + 1).drop_last() =~= before.take(i as int));
        if crate::text::str_equal(raw[i].0.as_str(), key) {
            assert(before[i as int].0 == key@);
            proof {
                lemma_raw_index_prefix(before, i as int);
            }
            assert(raw_index(before, key@) == i as int);
            assert(raw_set(before, key@, value@) == before.update(i as int, (key@, value@)));
            raw.set(i, (String::from_str(key), String::from_str(value)));
            assert(raw@.map_values(|p: (String, String)| (p.0@, p.1@)) =~= before.update(i as int, (key@, value@)));
            return;
        }
        i = i + 1;
    }
    assert(before.take(n as int) =~= before);
    raw.push((String::from_str(key), String::from_str(value)));
    assert(raw@.map_values(|p: (String, String)| (p.0@, p.1@)) =~= before.push((key@, value@)));
}

/// Raw pairs with the pairs of `extra` added, in order, whose keys are not
/// recorded yet; a recorded pair is kept as it is.
pub open spec fn raw_merge(
    raw: Seq<(Seq<char>, Seq<char>)>,
    extra: Seq<(Seq<char>, Seq<char>)>,
) -> Seq<(Seq<char>, Seq<char>)>
    decreases extra.len(),
{
    if extra.len() == 0 {
        raw
    } else {
        let acc = raw_merge(raw, extra.drop_last());
        if raw_index(acc, extra.last().0) >= 0 {
            acc
        } else {
            acc.push(extra.last())
        }
    }
}

/// Information with what a second serial-number string adds: each nonce
/// not known yet, and the raw pairs of keys not recorded yet.
pub open spec fn merged_info(m: DeviceInfoView, extra: DeviceInfoView) -> DeviceInfoView {
    DeviceInfoView {
        ap_nonce: if m.ap_nonce is None {
            extra.ap_nonce
        } else {
            m.ap_nonce
        },
        sep_nonce: if m.sep_nonce is None {
            extra.sep_nonce
        } else {
            m.sep_nonce
        },
        raw: raw_merge(m.raw, extra.raw),
        ..m
    }
}

impl DeviceInfo {
    /// Whether the nonces are still to be read from the device's string
    /// descriptor 1: when one of them is missing.
    pub fn needs_descriptor_nonces(&self) -> (r: bool)
        ensures
            r == (self.ap_nonce is None || self.sep_nonce is None),
    {
        self.ap_nonce.is_none() || self.sep_nonce.is_none()
    }

    /// Takes in the information parsed from string descriptor 1: each
    /// nonce not known yet, and each raw pair whose key is not recorded
    /// yet.
    pub fn merge_descriptor_info(&mut self, parsed: DeviceInfo)
        ensures
            device_info_view(*final(self)) == merged_info(device_info_view(*old(self)), device_info_view(parsed)),
    {
        let DeviceInfo { ap_nonce, sep_nonce, raw: extra, .. } = parsed;
        if self.ap_nonce.is_none() {
            self.ap_nonce = ap_nonce;
        }
        if self.sep_nonce.is_none() {
            self.sep_nonce = sep_nonce;
        }
        merge_raw(&mut self.raw, &extra);
    }
}

/// Where a key's pair is among raw pairs, if it is there.
fn raw_find(raw: &Vec<(String, String)>, key: &str) -> (r: Option<usize>)
    ensures
        match r {
            Some(i) => raw_index(raw@.map_values(|p: (String, String)| (p.0@, p.1@)), key@) == i,
            None => raw_index(raw@.map_values(|p: (String, String)| (p.0@, p.1@)), key@) == -1,
        },
{
    let ghost all = raw@.map_values(|p: (String, String)| (p.0@, p.1@));
    let n = raw.len();
    let mut i: usize = 0;
    while i < n
        invariant
            n == raw@.len(),
            i <= n,
            all == raw@.map_values(|p: (String, String)| (p.0@, p.1@)),
            raw_index(all.take(i as int), key@) == -1,
        decreases n - i,
    {
        assert(all.take(i + 1).drop_last() =~= all.take(i as int));
        if crate::text::str_equal(raw[i].0.as_str(), key) {
            assert(all[i as int].0 == key@);
            proof {
                lemma_raw_index_prefix(all, i as int);
            }
            return Some(i);
        }
        i = i + 1;
    }
    assert(all.take(n as int) =~= all);
    None
}

/// Adds the pairs of `extra` whose keys are not recorded yet.
fn merge_raw(raw: &mut Vec<(String, String)>, extra: &Vec<(String, String)>)
    ensures
        final(raw)@.map_values(|p: (String, String)| (p.0@, p.1@)) == raw_merge(
            old(raw)@.map_values(|p: (String, String)| (p.0@, p.1@)),
            extra@.map_values(|p: (String, String)| (p.0@, p.1@)),
        ),
{
    let ghost start = raw@.map_values(|p: (String, String)| (p.0@, p.1@));
    let ghost ev = extra@.map_values(|p: (String, String)| (p.0@, p.1@));
    let n = extra.len();
    let mut i: usize = 0;
    assert(ev.take(0) =~= Seq::<(Seq<char>, Seq<char>)>::empty());
    while i < n
        invariant
            n == extra@.len(),
            i <= n,
            ev == extra@.map_values(|p: (String, String)| (p.0@, p.1@)),
            start == old(raw)@.map_values(|p: (String, String)| (p.0@, p.1@)),
            raw@.map_values(|p: (String, String)| (p.0@, p.1@)) == raw_merge(start, ev.take(i as int)),
        decreases n - i,
    {
        let ghost acc = raw@.map_values(|p: (String, String)| (p.0@, p.1@));
        assert(ev.take(i + 1).drop_last() =~= ev.take(i as int));
        assert(ev.take(i + 1).last() == ev[i as int]);
        match raw_find(raw, extra[i].0.as_str()) {
            Some(_) => {},
            None => {
                raw.push((String::from_str(extra[i].0.as_str()), String::from_str(extra[i].1.as_str())));
                assert(raw@.map_values(|p: (String, String)| (p.0@, p.1@)) =~= acc.push(ev[i as int]));
            },
        }
        i = i + 1;
    }
    assert(ev.take(n as int) =~= ev);
}

/// A key first found at `i` is found at `i` in the whole.
proof fn lemma_raw_index_prefix(raw: Seq<(Seq<char>, Seq<char>)>, i: int)
    requires
        0 <= i < raw.len(),
        raw_index(raw.take(i), raw[i].0) == -1,
    ensures
        raw_index(raw, raw[i].0) == i,
    decreases raw.len() - i,
{
    let key = raw[i].0;
    assert(raw.take(i + 1).drop_last() =~= raw.take(i));
    lemma_raw_index_extend(raw, i + 1, key, i);
}

/// Once found in a prefix, a key stays found at the same place.
proof fn lemma_raw_index_extend(raw: Seq<(Seq<char>, Seq<char>)>, j: int, key: Seq<char>, i: int)
    requires
        0 <= i < j <= raw.len(),
        raw_index(raw.take(j), key) == i,
    ensures
        raw_index(raw, key) == i,
    decreases raw.len() - j,
{
    if j < raw.len() {
        assert(raw.take(j + 1).drop_last() =~= raw.take(j));
        lemma_raw_index_extend(raw, j + 1, key, i);
    } else {
        assert(raw.take(j) =~= raw);
    }
}

} // verus!
