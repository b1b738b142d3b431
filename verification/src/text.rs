//! Character-level text helpers with the meaning std gives them: Unicode
//! whitespace trimming, ASCII case folding, line splitting and decimal
//! numbers.

use vstd::prelude::*;

use crate::restore::der::base_digits;
use vstd::string::StringSliceAdditionalSpecFns;
use vstd::string::{StrSliceExecFns, StringExecFns};

verus! {

/// Whether `c` has the Unicode `White_Space` property (what
/// `char::is_whitespace` tests).
pub open spec fn is_unicode_whitespace(c: char) -> bool {
    let u = c as u32;
    ||| 0x09 <= u <= 0x0D
    ||| u == 0x20
    ||| u == 0x85
    ||| u == 0xA0
    ||| u == 0x1680
    ||| 0x2000 <= u <= 0x200A
    ||| u == 0x2028
    ||| u == 0x2029
    ||| u == 0x202F
    ||| u == 0x205F
    ||| u == 0x3000
}

/// `s` without its leading whitespace.
pub open spec fn trim_start(s: Seq<char>) -> Seq<char>
    decreases s.len(),
{
    if s.len() > 0 && is_unicode_whitespace(s[0]) {
        trim_start(s.skip(1))
    } else {
        s
    }
}

/// `s` without its trailing whitespace.
pub open spec fn trim_end(s: Seq<char>) -> Seq<char>
    decreases s.len(),
{
    if s.len() > 0 && is_unicode_whitespace(s.last()) {
        trim_end(s.drop_last())
    } else {
        s
    }
}

/// `s` without leading and trailing whitespace (what `str::trim` gives).
pub open spec fn trim(s: Seq<char>) -> Seq<char> {
    trim_end(trim_start(s))
}

/// The ASCII lower-case form of a character; other characters unchanged.
pub open spec fn ascii_lower(c: char) -> char {
    if 'A' <= c <= 'Z' {
        ((c as u32) + 32) as char
    } else {
        c
    }
}

/// `s` with every ASCII upper-case letter made lower-case.
pub open spec fn ascii_lowercase(s: Seq<char>) -> Seq<char> {
    s.map_values(|c: char| ascii_lower(c))
}

/// Whether `c` is an ASCII decimal digit.
pub open spec fn is_decimal_digit(c: char) -> bool {
    '0' <= c <= '9'
}

/// The value of decimal digit characters, most significant first.
pub open spec fn decimal_value(d: Seq<char>) -> nat
    decreases d.len(),
{
    if d.len() == 0 {
        0
    } else {
        decimal_value(d.drop_last()) * 10 + ((d.last() as u32) - 48) as nat
    }
}

/// The digits of an unsigned number: the text after an optional leading `+`.
pub open spec fn unsigned_digits(s: Seq<char>) -> Seq<char> {
    if s.len() > 0 && s[0] == '+' {
        s.skip(1)
    } else {
        s
    }
}

/// What `str::parse::<usize>` gives: an optional `+`, then one or more
/// decimal digits whose value fits.
pub open spec fn parse_usize_spec(s: Seq<char>) -> Option<usize> {
    let d = unsigned_digits(s);
    if d.len() > 0 && (forall|i: int| 0 <= i < d.len() ==> is_decimal_digit(#[trigger] d[i]))
        && decimal_value(d) <= usize::MAX {
        Some(decimal_value(d) as usize)
    } else {
        None
    }
}

/// The characters of `n` in decimal.
pub open spec fn decimal_chars(n: nat) -> Seq<char> {
    base_digits(n, 10).map_values(|d: u8| (d + 48) as char)
}

/// The characters of a string.
pub fn str_chars(s: &str) -> (r: Vec<char>)
    ensures
        r@ == s@,
{
    let n = s.unicode_len();
    let mut out: Vec<char> = Vec::new();
    let mut i: usize = 0;
    while i < n
        invariant
            n == s@.len(),
            i <= n,
            out@ == s@.take(i as int),
        decreases n - i,
    {
        out.push(s.get_char(i));
        i = i + 1;
        assert(out@ =~= s@.take(i as int));
    }
    assert(s@.take(n as int) =~= s@);
    out
}

/// Whether `c` is Unicode whitespace.
pub fn is_whitespace_char(c: char) -> (r: bool)
    ensures
        r == is_unicode_whitespace(c),
{
    let u = c as u32;
    (0x09 <= u && u <= 0x0D) || u == 0x20 || u == 0x85 || u == 0xA0 || u == 0x1680 || (0x2000 <= u
        && u <= 0x200A) || u == 0x2028 || u == 0x2029 || u == 0x202F || u == 0x205F || u == 0x3000
}

proof fn lemma_trim_start_skip(s: Seq<char>, i: int)
    requires
        0 <= i <= s.len(),
        forall|k: int| 0 <= k < i ==> is_unicode_whitespace(#[trigger] s[k]),
    ensures
        trim_start(s) == trim_start(s.skip(i)),
    decreases i,
{
    if i > 0 {
        lemma_trim_start_skip(s.skip(1), i - 1);
        assert(s.skip(1).skip(i - 1) =~= s.skip(i));
        assert(forall|k: int| 0 <= k < i - 1 ==> s.skip(1)[k] == s[k + 1]);
    } else {
        assert(s.skip(0) =~= s);
    }
}

proof fn lemma_trim_end_take(s: Seq<char>, j: int)
    requires
        0 <= j <= s.len(),
        forall|k: int| j <= k < s.len() ==> is_unicode_whitespace(#[trigger] s[k]),
    ensures
        trim_end(s) == trim_end(s.take(j)),
    decreases s.len() - j,
{
    if j < s.len() {
        lemma_trim_end_take(s.drop_last(), j);
        assert(s.drop_last().take(j) =~= s.take(j));
    } else {
        assert(s.take(j) =~= s);
    }
}

/// The bounds of `s[from..to]` once whitespace is trimmed from both ends.
pub fn trim_bounds(s: &[char], from: usize, to: usize) -> (r: (usize, usize))
    requires
        from <= to <= s@.len(),
    ensures
        from <= r.0 <= r.1 <= to,
        s@.subrange(r.0 as int, r.1 as int) == trim(s@.subrange(from as int, to as int)),
{
    let ghost part = s@.subrange(from as int, to as int);
    let mut a = from;
    while a < to && is_whitespace_char(s[a])
        invariant
            from <= a <= to <= s@.len(),
            forall|k: int| from <= k < a ==> is_unicode_whitespace(#[trigger] s@[k]),
        decreases to - a,
    {
        a = a + 1;
    }
    proof {
        assert forall|k: int| 0 <= k < a - from implies is_unicode_whitespace(#[trigger] part[k]) by {
            assert(part[k] == s@[from + k]);
        }
        lemma_trim_start_skip(part, a - from);
        assert(part.skip(a - from) =~= s@.subrange(a as int, to as int));
        let rest = s@.subrange(a as int, to as int);
        if rest.len() > 0 {
            assert(rest[0] == s@[a as int]);
        }
        assert(trim_start(rest) == rest);
    }
    let mut b = to;
    while b > a && is_whitespace_char(s[b - 1])
        invariant
            from <= a <= b <= to <= s@.len(),
            forall|k: int| b <= k < to ==> is_unicode_whitespace(#[trigger] s@[k]),
        decreases b - a,
    {
        b = b - 1;
    }
    proof {
        let rest = s@.subrange(a as int, to as int);
        assert forall|k: int| b - a <= k < rest.len() implies is_unicode_whitespace(
            #[trigger] rest[k],
        ) by {
            assert(rest[k] == s@[a + k]);
        }
        lemma_trim_end_take(rest, b - a);
        assert(rest.take(b - a) =~= s@.subrange(a as int, b as int));
        let kept = s@.subrange(a as int, b as int);
        if kept.len() > 0 {
            assert(kept.last() == s@[b - 1]);
        }
        assert(trim_end(kept) == kept);
    }
    (a, b)
}

/// The ASCII lower-case form of a character.
pub fn ascii_lower_char(c: char) -> (r: char)
    ensures
        r == ascii_lower(c),
{
    if 'A' <= c && c <= 'Z' {
        let u = (c as u32) + 32;
        proof {
            assert(0x61 <= u <= 0x7A);
        }
        char_from_ascii(u)
    } else {
        c
    }
}

/// The character of an ASCII code.
fn char_from_ascii(u: u32) -> (r: char)
    requires
        u < 0x80,
    ensures
        r == u as char,
{
    (u as u8) as char
}

proof fn lemma_decimal_value_prefix_monotone(d: Seq<char>, i: int, j: int)
    requires
        0 <= i <= j <= d.len(),
        forall|k: int| 0 <= k < d.len() ==> is_decimal_digit(#[trigger] d[k]),
    ensures
        decimal_value(d.take(i)) <= decimal_value(d.take(j)),
    decreases j - i,
{
    if i < j {
        lemma_decimal_value_prefix_monotone(d, i, j - 1);
        assert(d.take(j).drop_last() =~= d.take(j - 1));
        assert(d.take(j).last() == d[j - 1]);
    }
}

/// Parses `s[from..to]` as `str::parse::<usize>` does.
pub fn parse_usize(s: &[char], from: usize, to: usize) -> (r: Option<usize>)
    requires
        from <= to <= s@.len(),
    ensures
        r == parse_usize_spec(s@.subrange(from as int, to as int)),
{
    let ghost part = s@.subrange(from as int, to as int);
    let mut start = from;
    if to > from && s[from] == '+' {
        start = from + 1;
    }
    let ghost d = s@.subrange(start as int, to as int);
    proof {
        if to > from && s@[from as int] == '+' {
            assert(part.skip(1) =~= d);
        } else {
            assert(part =~= d);
        }
    }
    if start == to {
        return None;
    }
    let mut value: usize = 0;
    let mut i = start;
    while i < to
        invariant
            from <= start <= i <= to <= s@.len(),
            d == s@.subrange(start as int, to as int),
            part == s@.subrange(from as int, to as int),
            d == unsigned_digits(part),
            d.len() > 0,
            forall|k: int| start <= k < i ==> is_decimal_digit(#[trigger] s@[k]),
            value == decimal_value(d.take(i - start)),
        decreases to - i,
    {
        let c = s[i];
        if !('0' <= c && c <= '9') {
            proof {
                assert(!is_decimal_digit(d[i - start]));
                assert(!(forall|k: int| 0 <= k < d.len() ==> is_decimal_digit(#[trigger] d[k])));
                assert(parse_usize_spec(part) is None);
            }
            return None;
        }
        let digit = (c as u32 - 48) as usize;
        assert(d.take(i - start + 1).drop_last() =~= d.take(i - start));
        assert(d.take(i - start + 1).last() == c);
        if value > (usize::MAX - digit) / 10 {
            proof {
                assert(value * 10 + digit > usize::MAX) by (nonlinear_arith)
                    requires
                        value > (usize::MAX - digit) / 10,
                        digit <= 9,
                ;
                let full_digits = forall|k: int| 0 <= k < d.len() ==> is_decimal_digit(#[trigger] d[k]);
                if full_digits {
                    lemma_decimal_value_prefix_monotone(d, i - start + 1, d.len() as int);
                    assert(d.take(d.len() as int) =~= d);
                    assert(decimal_value(d) > usize::MAX);
                }
                assert(parse_usize_spec(part) is None);
            }
            return None;
        }
        proof {
            assert(value * 10 + digit <= usize::MAX) by (nonlinear_arith)
                requires
                    value <= (usize::MAX - digit) / 10,
                    digit <= 9,
            ;
        }
        value = value * 10 + digit;
        i = i + 1;
    }
    assert(d.take(i - start) =~= d);
    assert(forall|k: int| 0 <= k < d.len() ==> is_decimal_digit(#[trigger] d[k])) by {
        assert(forall|k: int| 0 <= k < d.len() ==> d[k] == s@[start + k]);
    }
    Some(value)
}

/// The decimal form of a number: its digits, most significant first,
/// without sign or padding (what `ToString` writes).
pub(crate) fn decimal_string(n: u64) -> (r: String)
    ensures
        r@ == decimal_chars(n as nat),
    decreases n,
{
    let digits = "0123456789";
    proof {
        reveal_strlit("0123456789");
    }
    if n < 10 {
        let d = digits.substring_char(n as usize, n as usize + 1);
        let r = String::from_str(d);
        assert(base_digits(n as nat, 10) =~= seq![n as u8]);
        assert(r@ =~= decimal_chars(n as nat));
        r
    } else {
        let mut r = decimal_string(n / 10);
        let d = digits.substring_char((n % 10) as usize, (n % 10) as usize + 1);
        r.append(d);
        assert(base_digits(n as nat, 10) == base_digits((n / 10) as nat, 10).push((n % 10) as u8));
        assert(r@ =~= decimal_chars(n as nat));
        r
    }
}

/// What `str::parse::<u16>` gives: an optional `+`, then one or more decimal
/// digits whose value fits.
pub open spec fn parse_u16_spec(s: Seq<char>) -> Option<u16> {
    let d = unsigned_digits(s);
    if d.len() > 0 && (forall|i: int| 0 <= i < d.len() ==> is_decimal_digit(#[trigger] d[i]))
        && decimal_value(d) <= u16::MAX {
        Some(decimal_value(d) as u16)
    } else {
        None
    }
}

/// Parses a string as `str::parse::<u16>` does.
pub fn parse_u16(s: &str) -> (r: Option<u16>)
    ensures
        r == parse_u16_spec(s@),
{
    let chars = str_chars(s);
    assert(chars@.subrange(0, chars@.len() as int) =~= s@);
    match parse_usize(chars.as_slice(), 0, chars.len()) {
        Some(v) => {
            if v <= 0xFFFF {
                Some(v as u16)
            } else {
                None
            }
        },
        None => None,
    }
}


// ---------------------------------------------------------------------------
// Hexadecimal numbers
// ---------------------------------------------------------------------------

/// Whether `c` is an ASCII hexadecimal digit.
pub open spec fn is_hex_digit(c: char) -> bool {
    ('0' <= c <= '9') || ('a' <= c <= 'f') || ('A' <= c <= 'F')
}

/// The value of a hexadecimal digit character.
pub open spec fn hex_digit_value(c: char) -> nat {
    if '0' <= c <= '9' {
        (c as u32 - 48) as nat
    } else if 'a' <= c <= 'f' {
        (c as u32 - 87) as nat
    } else {
        (c as u32 - 55) as nat
    }
}

/// The value of hexadecimal digit characters, most significant first.
pub open spec fn hex_value(d: Seq<char>) -> nat
    decreases d.len(),
{
    if d.len() == 0 {
        0
    } else {
        hex_value(d.drop_last()) * 16 + hex_digit_value(d.last())
    }
}

/// What `u64::from_str_radix(s, 16)` gives: an optional `+`, then one or
/// more hexadecimal digits (either case) whose value fits.
pub open spec fn parse_hex_u64_spec(s: Seq<char>) -> Option<u64> {
    let d = unsigned_digits(s);
    if d.len() > 0 && (forall|i: int| 0 <= i < d.len() ==> is_hex_digit(#[trigger] d[i]))
        && hex_value(d) <= u64::MAX {
        Some(hex_value(d) as u64)
    } else {
        None
    }
}

/// `s` without all of its leading `0x` (what `trim_start_matches("0x")`
/// leaves).
pub open spec fn without_hex_prefixes(s: Seq<char>) -> Seq<char>
    decreases s.len(),
{
    if s.len() >= 2 && s[0] == '0' && s[1] == 'x' {
        without_hex_prefixes(s.skip(2))
    } else {
        s
    }
}

proof fn lemma_hex_value_prefix_monotone(d: Seq<char>, i: int, j: int)
    requires
        0 <= i <= j <= d.len(),
        forall|k: int| 0 <= k < d.len() ==> is_hex_digit(#[trigger] d[k]),
    ensures
        hex_value(d.take(i)) <= hex_value(d.take(j)),
    decreases j - i,
{
    if i < j {
        lemma_hex_value_prefix_monotone(d, i, j - 1);
        assert(d.take(j).drop_last() =~= d.take(j - 1));
        assert(d.take(j).last() == d[j - 1]);
    }
}

/// The value of a hexadecimal digit, if `c` is one.
fn hex_digit(c: char) -> (r: Option<u64>)
    ensures
        match r {
            Some(v) => is_hex_digit(c) && v == hex_digit_value(c) && v < 16,
            None => !is_hex_digit(c),
        },
{
    if '0' <= c && c <= '9' {
        Some((c as u32 - 48) as u64)
    } else if 'a' <= c && c <= 'f' {
        Some((c as u32 - 87) as u64)
    } else if 'A' <= c && c <= 'F' {
        Some((c as u32 - 55) as u64)
    } else {
        None
    }
}

/// Parses `s[from..to]` as `u64::from_str_radix(_, 16)` does.
pub fn parse_hex_u64(s: &[char], from: usize, to: usize) -> (r: Option<u64>)
    requires
        from <= to <= s@.len(),
    ensures
        r == parse_hex_u64_spec(s@.subrange(from as int, to as int)),
{
    let ghost part = s@.subrange(from as int, to as int);
    let mut start = from;
    if to > from && s[from] == '+' {
        start = from + 1;
    }
    let ghost d = s@.subrange(start as int, to as int);
    proof {
        if to > from && s@[from as int] == '+' {
            assert(part.skip(1) =~= d);
        } else {
            assert(part =~= d);
        }
    }
    if start == to {
        return None;
    }
    let mut value: u64 = 0;
    let mut i = start;
    while i < to
        invariant
            from <= start <= i <= to <= s@.len(),
            d == s@.subrange(start as int, to as int),
            part == s@.subrange(from as int, to as int),
            d == unsigned_digits(part),
            d.len() > 0,
            forall|k: int| start <= k < i ==> is_hex_digit(#[trigger] s@[k]),
            value == hex_value(d.take(i - start)),
        decreases to - i,
    {
        let c = s[i];
        let digit = match hex_digit(c) {
            Some(v) => v,
            None => {
                proof {
                    assert(!is_hex_digit(d[i - start]));
                    assert(!(forall|k: int| 0 <= k < d.len() ==> is_hex_digit(#[trigger] d[k])));
                }
                return None;
            },
        };
        assert(d.take(i - start + 1).drop_last() =~= d.take(i - start));
        assert(d.take(i - start + 1).last() == c);
        if value > (u64::MAX - digit) / 16 {
            proof {
                assert(value * 16 + digit > u64::MAX) by (nonlinear_arith)
                    requires
                        value > (u64::MAX - digit) / 16,
                        digit < 16,
                ;
                let full_digits = forall|k: int| 0 <= k < d.len() ==> is_hex_digit(#[trigger] d[k]);
                if full_digits {
                    lemma_hex_value_prefix_monotone(d, i - start + 1, d.len() as int);
                    assert(d.take(d.len() as int) =~= d);
                    assert(hex_value(d) > u64::MAX);
                }
                assert(parse_hex_u64_spec(part) is None);
            }
            return None;
        }
        proof {
            assert(value * 16 + digit <= u64::MAX) by (nonlinear_arith)
                requires
                    value <= (u64::MAX - digit) / 16,
                    digit < 16,
            ;
        }
        value = value * 16 + digit;
        i = i + 1;
    }
    assert(d.take(i - start) =~= d);
    assert(forall|k: int| 0 <= k < d.len() ==> is_hex_digit(#[trigger] d[k])) by {
        assert(forall|k: int| 0 <= k < d.len() ==> d[k] == s@[start + k]);
    }
    Some(value)
}

/// Parses a string as `u64::from_str_radix(s.trim_start_matches("0x"), 16)`
/// does.
pub fn parse_prefixed_hex(s: &str) -> (r: Option<u64>)
    ensures
        r == parse_hex_u64_spec(without_hex_prefixes(s@)),
{
    let chars = str_chars(s);
    let mut from: usize = 0;
    assert(chars@.skip(0) =~= chars@);
    while chars.len() - from >= 2 && chars[from] == '0' && chars[from + 1] == 'x'
        invariant
            from <= chars@.len(),
            without_hex_prefixes(chars@) == without_hex_prefixes(chars@.skip(from as int)),
        decreases chars.len() - from,
    {
        let ghost rest = chars@.skip(from as int);
        assert(rest[0] == '0' && rest[1] == 'x' && rest.len() >= 2);
        assert(rest.skip(2) =~= chars@.skip(from + 2));
        assert(without_hex_prefixes(rest) == without_hex_prefixes(rest.skip(2)));
        from = from + 2;
    }
    assert(chars@.skip(from as int) =~= chars@.subrange(from as int, chars@.len() as int));
    assert(chars@.skip(0) =~= chars@);
    parse_hex_u64(chars.as_slice(), from, chars.len())
}

/// Whether two strings are equal.
pub fn str_equal(a: &str, b: &str) -> (r: bool)
    ensures
        r == (a@ == b@),
{
    let x = String::from_str(a);
    let y = String::from_str(b);
    x == y
}

/// Whether `s` begins with `prefix`.
pub open spec fn has_prefix(s: Seq<char>, prefix: Seq<char>) -> bool {
    prefix.len() <= s.len() && s.take(prefix.len() as int) == prefix
}

/// Whether `s` starts with `prefix`.
pub fn str_starts_with(s: &str, prefix: &str) -> (r: bool)
    ensures
        r == has_prefix(s@, prefix@),
{
    let a = str_chars(s);
    let p = str_chars(prefix);
    if p.len() > a.len() {
        return false;
    }
    let mut i: usize = 0;
    while i < p.len()
        invariant
            a@ == s@,
            p@ == prefix@,
            p@.len() <= a@.len(),
            i <= p@.len(),
            forall|k: int| 0 <= k < i ==> a@[k] == p@[k],
        decreases p.len() - i,
    {
        if a[i] != p[i] {
            assert(s@.take(prefix@.len() as int)[i as int] != prefix@[i as int]);
            assert(s@.take(prefix@.len() as int) != prefix@);
            return false;
        }
        i = i + 1;
    }
    assert(a@.take(p@.len() as int) =~= p@);
    true
}

/// Whether `s` ends with `suffix`.
pub open spec fn has_suffix(s: Seq<char>, suffix: Seq<char>) -> bool {
    suffix.len() <= s.len() && s.skip(s.len() - suffix.len()) == suffix
}

/// Whether `s` ends with `suffix`.
pub fn str_ends_with(s: &str, suffix: &str) -> (r: bool)
    ensures
        r == has_suffix(s@, suffix@),
{
    let a = str_chars(s);
    let p = str_chars(suffix);
    if p.len() > a.len() {
        return false;
    }
    let off = a.len() - p.len();
    let mut i: usize = 0;
    while i < p.len()
        invariant
            a@ == s@,
            p@ == suffix@,
            off + p@.len() == a@.len(),
            a@.len() == a.len(),
            i <= p@.len(),
            forall|k: int| 0 <= k < i ==> a@[off + k] == p@[k],
        decreases p.len() - i,
    {
        if a[off + i] != p[i] {
            assert(s@.skip(off as int)[i as int] != suffix@[i as int]);
            return false;
        }
        i = i + 1;
    }
    assert(s@.skip(off as int) =~= suffix@);
    true
}

/// The UTF-8 encoding of a character.
pub open spec fn utf8_char(c: char) -> Seq<u8> {
    let u = c as u32;
    if u < 0x80 {
        seq![u as u8]
    } else if u < 0x800 {
        seq![(0xC0 + u / 64) as u8, (0x80 + u % 64) as u8]
    } else if u < 0x10000 {
        seq![(0xE0 + u / 4096) as u8, (0x80 + (u / 64) % 64) as u8, (0x80 + u % 64) as u8]
    } else {
        seq![
            (0xF0 + u / 262144) as u8,
            (0x80 + (u / 4096) % 64) as u8,
            (0x80 + (u / 64) % 64) as u8,
            (0x80 + u % 64) as u8,
        ]
    }
}

/// The UTF-8 encoding of a string (what `str::as_bytes` holds).
pub open spec fn utf8_bytes(s: Seq<char>) -> Seq<u8>
    decreases s.len(),
{
    if s.len() == 0 {
        Seq::empty()
    } else {
        utf8_bytes(s.drop_last()) + utf8_char(s.last())
    }
}

/// The UTF-8 encoding of a string.
pub fn utf8_encode(s: &str) -> (r: Vec<u8>)
    ensures
        r@ == utf8_bytes(s@),
{
    let chars = str_chars(s);
    let mut out: Vec<u8> = Vec::new();
    let mut i: usize = 0;
    while i < chars.len()
        invariant
            chars@ == s@,
            i <= chars@.len(),
            out@ == utf8_bytes(s@.take(i as int)),
        decreases chars@.len() - i,
    {
        let c = chars[i];
        let u = c as u32;
        assert(s@.take(i + 1).drop_last() =~= s@.take(i as int));
        assert(s@.take(i + 1).last() == c);
        let ghost before = out@;
        if u < 0x80 {
            out.push(u as u8);
        } else if u < 0x800 {
            out.push((0xC0 + u / 64) as u8);
            out.push((0x80 + u % 64) as u8);
        } else if u < 0x10000 {
            out.push((0xE0 + u / 4096) as u8);
            out.push((0x80 + (u / 64) % 64) as u8);
            out.push((0x80 + u % 64) as u8);
        } else {
            out.push((0xF0 + u / 262144) as u8);
            out.push((0x80 + (u / 4096) % 64) as u8);
            out.push((0x80 + (u / 64) % 64) as u8);
            out.push((0x80 + u % 64) as u8);
        }
        assert(out@ =~= before + utf8_char(c));
        i = i + 1;
    }
    assert(s@.take(chars@.len() as int) =~= s@);
    out
}

/// A string without leading and trailing Unicode whitespace.
pub fn trim_string(s: &str) -> (r: String)
    ensures
        r@ == trim(s@),
{
    let chars = str_chars(s);
    let (a, b) = trim_bounds(chars.as_slice(), 0, chars.len());
    assert(chars@.subrange(0, chars@.len() as int) =~= s@);
    String::from_str(s.substring_char(a, b))
}

/// Parts joined with a separator between each two.
pub open spec fn joined(parts: Seq<Seq<char>>, sep: Seq<char>) -> Seq<char>
    decreases parts.len(),
{
    if parts.len() == 0 {
        Seq::empty()
    } else if parts.len() == 1 {
        parts[0]
    } else {
        joined(parts.drop_last(), sep) + sep + parts.last()
    }
}

/// Joins strings with a separator between each two.
pub fn join_strings(parts: &Vec<String>, sep: &str) -> (r: String)
    ensures
        r@ == joined(parts@.map_values(|p: String| p@), sep@),
{
    let ghost ps = parts@.map_values(|p: String| p@);
    let mut out = String::from_str("");
    proof {
        reveal_strlit("");
    }
    let mut i: usize = 0;
    while i < parts.len()
        invariant
            i <= parts@.len(),
            ps == parts@.map_values(|p: String| p@),
            out@ == joined(ps.take(i as int), sep@),
        decreases parts@.len() - i,
    {
        assert(ps.take(i + 1).drop_last() =~= ps.take(i as int));
        if i > 0 {
            out.append(sep);
        }
        out.append(parts[i].as_str());
        proof {
            if i == 0 {
                assert(out@ =~= ps.take(1)[0]);
            }
        }
        i = i + 1;
    }
    assert(ps.take(parts@.len() as int) =~= ps);
    out
}

} // verus!

verus! {

/// Where the first `c` of `s` at or after `i` is, or `s`'s length.
pub open spec fn char_from(s: Seq<char>, c: char, i: nat) -> nat
    decreases s.len() - i,
{
    if i >= s.len() {
        s.len()
    } else if s[i as int] == c {
        i
    } else {
        char_from(s, c, i + 1)
    }
}

/// The first `c` at or after `i` lies between `i` and the end.
pub proof fn lemma_char_from_bounds(s: Seq<char>, c: char, i: nat)
    ensures
        i <= s.len() ==> i <= char_from(s, c, i) <= s.len(),
        char_from(s, c, i) < s.len() ==> s[char_from(s, c, i) as int] == c,
    decreases s.len() - i,
{
    if i < s.len() && s[i as int] != c {
        lemma_char_from_bounds(s, c, i + 1);
    }
}

/// Finds the first `c` of `s` at or after `i`; the length when there is
/// none.
pub fn find_char_from(s: &[char], c: char, i: usize) -> (r: usize)
    requires
        i <= s@.len(),
    ensures
        r == char_from(s@, c, i as nat),
        i <= r <= s@.len(),
{
    let mut j = i;
    while j < s.len() && s[j] != c
        invariant
            i <= j <= s@.len(),
            char_from(s@, c, i as nat) == char_from(s@, c, j as nat),
        decreases s@.len() - j,
    {
        assert(char_from(s@, c, j as nat) == char_from(s@, c, (j + 1) as nat));
        j = j + 1;
    }
    j
}


} // verus!
