//! WebDriverAgent (WDA) client state and the HTTP details it needs.
//!
//! The client talks to WDA on a device port through a fresh direct device
//! connection per request. The connection and the JSON transport are the
//! caller's I/O; this module holds the client's configuration and session,
//! builds request heads, reads response heads and names buttons and keys.

use vstd::prelude::*;

use crate::error::IdeviceError;
use crate::text::{
    ascii_lower_char, ascii_lowercase, decimal_chars, decimal_string, parse_usize,
    parse_usize_spec, str_chars, trim, trim_bounds,
};
use core::time::Duration;
use vstd::string::StringExecFns;

verus! {

/// Default WDA HTTP port on the device.
pub const DEFAULT_WDA_PORT: u16 = 8100;

/// Default MJPEG streaming port used by many WDA builds.
pub const DEFAULT_WDA_MJPEG_PORT: u16 = 9100;

/// Poll interval, in milliseconds, while waiting for WDA to respond.
pub const WDA_READY_POLL_INTERVAL_MS: u64 = 250;

/// Per-request timeout, in seconds, of a new client.
pub const DEFAULT_WDA_TIMEOUT_SECS: u64 = 10;

/// Device-side ports exposed by a WDA runner.
#[derive(Debug, Clone, Copy, PartialEq, Eq, Structural)]
pub struct WdaPorts {
    /// Device port for the HTTP WebDriver endpoint.
    pub http: u16,
    /// Device port for the MJPEG stream endpoint.
    pub mjpeg: u16,
}

impl Default for WdaPorts {
    fn default() -> (r: WdaPorts)
        ensures
            r.http == DEFAULT_WDA_PORT,
            r.mjpeg == DEFAULT_WDA_MJPEG_PORT,
    {
        WdaPorts { http: DEFAULT_WDA_PORT, mjpeg: DEFAULT_WDA_MJPEG_PORT }
    }
}

/// A duration of whole seconds, with `Duration::from_secs`.
///
/// `Duration` is opaque here, so nothing is stated of the result.
#[verifier::external_body]
fn seconds(secs: u64) -> Duration {
    Duration::from_secs(secs)
}

/// WDA client state: the device-side ports, the per-request timeout and the
/// tracked session.
#[derive(Debug)]
pub struct WdaClient {
    ports: WdaPorts,
    timeout: Duration,
    session_id: Option<String>,
}

impl WdaClient {
    /// The configured device-side ports.
    pub closed spec fn port_config(&self) -> WdaPorts {
        self.ports
    }

    /// The tracked session id.
    pub closed spec fn tracked_session(&self) -> Option<Seq<char>> {
        match self.session_id {
            Some(s) => Some(s@),
            None => None,
        }
    }

    /// The per-request timeout.
    pub closed spec fn request_timeout(&self) -> Duration {
        self.timeout
    }

    /// Creates a client with the default device-side ports, a ten-second
    /// timeout and no session.
    pub fn new() -> (r: WdaClient)
        ensures
            r.port_config().http == DEFAULT_WDA_PORT,
            r.port_config().mjpeg == DEFAULT_WDA_MJPEG_PORT,
            r.tracked_session() is None,
    {
        WdaClient {
            ports: WdaPorts::default(),
            timeout: seconds(DEFAULT_WDA_TIMEOUT_SECS),
            session_id: None,
        }
    }

    /// Overrides the device-side WDA ports.
    pub fn with_ports(self, ports: WdaPorts) -> (r: WdaClient)
        ensures
            r.port_config() == ports,
            r.tracked_session() == self.tracked_session(),
            r.request_timeout() == self.request_timeout(),
    {
        WdaClient { ports, ..self }
    }

    /// Overrides the per-request timeout.
    pub fn with_timeout(self, timeout: Duration) -> (r: WdaClient)
        ensures
            r.request_timeout() == timeout,
            r.port_config() == self.port_config(),
            r.tracked_session() == self.tracked_session(),
    {
        WdaClient { timeout, ..self }
    }

    /// The configured device-side ports.
    pub fn ports(&self) -> (r: WdaPorts)
        ensures
            r == self.port_config(),
    {
        self.ports
    }

    /// The per-request timeout.
    pub fn timeout(&self) -> (r: Duration)
        ensures
            r == self.request_timeout(),
    {
        self.timeout
    }

    /// The currently tracked WDA session id, if one exists.
    pub fn session_id(&self) -> (r: Option<&str>)
        ensures
            match self.tracked_session() {
                Some(s) => r matches Some(t) && t@ == s,
                None => r is None,
            },
    {
        match &self.session_id {
            Some(s) => Some(s.as_str()),
            None => None,
        }
    }

    /// Tracks the session that WDA opened.
    pub fn remember_session(&mut self, session_id: String)
        ensures
            final(self).tracked_session() == Some(session_id@),
            final(self).port_config() == old(self).port_config(),
            final(self).request_timeout() == old(self).request_timeout(),
    {
        self.session_id = Some(session_id);
    }

    /// The session to act on: the one given, else the tracked one.
    pub fn require_session_id<'b>(&'b self, session_id: Option<&'b str>) -> (r: Result<
        &'b str,
        IdeviceError,
    >)
        ensures
            match session_id {
                Some(s) => r matches Ok(t) && t@ == s@,
                None => match self.tracked_session() {
                    Some(s) => r matches Ok(t) && t@ == s,
                    None => r matches Err(IdeviceError::UnknownErrorType(_)),
                },
            },
    {
        match session_id {
            Some(s) => Ok(s),
            None => match self.session_id() {
                Some(s) => Ok(s),
                None => Err(IdeviceError::UnknownErrorType("session_id is required".to_owned())),
            },
        }
    }
}

// ---------------------------------------------------------------------------
// Requests
// ---------------------------------------------------------------------------

/// The head of a WDA request: request line, `Host`, `Connection: close`,
/// `Content-Length`, `Content-Type` for a JSON body, then the empty line.
pub open spec fn request_head_chars(method: Seq<char>, path: Seq<char>, body_len: nat, json: bool) -> Seq<
    char,
> {
    method + " "@ + path + " HTTP/1.1\r\nHost: localhost\r\nConnection: close\r\nContent-Length: "@
        + decimal_chars(body_len) + "\r\n"@ + (if json {
        "Content-Type: application/json\r\n"@
    } else {
        Seq::empty()
    }) + "\r\n"@
}

/// Builds the head of a WDA request with a body of `body_len` bytes.
pub fn request_head(method: &str, path: &str, body_len: usize, json: bool) -> (r: String)
    ensures
        r@ == request_head_chars(method@, path@, body_len as nat, json),
{
    let mut head = String::from_str(method);
    head.append(" ");
    head.append(path);
    head.append(" HTTP/1.1\r\nHost: localhost\r\nConnection: close\r\nContent-Length: ");
    let len = decimal_string(body_len as u64);
    head.append(len.as_str());
    head.append("\r\n");
    if json {
        head.append("Content-Type: application/json\r\n");
    }
    head.append("\r\n");
    proof {
        if !json {
            assert(method@ + " "@ + path@ + " HTTP/1.1\r\nHost: localhost\r\nConnection: close\r\nContent-Length: "@
                + decimal_chars(body_len as nat) + "\r\n"@ + Seq::<char>::empty() =~= method@ + " "@
                + path@ + " HTTP/1.1\r\nHost: localhost\r\nConnection: close\r\nContent-Length: "@
                + decimal_chars(body_len as nat) + "\r\n"@);
        }
    }
    head
}

// ---------------------------------------------------------------------------
// Responses
// ---------------------------------------------------------------------------

/// The first index at or after `i` where `s` holds `c`, or the length of `s`.
pub open spec fn find_char(s: Seq<char>, c: char, i: int) -> int
    decreases s.len() - i,
{
    if i >= s.len() {
        s.len() as int
    } else if s[i] == c {
        i
    } else {
        find_char(s, c, i + 1)
    }
}

/// The line of `s` that starts at `start`, as `str::lines` gives it: up to
/// the next newline, without it, and without a carriage return before it.
pub open spec fn line_at(s: Seq<char>, start: int) -> Seq<char> {
    let e = find_char(s, '\n', start);
    let raw = s.subrange(start, e);
    if e < s.len() && raw.len() > 0 && raw.last() == '\r' {
        raw.drop_last()
    } else {
        raw
    }
}

/// The length a header line gives when it is a `Content-Length` header
/// (name compared without ASCII case) whose trimmed value is a number.
pub open spec fn header_content_length(line: Seq<char>) -> Option<usize> {
    let p = find_char(line, ':', 0);
    if p >= line.len() {
        None
    } else if ascii_lowercase(line.take(p)) != "content-length"@ {
        None
    } else {
        parse_usize_spec(trim(line.skip(p + 1)))
    }
}

/// The length the first `Content-Length` line from `start` on gives.
pub open spec fn content_length_from(s: Seq<char>, start: int) -> Option<usize>
    decreases s.len() + 1 - start,
{
    if start < 0 || start >= s.len() {
        None
    } else {
        proof {
            lemma_find_char_bounds(s, '\n', start);
        }
        match header_content_length(line_at(s, start)) {
            Some(n) => Some(n),
            None => content_length_from(s, find_char(s, '\n', start) + 1),
        }
    }
}

pub proof fn lemma_find_char_bounds(s: Seq<char>, c: char, i: int)
    requires
        0 <= i,
    ensures
        i <= find_char(s, c, i) || (i > s.len() && find_char(s, c, i) == s.len()),
        find_char(s, c, i) <= s.len() || i > s.len(),
        find_char(s, c, i) < s.len() ==> s[find_char(s, c, i)] == c,
    decreases s.len() - i,
{
    if i < s.len() && s[i] != c {
        lemma_find_char_bounds(s, c, i + 1);
    }
}

/// The first index in `from..to` where `s` holds `c`, or `to`.
fn find_char_in(s: &[char], c: char, from: usize, to: usize) -> (r: usize)
    requires
        from <= to <= s@.len(),
    ensures
        from <= r <= to,
        r - from == find_char(s@.subrange(from as int, to as int), c, 0),
{
    let ghost part = s@.subrange(from as int, to as int);
    let mut i = from;
    while i < to && s[i] != c
        invariant
            from <= i <= to <= s@.len(),
            part == s@.subrange(from as int, to as int),
            find_char(part, c, 0) == find_char(part, c, i - from),
        decreases to - i,
    {
        assert(part[i - from] == s@[i as int]);
        i = i + 1;
    }
    if i < to {
        assert(part[i - from] == s@[i as int]);
    }
    i
}

/// Whether `s[from..to]`, ASCII case ignored, is `target`.
fn eq_ignore_ascii_case(s: &[char], from: usize, to: usize, target: &[char]) -> (r: bool)
    requires
        from <= to <= s@.len(),
    ensures
        r == (ascii_lowercase(s@.subrange(from as int, to as int)) == target@),
{
    let ghost part = s@.subrange(from as int, to as int);
    if to - from != target.len() {
        assert(ascii_lowercase(part).len() != target@.len());
        return false;
    }
    let mut i: usize = 0;
    while i < target.len()
        invariant
            to - from == target@.len(),
            from <= to <= s@.len(),
            part == s@.subrange(from as int, to as int),
            i <= target@.len(),
            forall|k: int| 0 <= k < i ==> ascii_lowercase(part)[k] == target@[k],
        decreases target.len() - i,
    {
        if ascii_lower_char(s[from + i]) != target[i] {
            assert(ascii_lowercase(part)[i as int] != target@[i as int]);
            return false;
        }
        i = i + 1;
    }
    assert(ascii_lowercase(part) =~= target@);
    true
}

/// The length a header line gives, for the line `s[from..to]`.
fn line_content_length(s: &[char], from: usize, to: usize, name: &[char]) -> (r: Option<usize>)
    requires
        from <= to <= s@.len(),
        name@ == "content-length"@,
    ensures
        r == header_content_length(s@.subrange(from as int, to as int)),
{
    let ghost line = s@.subrange(from as int, to as int);
    let p = find_char_in(s, ':', from, to);
    if p >= to {
        return None;
    }
    assert(line.take(p - from) =~= s@.subrange(from as int, p as int));
    if !eq_ignore_ascii_case(s, from, p, name) {
        return None;
    }
    let (a, b) = trim_bounds(s, p + 1, to);
    assert(line.skip(p - from + 1) =~= s@.subrange(p + 1, to as int));
    parse_usize(s, a, b)
}

/// The `Content-Length` of a response head: the value of the first header
/// line named `content-length` (ASCII case ignored) whose trimmed value is a
/// number.
pub fn parse_content_length(headers: &str) -> (r: Option<usize>)
    ensures
        r == content_length_from(headers@, 0),
{
    let s = str_chars(headers);
    let name = str_chars("content-length");
    let n = s.len();
    let mut start: usize = 0;
    while start < n
        invariant
            n == s@.len(),
            s@ == headers@,
            name@ == "content-length"@,
            start <= n,
            content_length_from(headers@, 0) == content_length_from(headers@, start as int),
        decreases n - start,
    {
        let e = find_char_in(s.as_slice(), '\n', start, n);
        proof {
            let part = s@.subrange(start as int, n as int);
            lemma_find_char_bounds(part, '\n', 0);
            lemma_find_char_shift(s@, '\n', start as int);
        }
        let mut line_end = e;
        if e < n && e > start && s[e - 1] == '\r' {
            line_end = e - 1;
        }
        proof {
            let raw = s@.subrange(start as int, e as int);
            if e < n && e > start && s@[e - 1] == '\r' {
                assert(raw.drop_last() =~= s@.subrange(start as int, line_end as int));
            } else {
                assert(raw =~= s@.subrange(start as int, line_end as int));
            }
        }
        let found = line_content_length(s.as_slice(), start, line_end, name.as_slice());
        if found.is_some() {
            return found;
        }
        if e >= n {
            proof {
                found_none_at_end(headers@, e + 1);
            }
            return None;
        }
        start = e + 1;
    }
    proof {
        found_none_at_end(headers@, start as int);
    }
    None
}

proof fn lemma_find_char_shift(s: Seq<char>, c: char, start: int)
    requires
        0 <= start <= s.len(),
    ensures
        find_char(s, c, start) == start + find_char(s.subrange(start, s.len() as int), c, 0),
    decreases s.len() - start,
{
    let part = s.subrange(start, s.len() as int);
    if start < s.len() && s[start] != c {
        lemma_find_char_shift(s, c, start + 1);
        lemma_find_char_skip1(part, c, 0);
        assert(part.subrange(1, part.len() as int) =~= s.subrange(start + 1, s.len() as int));
    }
}

proof fn lemma_find_char_skip1(s: Seq<char>, c: char, i: int)
    requires
        0 <= i,
        i < s.len(),
        s[i] != c,
    ensures
        find_char(s, c, i + 1) == 1 + find_char(s.subrange(1, s.len() as int), c, i),
    decreases s.len() - i,
{
    let t = s.subrange(1, s.len() as int);
    if i + 1 < s.len() && s[i + 1] != c {
        lemma_find_char_skip1(s, c, i + 1);
    }
}

proof fn found_none_at_end(s: Seq<char>, start: int)
    requires
        start >= s.len(),
    ensures
        content_length_from(s, start) is None,
{
}

// ---------------------------------------------------------------------------
// Byte search
// ---------------------------------------------------------------------------

/// Whether `needle` occurs in `haystack` at `i`.
pub open spec fn occurs_at(haystack: Seq<u8>, needle: Seq<u8>, i: int) -> bool {
    0 <= i && i + needle.len() <= haystack.len() && haystack.subrange(i, i + needle.len() as int)
        == needle
}

/// Finds the first position of `needle` in `haystack`.
pub fn find_bytes(haystack: &[u8], needle: &[u8]) -> (r: Option<usize>)
    requires
        needle@.len() > 0,
    ensures
        match r {
            Some(i) => occurs_at(haystack@, needle@, i as int) && forall|j: int|
                0 <= j < i ==> !occurs_at(haystack@, needle@, j),
            None => forall|j: int| !occurs_at(haystack@, needle@, j),
        },
{
    if needle.len() > haystack.len() {
        return None;
    }
    let last = haystack.len() - needle.len();
    let mut i: usize = 0;
    while i <= last
        invariant
            last + needle.len() == haystack.len(),
            needle@.len() > 0,
            forall|j: int| 0 <= j < i ==> !occurs_at(haystack@, needle@, j),
        decreases last + 1 - i,
    {
        let mut k: usize = 0;
        let mut same = true;
        while k < needle.len()
            invariant
                i <= last,
                last + needle.len() == haystack.len(),
                k <= needle@.len(),
                same == forall|m: int| 0 <= m < k ==> haystack@[i + m] == needle@[m],
            decreases needle.len() - k,
        {
            if haystack[i + k] != needle[k] {
                same = false;
            }
            k = k + 1;
        }
        if same {
            assert(haystack@.subrange(i as int, i + needle@.len()) =~= needle@);
            return Some(i);
        }
        proof {
            if occurs_at(haystack@, needle@, i as int) {
                let m = choose|m: int| 0 <= m < needle@.len() && haystack@[i + m] != needle@[m];
                assert(haystack@.subrange(i as int, i + needle@.len())[m] == haystack@[i + m]);
            }
        }
        i = i + 1;
    }
    None
}

// ---------------------------------------------------------------------------
// Button and key names
// ---------------------------------------------------------------------------

/// `s` without `-` and `_` characters.
pub open spec fn without_separators(s: Seq<char>) -> Seq<char>
    decreases s.len(),
{
    if s.len() == 0 {
        s
    } else if s.last() == '-' || s.last() == '_' {
        without_separators(s.drop_last())
    } else {
        without_separators(s.drop_last()).push(s.last())
    }
}

/// The folded form of a button or key name: trimmed, ASCII lower-case,
/// without `-` and `_`.
pub open spec fn folded_name(name: Seq<char>) -> Seq<char> {
    without_separators(ascii_lowercase(trim(name)))
}

/// The WDA button a name stands for: `home`, `volumeUp`, `volumeDown` or
/// `lock` for their aliases; any other name unchanged.
pub open spec fn wda_button_name(name: Seq<char>) -> Seq<char> {
    let f = folded_name(name);
    if f == "home"@ {
        "home"@
    } else if f == "volumeup"@ || f == "volup"@ || f == "volumeupbutton"@ {
        "volumeUp"@
    } else if f == "volumedown"@ || f == "voldown"@ || f == "volumedownbutton"@ {
        "volumeDown"@
    } else if f == "lock"@ || f == "lockscreen"@ || f == "sleep"@ || f == "power"@ {
        "lock"@
    } else {
        name
    }
}

/// The WDA key a name stands for: `HOME`, `VOLUME_UP`, `VOLUME_DOWN` or
/// `LOCK` for their aliases; any other name unchanged.
pub open spec fn wda_key_name(name: Seq<char>) -> Seq<char> {
    let f = folded_name(name);
    if f == "home"@ {
        "HOME"@
    } else if f == "volumeup"@ || f == "volup"@ {
        "VOLUME_UP"@
    } else if f == "volumedown"@ || f == "voldown"@ {
        "VOLUME_DOWN"@
    } else if f == "lock"@ || f == "lockscreen"@ || f == "sleep"@ || f == "power"@ {
        "LOCK"@
    } else {
        name
    }
}

/// The folded form of a name.
fn fold_name(name: &str) -> (r: Vec<char>)
    ensures
        r@ == folded_name(name@),
{
    let s = str_chars(name);
    let (a, b) = trim_bounds(s.as_slice(), 0, s.len());
    assert(s@.subrange(0, s@.len() as int) =~= s@);
    let ghost t = s@.subrange(a as int, b as int);
    let mut out: Vec<char> = Vec::new();
    let mut i = a;
    while i < b
        invariant
            a <= i <= b <= s@.len(),
            t == s@.subrange(a as int, b as int),
            out@ == without_separators(ascii_lowercase(t.take(i - a))),
        decreases b - i,
    {
        let c = ascii_lower_char(s[i]);
        let ghost lowered = ascii_lowercase(t.take(i - a + 1));
        assert(lowered.drop_last() =~= ascii_lowercase(t.take(i - a)));
        assert(lowered.last() == c);
        if c != '-' && c != '_' {
            out.push(c);
        }
        i = i + 1;
    }
    assert(t.take(b - a) =~= t);
    out
}

/// Whether the folded name is `lit`.
fn is_name(f: &Vec<char>, lit: &str) -> (r: bool)
    ensures
        r == (f@ == lit@),
{
    let l = str_chars(lit);
    if f.len() != l.len() {
        return false;
    }
    let mut i: usize = 0;
    while i < f.len()
        invariant
            f@.len() == l@.len(),
            l@ == lit@,
            i <= f@.len(),
            forall|k: int| 0 <= k < i ==> f@[k] == l@[k],
        decreases f.len() - i,
    {
        if f[i] != l[i] {
            return false;
        }
        i = i + 1;
    }
    assert(f@ =~= l@);
    true
}

/// Maps a button alias to the WDA button name.
pub fn normalize_wda_button_name(name: &str) -> (r: String)
    ensures
        r@ == wda_button_name(name@),
{
    let f = fold_name(name);
    if is_name(&f, "home") {
        String::from_str("home")
    } else if is_name(&f, "volumeup") || is_name(&f, "volup") || is_name(&f, "volumeupbutton") {
        String::from_str("volumeUp")
    } else if is_name(&f, "volumedown") || is_name(&f, "voldown") || is_name(&f, "volumedownbutton") {
        String::from_str("volumeDown")
    } else if is_name(&f, "lock") || is_name(&f, "lockscreen") || is_name(&f, "sleep") || is_name(
        &f,
        "power",
    ) {
        String::from_str("lock")
    } else {
        String::from_str(name)
    }
}

/// Maps a key alias to the WDA key name.
pub fn normalize_wda_key_name(name: &str) -> (r: String)
    ensures
        r@ == wda_key_name(name@),
{
    let f = fold_name(name);
    if is_name(&f, "home") {
        String::from_str("HOME")
    } else if is_name(&f, "volumeup") || is_name(&f, "volup") {
        String::from_str("VOLUME_UP")
    } else if is_name(&f, "volumedown") || is_name(&f, "voldown") {
        String::from_str("VOLUME_DOWN")
    } else if is_name(&f, "lock") || is_name(&f, "lockscreen") || is_name(&f, "sleep") || is_name(
        &f,
        "power",
    ) {
        String::from_str("LOCK")
    } else {
        String::from_str(name)
    }
}

// ---------------------------------------------------------------------------
// Localhost bridge
// ---------------------------------------------------------------------------

/// The localhost endpoints of a WDA bridge.
#[derive(Debug, Clone, PartialEq, Eq)]
pub struct WdaBridgeEndpoints {
    /// The device's UDID, when its pairing file names one.
    pub udid: Option<String>,
    /// The localhost WDA HTTP URL.
    pub wda_url: String,
    /// The localhost MJPEG URL.
    pub mjpeg_url: String,
    /// The localhost ports that forward to the device.
    pub local_ports: WdaPorts,
    /// The device-side ports.
    pub device_ports: WdaPorts,
}

/// The localhost URL of a forwarded port.
pub open spec fn localhost_url(port: u16) -> Seq<char> {
    "http://127.0.0.1:"@ + decimal_chars(port as nat)
}

fn localhost_url_string(port: u16) -> (r: String)
    ensures
        r@ == localhost_url(port),
{
    let mut url = String::from_str("http://127.0.0.1:");
    let digits = decimal_string(port as u64);
    url.append(digits.as_str());
    url
}

/// The endpoints of a bridge whose forwards listen on `local_ports`.
pub fn bridge_endpoints(udid: Option<String>, local_ports: WdaPorts, device_ports: WdaPorts) -> (r:
    WdaBridgeEndpoints)
    ensures
        r.udid == udid,
        r.wda_url@ == localhost_url(local_ports.http),
        r.mjpeg_url@ == localhost_url(local_ports.mjpeg),
        r.local_ports == local_ports,
        r.device_ports == device_ports,
{
    WdaBridgeEndpoints {
        udid,
        wda_url: localhost_url_string(local_ports.http),
        mjpeg_url: localhost_url_string(local_ports.mjpeg),
        local_ports,
        device_ports,
    }
}

} // verus!
