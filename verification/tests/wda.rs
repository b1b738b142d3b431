use idevice::wda::{
    bridge_endpoints, find_bytes, normalize_wda_button_name, normalize_wda_key_name,
    parse_content_length, request_head, WdaClient, WdaPorts, DEFAULT_WDA_MJPEG_PORT,
    DEFAULT_WDA_PORT, WDA_READY_POLL_INTERVAL_MS,
};
use std::time::Duration;

#[test]
fn default_ports_match_expected_wda_values() {
    let ports = WdaPorts::default();
    assert_eq!(ports.http, DEFAULT_WDA_PORT);
    assert_eq!(ports.mjpeg, DEFAULT_WDA_MJPEG_PORT);
}

#[test]
fn ready_poll_interval_is_conservative() {
    assert_eq!(
        Duration::from_millis(WDA_READY_POLL_INTERVAL_MS),
        std::time::Duration::from_millis(250)
    );
}

#[test]
fn parse_content_length_is_case_insensitive() {
    let headers = "HTTP/1.1 200 OK\r\ncontent-length: 123\r\nConnection: close\r\n";
    assert_eq!(parse_content_length(headers), Some(123));
}

#[test]
fn parse_content_length_ignores_missing_header() {
    let headers = "HTTP/1.1 200 OK\r\nConnection: close\r\n";
    assert_eq!(parse_content_length(headers), None);
}

#[test]
fn find_bytes_locates_header_separator() {
    let response = b"HTTP/1.1 200 OK\r\nContent-Length: 2\r\n\r\n{}";
    assert_eq!(find_bytes(response, b"\r\n\r\n"), Some(34));
}

#[test]
fn find_bytes_returns_none_when_missing() {
    assert_eq!(find_bytes(b"abcdef", b"xyz"), None);
}

#[test]
fn normalize_button_aliases() {
    assert_eq!(normalize_wda_button_name("home"), "home");
    assert_eq!(normalize_wda_button_name("volume_up"), "volumeUp");
    assert_eq!(normalize_wda_button_name("sleep"), "lock");
}

#[test]
fn normalize_key_aliases() {
    assert_eq!(normalize_wda_key_name("home"), "HOME");
    assert_eq!(normalize_wda_key_name("vol-down"), "VOLUME_DOWN");
    assert_eq!(normalize_wda_key_name("power"), "LOCK");
}

#[test]
fn normalize_keeps_unknown_names_untrimmed() {
    assert_eq!(normalize_wda_button_name("  Custom "), "  Custom ");
    assert_eq!(normalize_wda_key_name(" Volume-Up\t"), "VOLUME_UP");
    assert_eq!(normalize_wda_button_name("VOLUME_DOWN_BUTTON"), "volumeDown");
}

#[test]
fn parse_content_length_takes_first_valid_header_and_trims() {
    let headers = "HTTP/1.1 200 OK\r\nContent-Length: abc\r\nCONTENT-LENGTH:  +42 \r\n";
    assert_eq!(parse_content_length(headers), Some(42));
    assert_eq!(parse_content_length("Content-Length: 99999999999999999999999"), None);
    assert_eq!(parse_content_length("Content-Length: 7"), Some(7));
    assert_eq!(parse_content_length(""), None);
}

#[test]
fn find_bytes_returns_first_occurrence() {
    assert_eq!(find_bytes(b"abab", b"ab"), Some(0));
    assert_eq!(find_bytes(b"xxab", b"ab"), Some(2));
    assert_eq!(find_bytes(b"a", b"ab"), None);
}

#[test]
fn request_head_formats_request_line_and_headers() {
    assert_eq!(
        request_head("GET", "/status", 0, false),
        "GET /status HTTP/1.1\r\nHost: localhost\r\nConnection: close\r\nContent-Length: 0\r\n\r\n"
    );
    assert_eq!(
        request_head("POST", "/session", 17, true),
        "POST /session HTTP/1.1\r\nHost: localhost\r\nConnection: close\r\nContent-Length: 17\r\nContent-Type: application/json\r\n\r\n"
    );
}

#[test]
fn client_tracks_ports_and_session() {
    let client = WdaClient::new();
    assert_eq!(client.ports(), WdaPorts::default());
    assert_eq!(client.session_id(), None);
    assert_eq!(client.timeout(), Duration::from_secs(10));
    let ports = WdaPorts { http: 1, mjpeg: 2 };
    let mut client = client.with_ports(ports).with_timeout(Duration::from_secs(3));
    assert_eq!(client.ports(), ports);
    assert_eq!(client.timeout(), Duration::from_secs(3));
    assert!(client.require_session_id(None).is_err());
    client.remember_session("abc".to_string());
    assert_eq!(client.session_id(), Some("abc"));
    assert_eq!(client.require_session_id(None).unwrap(), "abc");
    assert_eq!(client.require_session_id(Some("xyz")).unwrap(), "xyz");
}

#[test]
fn bridge_endpoints_use_local_ports_in_urls() {
    let endpoints = bridge_endpoints(
        Some("test-udid".into()),
        WdaPorts {
            http: 38100,
            mjpeg: 39100,
        },
        WdaPorts {
            http: 8100,
            mjpeg: 9100,
        },
    );

    assert_eq!(endpoints.udid.as_deref(), Some("test-udid"));
    assert_eq!(endpoints.wda_url, "http://127.0.0.1:38100");
    assert_eq!(endpoints.mjpeg_url, "http://127.0.0.1:39100");
    assert_eq!(endpoints.local_ports.http, 38100);
    assert_eq!(endpoints.local_ports.mjpeg, 39100);
    assert_eq!(endpoints.device_ports.http, 8100);
    assert_eq!(endpoints.device_ports.mjpeg, 9100);
}
