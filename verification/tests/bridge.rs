use shytti::bridge::{
    check_auth_reply, delete_request, parse_resize, parse_url, post_request, register_body,
    response_body, session_id_from_reply, HermyttBridge,
};
use shytti::error::Error;

#[test]
fn parse_resize_valid_80x24() {
    assert_eq!(parse_resize(r#"{"resize":[80,24]}"#), Some((80, 24)));
}

#[test]
fn parse_resize_valid_120x40() {
    assert_eq!(parse_resize(r#"{"resize":[120,40]}"#), Some((120, 40)));
}

#[test]
fn parse_resize_other_key() {
    assert_eq!(parse_resize(r#"{"other":"data"}"#), None);
}

#[test]
fn parse_resize_not_json() {
    assert_eq!(parse_resize("not json"), None);
}

#[test]
fn parse_resize_not_array() {
    assert_eq!(parse_resize(r#"{"resize":"notarray"}"#), None);
}

#[test]
fn parse_resize_empty_object() {
    assert_eq!(parse_resize("{}"), None);
}

#[test]
fn parse_url_http_with_path() {
    let (host, path) = parse_url("http://localhost:7777/foo/bar").unwrap();
    assert_eq!(host, "localhost:7777");
    assert_eq!(path, "/foo/bar");
}

#[test]
fn parse_url_https_with_path() {
    let (host, path) = parse_url("https://host:443/path").unwrap();
    assert_eq!(host, "host:443");
    assert_eq!(path, "/path");
}

#[test]
fn parse_url_bad_scheme() {
    assert!(parse_url("ftp://bad").is_err());
}

#[test]
fn parse_url_no_path() {
    let (host, path) = parse_url("http://host").unwrap();
    assert_eq!(host, "host");
    assert_eq!(path, "/");
}

#[test]
fn bridge_new_trims_trailing_slash() {
    let b = HermyttBridge::new("http://localhost:7777/", "key");
    assert_eq!(b.base_url(), "http://localhost:7777");
}

#[test]
fn bridge_ws_url_http_to_ws() {
    let b = HermyttBridge::new("http://localhost:7777", "key");
    let url = b.ws_url("sess-1");
    assert_eq!(url, "ws://localhost:7777/internal/session/sess-1/pipe");
}

#[test]
fn bridge_ws_url_https_to_wss() {
    let b = HermyttBridge::new("https://secure.host:443", "key");
    let url = b.ws_url("sess-2");
    assert_eq!(url, "wss://secure.host:443/internal/session/sess-2/pipe");
}

// ---- further cases ----

#[test]
fn parse_resize_truncates_to_u16() {
    assert_eq!(parse_resize(r#"{"resize":[99999,70000]}"#), Some((34463, 4464)));
}

#[test]
fn parse_resize_needs_two_unsigned_integers() {
    assert_eq!(parse_resize(r#"{"resize":[80]}"#), None);
    assert_eq!(parse_resize(r#"{"resize":[-1,24]}"#), None);
    assert_eq!(parse_resize(r#"{"resize":[80.5,24]}"#), None);
    assert_eq!(parse_resize(r#"{"resize":[80,24,7]}"#), Some((80, 24)));
    assert_eq!(parse_resize(r#"[80,24]"#), None);
}

#[test]
fn parse_resize_last_duplicate_key_wins() {
    assert_eq!(parse_resize(r#"{"resize":[1,2],"resize":[3,4]}"#), Some((3, 4)));
}

#[test]
fn parse_url_https_no_path_and_bad_url_error() {
    let (host, path) = parse_url("https://h:1").unwrap();
    assert_eq!(host, "h:1");
    assert_eq!(path, "/");
    match parse_url("localhost:7777") {
        Err(Error::Bridge(m)) => assert_eq!(m, "bad url"),
        _ => panic!("expected a bridge error"),
    }
}

#[test]
fn parse_url_cuts_at_first_slash() {
    let (host, path) = parse_url("http://h/a/b/").unwrap();
    assert_eq!(host, "h");
    assert_eq!(path, "/a/b/");
    let (host, path) = parse_url("http:///x").unwrap();
    assert_eq!(host, "");
    assert_eq!(path, "/x");
}

#[test]
fn bridge_new_trims_every_trailing_slash_and_is_idempotent() {
    let b = HermyttBridge::new("http://h:1///", "key");
    assert_eq!(b.base_url(), "http://h:1");
    let again = HermyttBridge::new(b.base_url(), b.auth_key());
    assert_eq!(again.base_url(), "http://h:1");
    assert_eq!(again.auth_key(), "key");
    assert_eq!(HermyttBridge::new("///", "k").base_url(), "");
}

#[test]
fn bridge_is_configured_rules() {
    assert!(!HermyttBridge::new("http://localhost:7777", "key").is_configured());
    assert!(HermyttBridge::new("http://10.0.0.2:7777", "").is_configured());
    assert!(HermyttBridge::new("http://10.0.0.2:7777", "key").is_configured());
    assert!(!HermyttBridge::new("https://mylocalhostbox", "key").is_configured());
}

#[test]
fn bridge_ws_url_replaces_every_scheme_occurrence() {
    let b = HermyttBridge::new("http://h/http://x", "k");
    assert_eq!(b.ws_url("s"), "ws://h/ws://x/internal/session/s/pipe");
    let b = HermyttBridge::new("ftp://h", "k");
    assert_eq!(b.ws_url("s"), "ftp://h/internal/session/s/pipe");
}

#[test]
fn bridge_register_and_session_urls() {
    let b = HermyttBridge::new("http://h:7777/", "k");
    assert_eq!(b.register_url(), "http://h:7777/internal/session");
    assert_eq!(b.session_url("abc"), "http://h:7777/internal/session/abc");
}

#[test]
fn register_body_quotes_the_id() {
    assert_eq!(register_body(Some("sh-1")), r#"{"id":"sh-1"}"#);
    assert_eq!(register_body(Some("a\"b\\c\n")), r#"{"id":"a\"b\\c\n"}"#);
    assert_eq!(register_body(None), "{}");
}

#[test]
fn post_request_text() {
    let (host, req) = post_request("http://h:7777/internal/session", "KEY", r#"{"id":"é"}"#).unwrap();
    assert_eq!(host, "h:7777");
    assert_eq!(
        req,
        "POST /internal/session HTTP/1.1\r\nHost: h:7777\r\nX-Hermytt-Key: KEY\r\nContent-Type: application/json\r\nContent-Length: 11\r\nConnection: close\r\n\r\n{\"id\":\"é\"}"
    );
    assert!(post_request("ftp://h", "k", "").is_err());
}

#[test]
fn delete_request_text() {
    let (host, req) = delete_request("https://h/internal/session/s1", "KEY").unwrap();
    assert_eq!(host, "h");
    assert_eq!(
        req,
        "DELETE /internal/session/s1 HTTP/1.1\r\nHost: h\r\nX-Hermytt-Key: KEY\r\nConnection: close\r\n\r\n"
    );
}

#[test]
fn bridge_register_and_unregister_requests() {
    let b = HermyttBridge::new("http://h:1/", "K");
    let (host, req) = b.register_request(Some("x")).unwrap();
    assert_eq!(host, "h:1");
    assert_eq!(
        req,
        "POST /internal/session HTTP/1.1\r\nHost: h:1\r\nX-Hermytt-Key: K\r\nContent-Type: application/json\r\nContent-Length: 10\r\nConnection: close\r\n\r\n{\"id\":\"x\"}"
    );
    let (_, req) = b.unregister_request("s9").unwrap();
    assert_eq!(req, "DELETE /internal/session/s9 HTTP/1.1\r\nHost: h:1\r\nX-Hermytt-Key: K\r\nConnection: close\r\n\r\n");
}

#[test]
fn response_body_after_first_blank_line() {
    assert_eq!(response_body("HTTP/1.1 200 OK\r\nA: b\r\n\r\n{\"id\":1}\r\n\r\nx").unwrap(), "{\"id\":1}\r\n\r\nx");
    assert_eq!(response_body("HTTP/1.1 204\r\n\r\n").unwrap(), "");
    match response_body("garbage") {
        Err(Error::Bridge(m)) => assert_eq!(m, "malformed response"),
        _ => panic!("expected a bridge error"),
    }
}

#[test]
fn session_id_from_reply_cases() {
    assert_eq!(session_id_from_reply(r#"{"id":"140b0d-2"}"#).unwrap(), "140b0d-2");
    match session_id_from_reply(r#"{"id":7}"#) {
        Err(Error::Bridge(m)) => assert_eq!(m, "no id in register response"),
        _ => panic!("expected a bridge error"),
    }
    match session_id_from_reply(r#"["id"]"#) {
        Err(Error::Bridge(m)) => assert_eq!(m, "no id in register response"),
        _ => panic!("expected a bridge error"),
    }
    match session_id_from_reply("not json") {
        Err(Error::Bridge(m)) => assert!(m.starts_with("register parse: ")),
        _ => panic!("expected a bridge error"),
    }
}

#[test]
fn auth_reply_must_be_exactly_ok() {
    assert!(check_auth_reply("auth:ok").is_ok());
    match check_auth_reply("auth:no") {
        Err(Error::Bridge(m)) => assert_eq!(m, "auth rejected: auth:no"),
        _ => panic!("expected a bridge error"),
    }
    assert!(check_auth_reply("auth:ok ").is_err());
    assert!(check_auth_reply("").is_err());
}

#[test]
fn register_body_escapes_control_characters() {
    assert_eq!(
        register_body(Some("\u{1}\u{8}\t\u{c}\r/\u{7f}é")),
        "{\"id\":\"\\u0001\\b\\t\\f\\r/\u{7f}é\"}"
    );
    let body = register_body(Some("\",\"admin\":true,\"id\":\""));
    let v: serde_json::Value = serde_json::from_str(&body).unwrap();
    assert_eq!(v["id"], "\",\"admin\":true,\"id\":\"");
    assert_eq!(v.as_object().unwrap().len(), 1);
}
