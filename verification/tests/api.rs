use shytti::api::{allowed_hosts, authorize, max_shells, SessionTable, DEFAULT_MAX_SHELLS, UNAUTHORIZED};
use shytti::client::{client_request, client_response_body};
use shytti::pipe::{inbound_action, outbound_action, InboundAction, OutboundAction, WsFrame};
use shytti::text::{
    contains_str, decimal, hostname_from_output, replace_all_str, split_once_str, trim_end_matches_char,
    trim_str,
};

#[test]
fn authorize_without_configured_key_admits_all() {
    assert_eq!(authorize("", None), Ok(()));
    assert_eq!(authorize("", Some("anything")), Ok(()));
}

#[test]
fn authorize_with_key_needs_exact_key() {
    assert_eq!(authorize("secret", Some("secret")), Ok(()));
    assert_eq!(authorize("secret", Some("Secret")), Err(401));
    assert_eq!(authorize("secret", Some("")), Err(401));
    assert_eq!(authorize("secret", None), Err(UNAUTHORIZED));
}

#[test]
fn max_shells_default() {
    assert_eq!(max_shells(None), 64);
    assert_eq!(DEFAULT_MAX_SHELLS, 64);
    assert_eq!(max_shells(Some(3)), 3);
}

#[test]
fn allowed_hosts_keeps_named_hosts_in_order() {
    let hosts = vec![Some("a".to_string()), None, Some("b".to_string()), None];
    assert_eq!(allowed_hosts(&hosts), vec!["a".to_string(), "b".to_string()]);
    assert!(allowed_hosts(&vec![]).is_empty());
}

#[test]
fn session_table_reads_back_writes() {
    let mut t = SessionTable::new();
    assert_eq!(t.len(), 0);
    assert_eq!(t.insert("sh1".to_string(), "s1".to_string()), None);
    assert_eq!(t.insert("sh2".to_string(), "s2".to_string()), None);
    assert_eq!(t.get("sh1"), Some(&"s1".to_string()));
    assert_eq!(t.insert("sh1".to_string(), "s3".to_string()), Some("s1".to_string()));
    assert_eq!(t.len(), 2);
    assert_eq!(t.remove("sh1"), Some("s3".to_string()));
    assert_eq!(t.remove("sh1"), None);
    assert_eq!(t.get("sh2"), Some(&"s2".to_string()));
    assert_eq!(t.len(), 1);
}

#[test]
fn inbound_frames() {
    assert_eq!(inbound_action(WsFrame::Close), InboundAction::Stop);
    assert_eq!(inbound_action(WsFrame::Other), InboundAction::Skip);
    assert_eq!(
        inbound_action(WsFrame::Text(r#"{"resize":[100,30]}"#.to_string())),
        InboundAction::Resize { cols: 100, rows: 30 }
    );
    assert_eq!(
        inbound_action(WsFrame::Binary(br#"{"resize":[100,30]}"#.to_vec())),
        InboundAction::Resize { cols: 100, rows: 30 }
    );
    assert_eq!(inbound_action(WsFrame::Text("ls\n".to_string())), InboundAction::Write(b"ls\n".to_vec()));
    assert_eq!(inbound_action(WsFrame::Binary(vec![0xff, 0x00])), InboundAction::Write(vec![0xff, 0x00]));
    assert_eq!(inbound_action(WsFrame::Text("é".to_string())), InboundAction::Write(vec![0xc3, 0xa9]));
}

#[test]
fn outbound_reads() {
    assert_eq!(outbound_action(Some(vec![])), OutboundAction::Stop);
    assert_eq!(outbound_action(None), OutboundAction::Stop);
    assert_eq!(outbound_action(Some(vec![1, 2])), OutboundAction::Send(vec![1, 2]));
}

#[test]
fn client_request_text() {
    assert_eq!(
        client_request("GET", "/shells", None),
        "GET /shells HTTP/1.1\r\nHost: localhost\r\nConnection: close\r\n\r\n"
    );
    assert_eq!(
        client_request("POST", "/shells", Some("{}")),
        "POST /shells HTTP/1.1\r\nHost: localhost\r\nContent-Type: application/json\r\nContent-Length: 2\r\nConnection: close\r\n\r\n{}"
    );
}

#[test]
fn client_response_body_falls_back_to_whole_response() {
    assert_eq!(client_response_body("HTTP/1.1 200 OK\r\n\r\n[]"), "[]");
    assert_eq!(client_response_body("no blank line"), "no blank line");
}

#[test]
fn decimal_numerals() {
    for n in [0usize, 7, 10, 12, 99, 100, 65535, 1234567890, usize::MAX] {
        assert_eq!(decimal(n), n.to_string());
    }
}

#[test]
fn hostname_output_is_trimmed_or_unknown() {
    assert_eq!(hostname_from_output(Some(b"myhost\n".to_vec())), "myhost");
    assert_eq!(hostname_from_output(Some(b"\t my host \r\n".to_vec())), "my host");
    assert_eq!(hostname_from_output(Some(vec![0xff, 0xfe])), "unknown");
    assert_eq!(hostname_from_output(None), "unknown");
    for s in ["", "  ", "\u{3000}h\u{a0}", "\u{85}x y\u{2029}", "\u{200b}z\u{200b}", "a"] {
        assert_eq!(trim_str(s), s.trim());
    }
}

#[test]
fn text_helpers_agree_with_std() {
    assert_eq!(replace_all_str("aaa", "aa", "b"), "aaa".replace("aa", "b"));
    assert_eq!(replace_all_str("xhttp://http://", "http://", "ws://"), "xhttp://http://".replace("http://", "ws://"));
    assert_eq!(split_once_str("a==b==c", "=="), Some(("a".to_string(), "b==c".to_string())));
    assert_eq!(split_once_str("abc", "x"), None);
    assert!(contains_str("http://localhost:1", "localhost"));
    assert!(!contains_str("http://local", "localhost"));
    assert_eq!(trim_end_matches_char("a//", '/'), "a");
}

#[test]
fn session_table_records_only_successful_attaches() {
    let mut t = SessionTable::new();
    assert!(t.record_attach("sh1".to_string(), Ok("s1".to_string())).is_none());
    let failed = t.record_attach("sh2".to_string(), Err(shytti::error::Error::Bridge("ws connect: refused".into())));
    assert!(matches!(failed, Some(shytti::error::Error::Bridge(_))));
    assert_eq!(t.len(), 1);
    assert_eq!(t.get("sh1"), Some(&"s1".to_string()));
    assert_eq!(t.get("sh2"), None);
    assert_eq!(t.remove("sh1"), Some("s1".to_string()));
}
