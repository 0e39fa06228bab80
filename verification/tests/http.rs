use dm_mcp::handler::{DiceRollParams, Transport};
use dm_mcp::http::{constant_time_eq, is_healthy, may_pass};

#[test]
fn bytes_are_compared_in_full() {
    assert!(constant_time_eq(b"", b""));
    assert!(constant_time_eq(b"hunter2", b"hunter2"));
    assert!(!constant_time_eq(b"hunter2", b"hunter3"));
    assert!(!constant_time_eq(b"hunter2", b"hunter"));
    assert!(!constant_time_eq(b"\x00", b"\x80"));
}

#[test]
fn only_the_token_passes() {
    let token: &[u8] = b"s3cret";
    assert!(may_pass(None, None));
    assert!(may_pass(None, Some(b"Bearer anything")));
    assert!(may_pass(Some(token), Some(b"Bearer s3cret")));
    assert!(!may_pass(Some(token), None));
    assert!(!may_pass(Some(token), Some(b"Bearer s3cre")));
    assert!(!may_pass(Some(token), Some(b"Bearer s3cret ")));
    assert!(!may_pass(Some(token), Some(b"bearer s3cret")));
    assert!(!may_pass(Some(token), Some(b"s3cret")));
    assert!(!may_pass(Some(token), Some(b"")));
}

#[test]
fn health_is_read_off_the_status_line() {
    assert!(is_healthy(b"HTTP/1.1 200 OK\r\n\r\nok"));
    assert!(!is_healthy(b"HTTP/1.1 503 Service Unavailable\r\n\r\n"));
    assert!(!is_healthy(b""));
}

#[test]
fn transports_have_names() {
    assert_eq!(Transport::Stdio.as_str(), "stdio");
    assert_eq!(Transport::Http.as_str(), "http");
    assert_eq!(DiceRollParams { spec: "d6".to_string() }.spec, "d6");
}
