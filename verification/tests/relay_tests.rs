use concord_sidecar::Relay;

#[test]
fn non_json_line_is_wrapped_as_log() {
    let mut relay = Relay::new();
    let out = relay.on_line("hello world");
    assert_eq!(out.unwrap(), "{\"type\":\"log\",\"message\":\"hello world\"}");
}

#[test]
fn json_line_passes_through_with_identical_structure() {
    let mut relay = Relay::new();
    let line = "{\"a\":1,\"b\":[true,null,\"x\"],\"c\":\"line\\nbreak\"}";
    let out = relay.on_line(line).unwrap();
    let sent: serde_json::Value = serde_json::from_str(line).unwrap();
    let forwarded: serde_json::Value = serde_json::from_str(&out).unwrap();
    assert_eq!(sent, forwarded);
}

#[test]
fn json_line_is_reserialized_not_echoed() {
    let mut relay = Relay::new();
    let out = relay.on_line("{ \"a\" : 1 }").unwrap();
    assert_eq!(out, "{\"a\":1}");
}

#[test]
fn empty_line_produces_no_event() {
    let mut relay = Relay::new();
    assert!(relay.on_line("").is_none());
}

#[test]
fn whitespace_only_line_produces_no_event() {
    let mut relay = Relay::new();
    assert!(relay.on_line(" \t  \u{a0}  ").is_none());
}

#[test]
fn surrounding_whitespace_is_trimmed_before_wrapping() {
    let mut relay = Relay::new();
    let out = relay.on_line("  hi  ").unwrap();
    assert_eq!(out, "{\"type\":\"log\",\"message\":\"hi\"}");
}

#[test]
fn surrounding_whitespace_is_trimmed_before_parsing() {
    let mut relay = Relay::new();
    let out = relay.on_line("  {\"a\":1}  ").unwrap();
    assert_eq!(out, "{\"a\":1}");
}

#[test]
fn stream_end_emits_the_terminal_event() {
    let mut relay = Relay::new();
    let _ = relay.on_line("{\"ready\":true}");
    let last = relay.on_exit();
    assert_eq!(last, "{\"type\":\"error\",\"message\":\"Sidecar process exited\"}");
}

#[test]
fn immediate_stream_close_emits_exactly_the_terminal_event() {
    let mut relay = Relay::new();
    let last = relay.on_exit();
    assert_eq!(last, "{\"type\":\"error\",\"message\":\"Sidecar process exited\"}");
}

#[test]
fn read_error_is_reported_then_the_stream_still_terminates() {
    let mut relay = Relay::new();
    let err = relay.on_read_error("broken pipe");
    assert_eq!(
        err,
        "{\"type\":\"error\",\"message\":\"stdout read error: broken pipe\"}"
    );
    let last = relay.on_exit();
    assert_eq!(last, "{\"type\":\"error\",\"message\":\"Sidecar process exited\"}");
}

#[test]
fn wrapped_log_escapes_quotes_and_controls() {
    let mut relay = Relay::new();
    let out = relay.on_line("say \"hi\"\u{1f} now").unwrap();
    assert_eq!(
        out,
        "{\"type\":\"log\",\"message\":\"say \\\"hi\\\"\\u001f now\"}"
    );
}

#[test]
fn scalar_json_passes_through_too() {
    let mut relay = Relay::new();
    assert_eq!(relay.on_line("42").unwrap(), "42");
    assert_eq!(relay.on_line("\"just a string\"").unwrap(), "\"just a string\"");
}
