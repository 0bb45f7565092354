use concord_sidecar::{Supervisor, SupervisorError};

#[test]
fn submit_without_worker_fails_with_not_running() {
    let sup = Supervisor::new();
    let r = sup.p2p_send("general".to_string(), "hello".to_string(), None);
    assert!(matches!(r, Err(SupervisorError::NotRunning)));
    let r = sup.p2p_dial("/ip4/10.0.0.1/tcp/4001".to_string());
    assert!(matches!(r, Err(SupervisorError::NotRunning)));
}

#[test]
fn stop_twice_is_a_no_op_the_second_time() {
    let mut sup = Supervisor::new();
    let first = sup.kill_sidecar();
    assert_eq!(first, (None, None));
    let second = sup.kill_sidecar();
    assert_eq!(second, (None, None));
}

#[test]
fn start_stores_one_token_and_stop_retires_it() {
    let mut sup = Supervisor::new();
    let id = sup.register_start();
    let (input, handle) = sup.kill_sidecar();
    assert_eq!(input, Some(id));
    assert_eq!(handle, Some(id));
    let (input, handle) = sup.kill_sidecar();
    assert_eq!(input, None);
    assert_eq!(handle, None);
}

#[test]
fn restart_hands_out_a_fresh_token() {
    let mut sup = Supervisor::new();
    let first = sup.register_start();
    sup.kill_sidecar();
    let second = sup.register_start();
    assert_ne!(first, second);
}

#[test]
fn broadcast_send_encodes_the_exact_wire_line() {
    let mut sup = Supervisor::new();
    sup.register_start();
    let line = sup
        .p2p_send("general".to_string(), "hello".to_string(), None)
        .unwrap();
    assert_eq!(
        line,
        "{\"cmd\":\"send\",\"channelId\":\"general\",\"data\":\"hello\"}\n"
    );
}

#[test]
fn targeted_send_carries_the_peer_id() {
    let mut sup = Supervisor::new();
    sup.register_start();
    let line = sup
        .p2p_send(
            "dm".to_string(),
            "psst".to_string(),
            Some("12D3KooW".to_string()),
        )
        .unwrap();
    assert_eq!(
        line,
        "{\"cmd\":\"send\",\"channelId\":\"dm\",\"data\":\"psst\",\"targetPeerId\":\"12D3KooW\"}\n"
    );
}

#[test]
fn dial_encodes_the_exact_wire_line() {
    let mut sup = Supervisor::new();
    sup.register_start();
    let line = sup.p2p_dial("/dns4/example.test/tcp/443".to_string()).unwrap();
    assert_eq!(
        line,
        "{\"cmd\":\"dial\",\"address\":\"/dns4/example.test/tcp/443\"}\n"
    );
}

#[test]
fn message_data_is_escaped_into_the_json_line() {
    let mut sup = Supervisor::new();
    sup.register_start();
    let line = sup
        .p2p_send(
            "general".to_string(),
            "quote \" backslash \\ tab \t end".to_string(),
            None,
        )
        .unwrap();
    assert_eq!(
        line,
        "{\"cmd\":\"send\",\"channelId\":\"general\",\"data\":\"quote \\\" backslash \\\\ tab \\t end\"}\n"
    );
}

#[test]
fn a_submitted_line_holds_exactly_one_line_break_at_its_end() {
    let mut sup = Supervisor::new();
    sup.register_start();
    let line = sup
        .p2p_send("general".to_string(), "first\nsecond\rthird".to_string(), None)
        .unwrap();
    assert_eq!(line.matches('\n').count(), 1);
    assert!(line.ends_with('\n'));
    let parsed: serde_json::Value = serde_json::from_str(line.trim_end()).unwrap();
    assert_eq!(parsed["data"], serde_json::Value::String("first\nsecond\rthird".to_string()));
}

#[test]
fn submitted_lines_parse_back_to_the_same_command_fields() {
    let mut sup = Supervisor::new();
    sup.register_start();
    let line = sup
        .p2p_send("general".to_string(), "héllo ⚡".to_string(), Some("peer1".to_string()))
        .unwrap();
    let parsed: serde_json::Value = serde_json::from_str(line.trim_end()).unwrap();
    assert_eq!(parsed["cmd"], serde_json::Value::String("send".to_string()));
    assert_eq!(parsed["channelId"], serde_json::Value::String("general".to_string()));
    assert_eq!(parsed["data"], serde_json::Value::String("héllo ⚡".to_string()));
    assert_eq!(parsed["targetPeerId"], serde_json::Value::String("peer1".to_string()));
}
