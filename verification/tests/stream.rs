use spanda::stream::{
    client_command, is_telemetry_stream_upgrade, ClientCommand, FlowStep, StreamConfig, StreamFeed, StreamOffsets,
    StreamReply, StreamState,
};

#[test]
fn detects_upgrade_request() {
    let raw = "GET /v1/stream/telemetry HTTP/1.1\r\nUpgrade: websocket\r\nConnection: Upgrade\r\n\r\n";
    assert!(is_telemetry_stream_upgrade(raw, "/v1/stream/telemetry"));
    assert!(!is_telemetry_stream_upgrade(raw, "/v1/health"));
}

#[test]
fn upgrade_needs_both_headers() {
    let raw = "GET /v1/stream/telemetry HTTP/1.1\r\nUpgrade: websocket\r\n\r\n";
    assert!(!is_telemetry_stream_upgrade(raw, "/v1/stream/telemetry"));
}

#[test]
fn parses_resume_command() {
    let text = r#"{"type":"resume","telemetry_offset":3,"trace_offset":1,"alert_offset":2}"#;
    let value: serde_json::Value = serde_json::from_str(text).expect("json");
    let kind = value.get("type").and_then(|v| v.as_str()).expect("type");
    let offset = |key: &str| value.get(key).and_then(|v| v.as_u64()).unwrap_or(0) as usize;
    let command = client_command(kind, offset("telemetry_offset"), offset("trace_offset"), offset("alert_offset"))
        .expect("resume");
    match command {
        ClientCommand::Resume(offsets) => {
            assert_eq!(offsets.telemetry, 3);
            assert_eq!(offsets.traces, 1);
            assert_eq!(offsets.alerts, 2);
        }
        ClientCommand::Ping => panic!("expected resume"),
    }
}

#[test]
fn ping_and_unknown_commands() {
    assert_eq!(client_command("ping", 0, 0, 0), Some(ClientCommand::Ping));
    assert_eq!(client_command("shutdown", 0, 0, 0), None);
}

#[test]
fn config_defaults() {
    let config = StreamConfig::from_settings(None, None, None);
    assert_eq!(config.max_pending_frames, 64);
    assert_eq!(config.heartbeat_interval_ms, 15_000);
    assert_eq!(config.poll_interval_ms, 250);
    let config = StreamConfig::from_settings(Some(2), Some(10), None);
    assert_eq!(config.max_pending_frames, 2);
    assert_eq!(config.heartbeat_interval_ms, 10);
}

#[test]
fn frames_beyond_the_limit_are_dropped() {
    let mut state = StreamState::new();
    assert!(state.admit_frame(2));
    assert!(state.admit_frame(2));
    assert!(!state.admit_frame(2));
    assert_eq!(state.pending_frames, 2);
}

#[test]
fn backpressure_is_announced_once_and_lifted() {
    let mut state = StreamState::new();
    state.admit_frame(1);
    assert_eq!(state.flow_control(1), FlowStep::Throttle { announce_pause: true });
    assert_eq!(state.flow_control(1), FlowStep::Throttle { announce_pause: false });
    state.relieve();
    assert_eq!(state.pending_frames, 0);
    assert_eq!(state.flow_control(1), FlowStep::Proceed { announce_resume: true });
    assert_eq!(state.flow_control(1), FlowStep::Proceed { announce_resume: false });
    state.relieve();
    assert_eq!(state.pending_frames, 0);
}

#[test]
fn feeds_catch_up_once() {
    let mut state = StreamState::new();
    assert_eq!(state.catch_up(StreamFeed::Traces, 3), Some((0, 3)));
    assert_eq!(state.catch_up(StreamFeed::Traces, 3), None);
    assert_eq!(state.offsets.traces, 3);
    assert_eq!(state.offsets.telemetry, 0);
    assert_eq!(state.catch_up(StreamFeed::Traces, 5), Some((3, 5)));
}

#[test]
fn resume_moves_offsets() {
    let mut state = StreamState::new();
    let offsets = StreamOffsets { telemetry: 4, traces: 5, alerts: 6 };
    assert_eq!(state.apply_command(ClientCommand::Resume(offsets)), StreamReply::Resumed(offsets));
    assert_eq!(state.offsets, offsets);
    assert_eq!(state.apply_command(ClientCommand::Ping), StreamReply::Pong);
    assert_eq!(state.offsets, offsets);
    assert_eq!(state.catch_up(StreamFeed::Alerts, 6), None);
}

#[test]
fn hello_contract_promises_resume_with_configured_limits() {
    let config = spanda::stream::StreamConfig::from_settings(None, Some(500), None);
    let contract = spanda::stream::hello_contract(&config);
    assert!(contract.resume_supported);
    assert_eq!(contract.max_pending_frames, 64);
    assert_eq!(contract.heartbeat_interval_ms, 500);
    assert_eq!(
        contract.reconnect,
        "send {\"type\":\"resume\",\"telemetry_offset\":N,\"trace_offset\":N,\"alert_offset\":N}"
    );
}
