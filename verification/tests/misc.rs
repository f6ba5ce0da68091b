use spanda::ops::{deterministic_replay_outcome, DeterministicReplayOutcome};
use spanda::ai::{
    completion_decision, completion_notes, live_ai_enabled, resolve_ai_provider, AiProviderKind, CompletionDecision,
};
use spanda::ast::Span;
use spanda::checkpoint::{default_checkpoint_store_path, load_checkpoint, record_checkpoint, ContinuityCheckpointStore};
use spanda::comm_decl::TransportKind;
use spanda::event_names;
use spanda::grpc_policy::{control_center_rpc_count, PROTO_PACKAGE, PROTO_SEMVER, REFLECTION_ENABLED};
use spanda::ops::{
    choose_baseline, drift_alert, drift_alert_message, enforce_runtime_certification, format_ros2_check_text,
    replay_listing_split, replay_mode, ros2_check_report, ros2_live_enabled, DriftAlertLevel, DriftScanStore,
    ProgramRequest, ReplayMode,
};
use spanda::pattern::RegexPattern;
use spanda::platform_event::{namespaced_type, PlatformEventType};
use spanda::robotics_decl::CertificationStandard;
use spanda::text::{format_decimal, format_zero_padded, parse_u8};

fn pattern(source: &str, flags: &str) -> RegexPattern {
    RegexPattern { source: source.to_string(), flags: flags.to_string(), span: Span { line: 4, column: 9 } }
}

#[test]
fn regex_flags_become_inline_groups() {
    let re = pattern("abc", "i").compile().expect("compiles");
    assert_eq!(re.as_str(), "(?i)abc");
    assert!(re.is_match("ABC"));
    let re = pattern("a.c", "ms").compile().expect("compiles");
    assert_eq!(re.as_str(), "(?s)(?m)a.c");
    let re = pattern("(?i)abc", "i").compile().expect("compiles");
    assert_eq!(re.as_str(), "(?i)abc");
    let re = pattern("abc", "").compile().expect("compiles");
    assert_eq!(re.as_str(), "abc");
}

#[test]
fn case_insensitive_flag_changes_what_matches() {
    let a = pattern("abc", "i").compile().expect("compiles");
    assert!(a.is_match("xABCx"));
    assert!(!a.is_match("ab"));
    let plain = pattern("abc", "").compile().expect("compiles");
    assert!(!plain.is_match("xABCx"));
    let err = pattern("(", "").compile().expect_err("syntax");
    assert!(err.message.starts_with("Invalid regex syntax: "));
    assert!(err.message.ends_with("Suggestion: verify delimiters and escape sequences."));
    assert_eq!((err.line, err.column), (4, 9));
}

#[test]
fn unsupported_regex_flag_is_rejected() {
    let err = pattern("abc", "ix").compile().expect_err("bad flag");
    assert_eq!(
        err.message,
        "Invalid regex flag 'x'; supported flags are i, m, s. Suggestion: remove unsupported flags."
    );
    assert_eq!((err.line, err.column), (4, 9));
}

#[test]
fn regex_syntax_error_is_reported_at_the_literal() {
    let err = pattern("foo(bar", "").compile().expect_err("syntax");
    assert!(err.message.starts_with("Invalid regex syntax: "));
    assert!(err.message.ends_with(". Suggestion: verify delimiters and escape sequences."));
    assert!(err.message.len() > "Invalid regex syntax: . Suggestion: verify delimiters and escape sequences.".len());
    assert_eq!((err.line, err.column), (4, 9));
}

#[test]
fn oversized_regex_reports_the_size_limit() {
    let err = pattern("(?:a{1000}){1000}", "").compile().expect_err("too big");
    assert_eq!(
        err.message,
        "Invalid regex syntax: Compiled regex exceeds size limit of 10485760 bytes.. Suggestion: verify delimiters and escape sequences."
    );
    assert_eq!((err.line, err.column), (4, 9));
}

#[test]
fn checkpoint_load_after_record() {
    let mut store: ContinuityCheckpointStore<u32> = ContinuityCheckpointStore::new();
    record_checkpoint(&mut store, "WarehouseInventoryScan", "ScannerAlpha", 72);
    record_checkpoint(&mut store, "WarehouseInventoryScan", "ScannerBeta", 10);
    assert_eq!(load_checkpoint(&store, "WarehouseInventoryScan", "ScannerAlpha"), Some(72));
    record_checkpoint(&mut store, "WarehouseInventoryScan", "ScannerAlpha", 80);
    assert_eq!(load_checkpoint(&store, "WarehouseInventoryScan", "ScannerAlpha"), Some(80));
    assert_eq!(load_checkpoint(&store, "WarehouseInventoryScan", "ScannerBeta"), Some(10));
    assert_eq!(load_checkpoint(&store, "Other", "ScannerAlpha"), None);
    assert_eq!(store.len(), 2);
    assert!(store.entries().iter().any(|(k, _)| k == "WarehouseInventoryScan::ScannerAlpha"));
    assert_eq!(default_checkpoint_store_path(), ".spanda/mission-checkpoints.json");
}

#[test]
fn counts_rpc_declarations() {
    let proto = "syntax = \"proto3\";\n// proto semver 1.0.4\npackage spanda.v1;\nservice ControlCenter {\n  rpc Health(Empty) returns (HealthResponse);\n\trpc GetDashboard(Empty) returns (JsonResponse);\r\n  // rpc Disabled(Empty) returns (Empty);\n  rpcx Nope();\n}\nrpc Last(Empty) returns (Empty);";
    assert_eq!(control_center_rpc_count(proto), 3);
    assert_eq!(control_center_rpc_count(""), 0);
    assert_eq!(PROTO_PACKAGE, "spanda.v1");
    assert_eq!(PROTO_SEMVER, "1.0.4");
    assert!(!REFLECTION_ENABLED);
}

#[test]
fn live_ai_disabled_without_api_key() {
    assert!(!live_ai_enabled(None, None));
    assert!(!live_ai_enabled(None, Some("")));
    assert!(!live_ai_enabled(Some("0"), Some("sk-test")));
    assert!(live_ai_enabled(Some("1"), Some("sk-test")));
    assert!(live_ai_enabled(None, Some("sk-test")));
}

#[test]
fn provider_resolution() {
    assert_eq!(resolve_ai_provider("OpenAI", true), AiProviderKind::OpenAi);
    assert_eq!(resolve_ai_provider("openai", false), AiProviderKind::Mock);
    assert_eq!(resolve_ai_provider("anthropic", true), AiProviderKind::Mock);
}

#[test]
fn completion_decisions() {
    assert_eq!(completion_decision("Please HALT now", false), CompletionDecision::Stop);
    assert_eq!(completion_decision("turn left", false), CompletionDecision::AvoidObstacle);
    assert_eq!(completion_decision("go ahead", true), CompletionDecision::AvoidObstacle);
    assert_eq!(completion_decision("go ahead", false), CompletionDecision::Forward);
    assert_eq!(
        completion_notes("gpt", "openai", "go", CompletionDecision::AvoidObstacle),
        vec!["model=gpt", "provider=openai", "completion=go", "decision=avoid_obstacle"]
    );
}

#[test]
fn certification_gate() {
    assert!(enforce_runtime_certification(true, false));
    assert!(enforce_runtime_certification(false, true));
    assert!(!enforce_runtime_certification(false, false));
}

#[test]
fn program_request_defaults() {
    let req = ProgramRequest::default();
    assert!(!req.include_runtime);
    assert!(req.file.is_none() && req.target.is_none());
    assert!(!req.include_runtime && !req.inject_health_faults && !req.traceability && !req.capabilities);
}

#[test]
fn program_request_parses_defaults() {
    let req = ProgramRequest::default();
    assert!(!req.include_runtime);
}

#[test]
fn ros2_check_reports_prerequisites() {
    let report = ros2_check_report("", true, "/tmp/bridge.py", false, false);
    assert!(!report.ok);
    assert_eq!(report.items.len(), 4);
    assert_eq!(report.items[0].detail, "not set — source /opt/ros/<distro>/setup.bash");
    let lines = format_ros2_check_text(&report);
    assert_eq!(lines[0], "✗ ROS_DISTRO: not set — source /opt/ros/<distro>/setup.bash");
    assert_eq!(lines[1], "✓ rclpy: importable");
    assert_eq!(lines[4], "✗ Fix ROS_DISTRO and rclpy before enabling SPANDA_ROS2_LIVE=1");
    let ok = ros2_check_report("humble", true, "b.py", true, ros2_live_enabled(Some("1")));
    assert!(ok.ok);
    assert_eq!(ok.items[3].detail, "enabled");
    assert!(!ros2_live_enabled(Some("true")));
}

#[test]
fn replay_modes() {
    assert_eq!(replay_mode(true, true, true), ReplayMode::Faults);
    assert_eq!(replay_mode(false, true, true), ReplayMode::Playback);
    assert_eq!(replay_mode(false, false, true), ReplayMode::Deterministic);
    assert_eq!(replay_mode(false, false, false), ReplayMode::Listing);
    assert_eq!(replay_listing_split(5), (5, 0));
    assert_eq!(replay_listing_split(27), (20, 7));
}

#[test]
fn drift_scan_store_keeps_the_latest() {
    let mut store = DriftScanStore::new(2);
    store.push(1);
    store.push(2);
    store.push(3);
    assert_eq!(store.list(), vec![2, 3]);
    let mut unbounded = DriftScanStore::new(0);
    unbounded.push(1);
    unbounded.push(2);
    assert_eq!(unbounded.list(), vec![2]);
}

#[test]
fn drift_alerts_and_baselines() {
    assert_eq!(drift_alert(true, false, true), Some(DriftAlertLevel::Critical));
    assert_eq!(drift_alert(true, false, false), Some(DriftAlertLevel::Warning));
    assert_eq!(drift_alert(true, true, false), None);
    assert_eq!(drift_alert(false, false, true), None);
    assert_eq!(
        drift_alert_message("snap-1", 3, 2),
        "operational drift detected (baseline snap-1): 3 findings across 2 dimensions"
    );
    assert_eq!(choose_baseline(Some(" "), Some("env-1")), Some("env-1".to_string()));
    assert_eq!(choose_baseline(Some("req"), Some("env-1")), Some("req".to_string()));
    assert_eq!(choose_baseline(None, Some("  ")), None);
}

#[test]
fn event_types() {
    let event = PlatformEventType::new(event_names::READINESS_CHANGED);
    assert_eq!(event.as_str(), "ReadinessChanged");
    assert_eq!(namespaced_type(&event), "spanda.events.ReadinessChanged");
}

#[test]
fn transports_and_standards_round_trip() {
    for kind in [
        TransportKind::Local,
        TransportKind::Ros2,
        TransportKind::Mqtt,
        TransportKind::Dds,
        TransportKind::Websocket,
        TransportKind::Sim,
    ] {
        assert_eq!(TransportKind::from_ident(kind.as_str()), Some(kind));
    }
    assert_eq!(TransportKind::from_ident("bluetooth"), Some(TransportKind::Mqtt));
    assert_eq!(TransportKind::from_ident("wifi"), Some(TransportKind::Local));
    assert_eq!(TransportKind::from_ident("carrier-pigeon"), None);
    assert!(!TransportKind::Sim.supports_encryption());
    assert!(TransportKind::Dds.supports_encryption());
    for s in CertificationStandard::all() {
        assert_eq!(CertificationStandard::parse_ident(s.as_str()), Some(s));
    }
}

#[test]
fn number_formatting_and_parsing() {
    assert_eq!(format_decimal(0), "0");
    assert_eq!(format_decimal(1234), "1234");
    assert_eq!(format_zero_padded(7, 3), "007");
    assert_eq!(format_zero_padded(12345, 3), "12345");
    assert_eq!(parse_u8("255"), Some(255));
    assert_eq!(parse_u8("256"), None);
    assert_eq!(parse_u8("+"), None);
    assert_eq!(parse_u8("-1"), None);
    assert_eq!(parse_u8(""), None);
    assert_eq!(parse_u8("007"), Some(7));
}

#[test]
fn lower_compact_drops_unicode_white_space() {
    assert_eq!(spanda::text::lower_compact("Gps\u{a0}Nav\u{3000}\tX"), "gpsnavx");
    assert_eq!(spanda::text::lower_compact("ÀB"), "Àb");
}

#[test]
fn deterministic_replay_exits_only_on_mismatch_without_json() {
    assert_eq!(deterministic_replay_outcome(true, false), DeterministicReplayOutcome::ReportVerified);
    assert_eq!(deterministic_replay_outcome(false, false), DeterministicReplayOutcome::ReportMismatchesAndExit);
    assert_eq!(deterministic_replay_outcome(false, true), DeterministicReplayOutcome::PrintJson);
    assert_eq!(deterministic_replay_outcome(true, true), DeterministicReplayOutcome::PrintJson);
    assert_eq!(deterministic_replay_outcome(false, false).exit_status(), Some(1));
    assert_eq!(deterministic_replay_outcome(false, true).exit_status(), None);
}
