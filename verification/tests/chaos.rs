use spanda::ast::{Program, RobotDecl, SensorDecl};
use spanda::chaos::{
    chaos_injection_labels, default_injections, evaluate_injection, format_chaos_text, normalize_injection,
    run_chaos_experiment, runtime_faults, ChaosExperimentOptions, ChaosFormat, InjectionSignals,
};

fn rover_with(sensor_type: &str) -> Program {
    Program {
        robots: vec![RobotDecl {
            name: "Rover".to_string(),
            sensors: vec![SensorDecl { name: "s".to_string(), sensor_type: sensor_type.to_string() }],
            ..Default::default()
        }],
        ..Default::default()
    }
}

fn good_signals() -> InjectionSignals {
    InjectionSignals {
        recovery_passed: true,
        recovery_ready: true,
        mission_ready: false,
        readiness_has_errors: true,
        health_failed: false,
        unsafe_results: 0,
        approved_actions: 2,
        total_actions: 2,
        recovery_note: "(plans=1, success_rate=100%)".to_string(),
        readiness_note: "(mission_ready=false, score 7/10)".to_string(),
        health_note: "(overall=Degraded, checks=3)".to_string(),
    }
}

#[test]
fn normalizes_aliases_and_spelling() {
    assert_eq!(normalize_injection("gps-failure"), Some("gps"));
    assert_eq!(normalize_injection("  GPS_Failure "), Some("gps"));
    assert_eq!(normalize_injection("network"), Some("connectivity"));
    assert_eq!(normalize_injection("Network_Failure"), Some("connectivity"));
    assert_eq!(normalize_injection("battery"), Some("battery"));
    assert_eq!(normalize_injection("teleport"), None);
    assert_eq!(normalize_injection(""), None);
}

#[test]
fn failure_kinds_normalize_to_themselves() {
    for raw in ["gps", "camera-failure", "LIDAR", "network_failure", "provider", "package", "battery-failure"] {
        let kind = normalize_injection(raw).expect("known");
        assert_eq!(normalize_injection(kind), Some(kind));
    }
}

#[test]
fn defaults_include_gps_and_lidar_sensors() {
    let mut program = rover_with("GPS");
    program.robots[0].sensors.push(SensorDecl { name: "l".to_string(), sensor_type: "Lidar".to_string() });
    let kinds = default_injections(&program, "{}");
    assert!(kinds.iter().any(|k| k.contains("gps")));
    assert!(kinds.iter().any(|k| k.contains("lidar")));
}

#[test]
fn defaults_follow_sensors_and_mentions_in_order() {
    let program = rover_with("DepthCamera");
    let kinds = default_injections(&program, "{\"notes\":\"Battery swap via Provider\"}");
    assert_eq!(kinds, vec!["camera-failure", "provider-failure", "battery-failure"]);
}

#[test]
fn defaults_fall_back_to_gps() {
    let kinds = default_injections(&Program::default(), "{}");
    assert_eq!(kinds, vec!["gps-failure"]);
}

#[test]
fn connectivity_requirement_adds_connectivity_failure() {
    let program = Program { requires_connectivity: true, ..Default::default() };
    assert_eq!(default_injections(&program, "{}"), vec!["connectivity-failure"]);
}

#[test]
fn explicit_injections_replace_defaults() {
    let options = ChaosExperimentOptions { injections: vec!["camera".to_string()] };
    assert_eq!(chaos_injection_labels(&Program::default(), "{}", &options), vec!["camera"]);
    let none = ChaosExperimentOptions::default();
    assert_eq!(chaos_injection_labels(&Program::default(), "{}", &none), vec!["gps-failure"]);
}

#[test]
fn runtime_faults_per_kind() {
    assert_eq!(runtime_faults("gps"), vec!["gps.failed", "gps"]);
    assert_eq!(runtime_faults("connectivity"), vec!["network.disconnected", "connectivity"]);
    assert_eq!(runtime_faults("battery"), vec!["battery.low", "battery"]);
    assert_eq!(runtime_faults("thermal"), vec!["thermal.failed"]);
}

#[test]
fn evaluation_combines_signals() {
    let result = evaluate_injection("gps-failure", &good_signals());
    assert!(result.recovery_passed && result.readiness_passed && result.health_passed && result.safety_passed);
    assert!(result.passed);
    assert_eq!(result.details[0], "recovery: pass (plans=1, success_rate=100%)");
    assert_eq!(result.details[3], "safety: pass (unsafe_results=0, approved_actions=2/2)");

    let mut unapproved = good_signals();
    unapproved.approved_actions = 1;
    let result = evaluate_injection("gps-failure", &unapproved);
    assert!(!result.safety_passed && !result.passed);
    assert_eq!(result.details[3], "safety: fail (unsafe_results=0, approved_actions=1/2)");

    let mut unready = good_signals();
    unready.recovery_ready = false;
    let result = evaluate_injection("gps-failure", &unready);
    assert!(!result.readiness_passed && !result.passed);
}

#[test]
fn gps_injection_with_passing_signals_passes() {
    let labels = vec!["gps-failure".to_string()];
    let report = run_chaos_experiment("rover.sd", &labels, &vec![Some(good_signals())]);
    let gps = report.injections.iter().find(|r| r.injection == "gps-failure").expect("gps injection result");
    assert!(gps.recovery_passed, "{:?}", gps.details);
    assert!(gps.passed, "{:?}", gps.details);
    assert!(report.passed);
}

#[test]
fn failed_recovery_fails_the_experiment() {
    let mut signals = good_signals();
    signals.recovery_passed = false;
    let labels = vec!["gps-failure".to_string()];
    let report = run_chaos_experiment("rover.sd", &labels, &vec![Some(signals)]);
    assert!(!report.passed);
}

#[test]
fn unknown_injection_fails_every_check() {
    let labels = vec!["gps".to_string(), "teleport".to_string()];
    let report = run_chaos_experiment("rover.sd", &labels, &vec![Some(good_signals()), None]);
    let unknown = &report.injections[1];
    assert!(!unknown.passed && !unknown.recovery_passed && !unknown.safety_passed);
    assert_eq!(unknown.details, vec!["unknown injection kind: teleport"]);
    assert!(!report.passed);
}

#[test]
fn empty_experiment_does_not_pass() {
    let report = run_chaos_experiment("rover.sd", &Vec::new(), &Vec::new());
    assert!(report.injections.is_empty());
    assert!(!report.passed);
}

#[test]
fn text_report_layout() {
    assert_eq!(ChaosFormat::default(), ChaosFormat::Text);
    let labels = vec!["teleport".to_string()];
    let report = run_chaos_experiment("rover.sd", &labels, &vec![None]);
    let text = format_chaos_text(&report);
    assert_eq!(
        text,
        "Chaos experiment: rover.sd\nResult: FAIL\n\nInjection: teleport — FAIL\n  recovery=fail health=fail readiness=fail safety=fail\n  - unknown injection kind: teleport"
    );
}
