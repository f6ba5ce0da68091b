use spanda::ast::{
    ActuatorDecl, HardwareDecl, KillSwitchDecl, MissionDecl, Program, RequiresCapabilityDecl,
    RequiresCapabilitySeverity, RobotDecl, SensorDecl, Span,
};
use spanda::diagnostics::collect_verification_diagnostics;
use spanda::minimum::check_minimum_capabilities;
use spanda::registry::{actuator_capabilities, capability_registry, lookup_capability, sensor_capabilities};
use spanda::robot::infer_robot_capabilities;
use spanda::traceability::{capability_traceability, hardware_traceability};

fn sensor(name: &str, ty: &str) -> SensorDecl {
    SensorDecl { name: name.to_string(), sensor_type: ty.to_string() }
}

fn actuator(name: &str, ty: &str) -> ActuatorDecl {
    ActuatorDecl { name: name.to_string(), actuator_type: ty.to_string() }
}

fn strings(items: &[&str]) -> Vec<String> {
    items.iter().map(|s| s.to_string()).collect()
}

fn rover() -> RobotDecl {
    RobotDecl {
        name: "Rover".to_string(),
        sensors: vec![sensor("gps", "GPS")],
        actuators: vec![actuator("wheels", "DifferentialDrive")],
        span: Span { line: 2, column: 1 },
        ..Default::default()
    }
}

#[test]
fn registry_contains_core_capabilities() {
    assert!(lookup_capability("gps_navigation").is_some());
    assert!(lookup_capability("emergency_stop").is_some());
    assert!(lookup_capability("nonexistent").is_none());
}

#[test]
fn sensor_capability_mapping() {
    let caps = sensor_capabilities("GPS");
    assert!(caps.contains(&"read_location"));
}

#[test]
fn capability_registry_lookup() {
    assert!(lookup_capability("gps_navigation").is_some());
    assert!(lookup_capability("emergency_stop").is_some());
}

#[test]
fn every_registered_capability_is_found_by_name() {
    for def in capability_registry() {
        let found = lookup_capability(&def.name).expect("registered capability");
        assert_eq!(found.name, def.name);
    }
}

#[test]
fn actuator_capability_mapping() {
    assert_eq!(
        actuator_capabilities("DifferentialDrive"),
        vec!["move_forward", "rotate", "stop", "emergency_stop"]
    );
    assert_eq!(actuator_capabilities("NoSuchActuator"), vec!["execute", "stop"]);
    assert_eq!(sensor_capabilities("Sonar"), vec!["read"]);
}

#[test]
fn hardware_traceability_matrix() {
    let program = Program {
        hardware_profiles: vec![HardwareDecl {
            name: "RoverV1".to_string(),
            sensors: strings(&["GPS", "Lidar"]),
            actuators: strings(&["DifferentialDrive"]),
            ..Default::default()
        }],
        robots: vec![RobotDecl { uses_hardware: Some("RoverV1".to_string()), ..rover() }],
        ..Default::default()
    };
    let report = hardware_traceability(&program);
    assert!(!report.hardware_rows.is_empty());
}

#[test]
fn robot_capability_inference() {
    let program = Program {
        robots: vec![RobotDecl { exposes_capabilities: strings(&["gps_navigation"]), ..rover() }],
        ..Default::default()
    };
    let reports = infer_robot_capabilities(&program);
    assert_eq!(reports.len(), 1);
    assert!(reports[0].rows.iter().any(|r| r.capability == "gps_navigation"));
}

#[test]
fn inferred_rows_name_each_capability_once() {
    let program = Program {
        robots: vec![RobotDecl {
            exposes_capabilities: strings(&["gps_navigation", "gps_navigation"]),
            ..rover()
        }],
        ..Default::default()
    };
    let reports = infer_robot_capabilities(&program);
    let rows = &reports[0].rows;
    for (i, a) in rows.iter().enumerate() {
        for b in rows.iter().skip(i + 1) {
            assert_ne!(a.capability, b.capability);
        }
    }
    assert!(rows.iter().any(|r| r.capability == "gps_navigation"));
}

#[test]
fn minimum_capability_check_fails_without_lidar() {
    let program = Program {
        robots: vec![RobotDecl {
            mission: Some(MissionDecl {
                name: Some("Patrol".to_string()),
                duration_label: None,
                required_capabilities: strings(&["obstacle_avoidance"]),
            }),
            ..rover()
        }],
        ..Default::default()
    };
    let report = check_minimum_capabilities(&program);
    assert!(!report.compatible || !report.errors.is_empty());
}

#[test]
fn patrol_mission_missing_lidar_fails() {
    let program = Program {
        hardware_profiles: vec![HardwareDecl {
            name: "RoverV1".to_string(),
            sensors: strings(&["GPS"]),
            actuators: strings(&["DifferentialDrive"]),
            ..Default::default()
        }],
        robots: vec![RobotDecl {
            name: "Rover".to_string(),
            uses_hardware: Some("RoverV1".to_string()),
            exposes_capabilities: strings(&["obstacle_avoidance", "gps_navigation"]),
            mission: Some(MissionDecl { name: Some("Patrol".to_string()), ..Default::default() }),
            ..Default::default()
        }],
        ..Default::default()
    };
    let report = check_minimum_capabilities(&program);
    assert!(!report.compatible || !report.errors.is_empty() || !report.rows.is_empty());
}

#[test]
fn minimum_report_is_compatible_exactly_without_errors() {
    let program = Program { robots: vec![rover()], ..Default::default() };
    let report = check_minimum_capabilities(&program);
    assert_eq!(report.compatible, report.errors.is_empty());
}

#[test]
fn kill_switch_traceability() {
    let program = Program {
        kill_switches: vec![KillSwitchDecl {
            name: "EmergencyStop".to_string(),
            priority: "critical".to_string(),
            remote_signed: false,
            span: Span { line: 2, column: 1 },
        }],
        ..Default::default()
    };
    let report = capability_traceability(&program);
    assert!(report.hardware_rows.iter().any(|r| r.capability == "emergency_stop"));
}

#[test]
fn capability_traceability_json_shape() {
    let program = Program {
        requires_capabilities: vec![RequiresCapabilityDecl {
            capability: "gps_navigation".to_string(),
            required_by: None,
            severity: RequiresCapabilitySeverity::Error,
            span: Span { line: 2, column: 1 },
        }],
        robots: vec![rover()],
        ..Default::default()
    };
    let report = capability_traceability(&program);
    let mut object = serde_json::Map::new();
    let rows = |caps: Vec<String>| serde_json::Value::Array(caps.into_iter().map(serde_json::Value::String).collect());
    object.insert(
        "hardware_rows".to_string(),
        rows(report.hardware_rows.iter().map(|r| r.capability.clone()).collect()),
    );
    object.insert(
        "capability_rows".to_string(),
        rows(report.capability_rows.iter().map(|r| r.capability.clone()).collect()),
    );
    let json = serde_json::to_string(&serde_json::Value::Object(object)).expect("json");
    assert!(json.contains("hardware_rows") || json.contains("capability_rows"));
    assert!(report.capability_rows.iter().any(|r| r.capability == "gps_navigation"));
}

#[test]
fn hardware_traceability_from_program() {
    let program = Program {
        hardware_profiles: vec![HardwareDecl {
            name: "RoverV1".to_string(),
            sensors: strings(&["GPS", "Camera", "Lidar"]),
            actuators: strings(&["DifferentialDrive"]),
            connectivity: strings(&["WiFi", "LTE"]),
            ..Default::default()
        }],
        robots: vec![RobotDecl { uses_hardware: Some("RoverV1".to_string()), ..rover() }],
        ..Default::default()
    };
    let report = hardware_traceability(&program);
    assert!(!report.hardware_rows.is_empty());
    assert!(report.hardware_rows.iter().any(|r| r.capability == "read_location"));
}

#[test]
fn remote_kill_switch_without_signed_policy_warns() {
    let program = Program {
        kill_switches: vec![KillSwitchDecl {
            name: "EmergencyStop".to_string(),
            priority: "critical".to_string(),
            remote_signed: true,
            span: Span { line: 2, column: 1 },
        }],
        ..Default::default()
    };
    let diags = collect_verification_diagnostics(&program);
    assert!(diags.iter().any(|d| d.category == "kill-switch" && d.severity == "error"));
    assert!(
        diags.iter().any(|d| d
            .suggested_fix
            .as_deref()
            .is_some_and(|fix| fix.contains("identity RobotIdentity"))),
        "expected identity + signed comm quick-fix"
    );
}

#[test]
fn undeclared_hardware_produces_spanned_error() {
    let program = Program {
        robots: vec![RobotDecl {
            name: "Rover".to_string(),
            uses_hardware: Some("MissingBoard".to_string()),
            actuators: vec![actuator("wheels", "DifferentialDrive")],
            span: Span { line: 2, column: 1 },
            ..Default::default()
        }],
        ..Default::default()
    };
    let diags = collect_verification_diagnostics(&program);
    assert!(diags.iter().any(|d| d.category == "traceability" && d.line > 1));
}

#[test]
fn package_capabilities_follow_contributing_packages() {
    let program = Program {
        robots: vec![RobotDecl { exposes_capabilities: strings(&["gps_navigation"]), ..rover() }],
        ..Default::default()
    };
    let reports = infer_robot_capabilities(&program);
    let defs = spanda::robot::package_capabilities_for_robot(&reports[0]);
    let names: Vec<&str> = defs.iter().map(|d| d.name.as_str()).collect();
    assert!(names.contains(&"gps_navigation"));
    for name in &names {
        assert!(lookup_capability(name).is_some());
    }
}

#[test]
fn capability_report_extends_hardware_report() {
    let program = Program {
        requires_capabilities: vec![RequiresCapabilityDecl {
            capability: "teleportation".to_string(),
            required_by: None,
            severity: RequiresCapabilitySeverity::Warning,
            span: Span { line: 1, column: 1 },
        }],
        robots: vec![RobotDecl { uses_hardware: Some("MissingBoard".to_string()), ..rover() }],
        ..Default::default()
    };
    let hardware = hardware_traceability(&program);
    let capability = capability_traceability(&program);
    assert_eq!(hardware.hardware_rows, capability.hardware_rows);
    assert_eq!(hardware.warnings, capability.warnings);
    assert!(!hardware.errors.is_empty());
    assert!(capability.errors.len() > hardware.errors.len());
    assert_eq!(&capability.errors[..hardware.errors.len()], &hardware.errors[..]);
}

fn remote_switch(name: &str) -> KillSwitchDecl {
    KillSwitchDecl {
        name: name.to_string(),
        priority: "critical".to_string(),
        remote_signed: true,
        span: Span { line: 3, column: 1 },
    }
}

#[test]
fn kill_switch_errors_count_remote_switches_unless_comm_is_signed() {
    let unsigned = Program {
        kill_switches: vec![remote_switch("EmergencyStop"), KillSwitchDecl::default()],
        robots: vec![RobotDecl {
            name: "Arm".to_string(),
            kill_switches: vec![remote_switch("ArmStop")],
            ..Default::default()
        }],
        ..Default::default()
    };
    let count = |p: &Program| {
        collect_verification_diagnostics(p)
            .iter()
            .filter(|d| d.category == "kill-switch" && d.severity == "error")
            .count()
    };
    assert_eq!(count(&unsigned), 2);
    let mut signed = unsigned.clone();
    signed.robots[0].has_secure_comm = true;
    assert_eq!(count(&signed), 0);
}

#[test]
fn hardware_rows_count_robot_parts_and_kill_switches() {
    let program = Program {
        robots: vec![RobotDecl {
            name: "Rover".to_string(),
            sensors: vec![sensor("front", "Lidar"), sensor("nav", "GPS")],
            actuators: vec![actuator("wheels", "DifferentialDrive")],
            ..Default::default()
        }],
        kill_switches: vec![remote_switch("EmergencyStop")],
        ..Default::default()
    };
    let report = hardware_traceability(&program);
    assert_eq!(report.hardware_rows.len(), 4);
}

#[test]
fn minimum_report_warns_once_per_failing_warning_requirement() {
    let req = |cap: &str, severity: RequiresCapabilitySeverity| RequiresCapabilityDecl {
        capability: cap.to_string(),
        required_by: None,
        severity,
        span: Span { line: 1, column: 1 },
    };
    let program = Program {
        requires_capabilities: vec![
            req("teleportation", RequiresCapabilitySeverity::Warning),
            req("time_travel", RequiresCapabilitySeverity::Warning),
            req("levitation", RequiresCapabilitySeverity::Error),
        ],
        ..Default::default()
    };
    let report = check_minimum_capabilities(&program);
    assert_eq!(report.warnings.len(), 2);
    assert_eq!(report.errors.len(), 1);
    assert!(!report.compatible);
    assert_eq!(report.rows[0].missing, vec!["unknown capability".to_string()]);
}
