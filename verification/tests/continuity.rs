use spanda::ast::{
    ActuatorDecl, ContinuityPolicyDecl, FleetDecl, PolicyBranch, Program, RobotDecl, SensorDecl, Span, TopicDecl,
};
use spanda::continuity::collect_continuity_diagnostics;

fn robot(name: &str) -> RobotDecl {
    RobotDecl {
        name: name.to_string(),
        sensors: vec![SensorDecl { name: "gps".to_string(), sensor_type: "GPS".to_string() }],
        actuators: vec![ActuatorDecl { name: "w".to_string(), actuator_type: "DifferentialDrive".to_string() }],
        max_speed_label: Some("1.00".to_string()),
        span: Span { line: 3, column: 1 },
        ..Default::default()
    }
}

fn policy(name: &str, action: &str) -> ContinuityPolicyDecl {
    ContinuityPolicyDecl {
        name: name.to_string(),
        branches: vec![PolicyBranch {
            condition: "robot.failed".to_string(),
            actions: vec![action.to_string()],
            span: Span { line: 3, column: 5 },
        }],
        span: Span { line: 2, column: 1 },
    }
}

#[test]
fn warns_when_fleet_lacks_continuity_policy() {
    let program = Program {
        fleets: vec![FleetDecl {
            name: "Patrol".to_string(),
            members: vec!["RoverA".to_string(), "RoverB".to_string()],
            span: Span { line: 2, column: 1 },
        }],
        robots: vec![robot("RoverA"), robot("RoverB")],
        ..Default::default()
    };
    let diags = collect_continuity_diagnostics(&program);
    assert!(diags.iter().any(|d| d.category == "continuity:policy"));
}

#[test]
fn warns_when_hot_takeover_lacks_approval_topic() {
    let program = Program {
        continuity_policies: vec![policy("Risky", "hot takeover")],
        robots: vec![robot("R")],
        ..Default::default()
    };
    let diags = collect_continuity_diagnostics(&program);
    assert!(diags.iter().any(|d| d.category == "continuity:approval"));
}

#[test]
fn warns_when_resume_lacks_mission_plan() {
    let program = Program {
        continuity_policies: vec![policy("ResumeOnly", "resume from checkpoint")],
        robots: vec![robot("R")],
        ..Default::default()
    };
    let diags = collect_continuity_diagnostics(&program);
    assert!(diags.iter().any(|d| d.category == "continuity:mission"));
}

#[test]
fn hot_takeover_with_approval_topic_is_not_flagged() {
    let mut approver = robot("R");
    approver.topics = vec![TopicDecl {
        name: "approvals".to_string(),
        message_type: "Approval".to_string(),
        secure: None,
    }];
    let program = Program {
        continuity_policies: vec![policy("Risky", "Hot Takeover")],
        robots: vec![approver],
        ..Default::default()
    };
    let diags = collect_continuity_diagnostics(&program);
    assert!(!diags.iter().any(|d| d.category == "continuity:approval"));
}

#[test]
fn program_without_fleets_or_policies_has_no_continuity_diagnostics() {
    let program = Program { robots: vec![robot("R")], ..Default::default() };
    assert!(collect_continuity_diagnostics(&program).is_empty());
}
