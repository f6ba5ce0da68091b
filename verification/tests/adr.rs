use spanda::adr::{format_adr_markdown, generate_adrs, AdrFormat};
use spanda::ast::{
    DeployDecl, HealthPolicyDecl, KillSwitchDecl, MissionDecl, OperationalPolicyDecl, Program, RecoveryPolicyDecl,
    RobotDecl,
};

fn warehouse() -> Program {
    Program {
        robots: vec![RobotDecl {
            name: "Picker".to_string(),
            exposes_capabilities: vec!["gps_navigation".to_string(), "obstacle_avoidance".to_string()],
            max_speed_label: Some("1.50".to_string()),
            mission: Some(MissionDecl {
                name: Some("Restock".to_string()),
                duration_label: Some("2.00".to_string()),
                required_capabilities: vec!["obstacle_avoidance".to_string()],
            }),
            ..Default::default()
        }],
        deployments: vec![DeployDecl {
            robot_name: "Picker".to_string(),
            targets: vec!["JetsonOrin".to_string(), "RaspberryPi".to_string()],
        }],
        kill_switches: vec![KillSwitchDecl { name: "EmergencyStop".to_string(), ..Default::default() }],
        health_policies: vec![HealthPolicyDecl { name: "SafetyPolicy".to_string() }],
        recovery_policies: vec![RecoveryPolicyDecl { name: "LidarRecovery".to_string(), ..Default::default() }],
        operational_policies: vec![OperationalPolicyDecl { name: "WarehousePolicy".to_string(), rule_count: 3 }],
        assurance_case_count: 2,
        ..Default::default()
    }
}

#[test]
fn policy_program_generates_deploy_and_policy_adrs() {
    let report = generate_adrs(&warehouse(), "warehouse.sd");
    assert!(report.records.len() >= 3);
    assert!(report.records.iter().any(|record| record.title.contains("Deploy")));
    assert!(report.records.iter().any(|record| record.title.contains("WarehousePolicy")));
}

#[test]
fn markdown_format_includes_sections() {
    let report = generate_adrs(&warehouse(), "warehouse.sd");
    assert_eq!(AdrFormat::default(), AdrFormat::Markdown);
    let markdown = format_adr_markdown(&report);
    assert!(markdown.contains("### Context"));
    assert!(markdown.contains("ADR-001"));
}

#[test]
fn records_are_numbered_in_declaration_order() {
    let report = generate_adrs(&warehouse(), "warehouse.sd");
    let titles: Vec<&str> = report.records.iter().map(|r| r.title.as_str()).collect();
    assert_eq!(
        titles,
        vec![
            "Deploy Picker to JetsonOrin",
            "Deploy Picker to RaspberryPi",
            "Capability surface for Picker",
            "Safety speed cap for Picker",
            "Mission Restock on Picker",
            "Kill switch EmergencyStop",
            "Health policy SafetyPolicy",
            "Recovery policy LidarRecovery",
            "Operational policy WarehousePolicy",
            "Assurance evidence cases",
        ]
    );
    for (i, record) in report.records.iter().enumerate() {
        assert_eq!(record.id, format!("ADR-{:03}", i + 1));
        assert_eq!(record.status, "Accepted");
    }
    assert_eq!(report.program, "warehouse.sd");
}

#[test]
fn record_texts_follow_the_declarations() {
    let report = generate_adrs(&warehouse(), "warehouse.sd");
    let r = &report.records;
    assert_eq!(r[0].context, "Robot 'Picker' must run on compatible hardware.");
    assert_eq!(r[0].decision, "Deploy robot 'Picker' to hardware profile 'JetsonOrin'.");
    assert_eq!(r[2].decision, "Expose capabilities: gps_navigation, obstacle_avoidance.");
    assert_eq!(r[3].decision, "Cap linear speed at 1.50 m/s in robot safety block.");
    assert_eq!(r[4].decision, "Mission defined with duration 2.00 h; requires obstacle_avoidance.");
    assert_eq!(r[8].decision, "Program policy 'WarehousePolicy' declares 3 verify-time rule(s).");
    assert_eq!(r[8].consequences, "Use `spanda verify --policy WarehousePolicy` to enforce the declared rule set.");
    assert_eq!(r[9].decision, "Maintain 2 assurance_case declaration(s) with linked evidence.");
}

#[test]
fn unnamed_mission_without_duration_or_requirements() {
    let program = Program {
        robots: vec![RobotDecl {
            name: "Scout".to_string(),
            mission: Some(MissionDecl::default()),
            ..Default::default()
        }],
        ..Default::default()
    };
    let report = generate_adrs(&program, "scout.sd");
    assert_eq!(report.records.len(), 1);
    assert_eq!(report.records[0].title, "Mission plan for Scout");
    assert_eq!(
        report.records[0].decision,
        "Mission defined with unspecified duration; no explicit capability requirements."
    );
}

#[test]
fn empty_program_gets_baseline_record() {
    let report = generate_adrs(&Program::default(), "empty.sd");
    assert_eq!(report.records.len(), 1);
    assert_eq!(report.records[0].id, "ADR-001");
    assert_eq!(report.records[0].title, "Baseline architecture");
    assert_eq!(
        report.records[0].context,
        "Program 'empty.sd' contains no deploy or policy declarations yet."
    );
}

#[test]
fn ids_grow_past_three_digits() {
    let program = Program {
        deployments: vec![DeployDecl {
            robot_name: "R".to_string(),
            targets: (0..1000).map(|i| format!("T{i}")).collect(),
        }],
        ..Default::default()
    };
    let report = generate_adrs(&program, "big.sd");
    assert_eq!(report.records[9].id, "ADR-010");
    assert_eq!(report.records[99].id, "ADR-100");
    assert_eq!(report.records[999].id, "ADR-1000");
}

#[test]
fn markdown_layout_of_one_record() {
    let report = generate_adrs(&Program::default(), "empty.sd");
    let markdown = format_adr_markdown(&report);
    let expected = "# Architecture Decision Records — empty.sd\n\n## ADR-001 — Baseline architecture\n**Status:** Accepted\n\n### Context\nProgram 'empty.sd' contains no deploy or policy declarations yet.\n\n### Decision\nContinue elaborating robots, safety rules, and deployment targets.\n\n### Consequences\nRe-run `spanda adr` after adding mission-critical declarations.";
    assert_eq!(markdown, expected);
}
