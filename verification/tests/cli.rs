use spanda::cli_args::{
    diff_file_args, explain_command, failure_arg, recovery_command, ExplainCommand, RecoveryCommand, file_arg, file_arg_skipping, flag_value, json_flag, parse_injections, parse_readiness_args, parse_report_format,
    split_list, ReportFormat,
};
use spanda::deploy_cli::{
    deploy_command, deploy_usage_lines, has_json_flag, parse_file_args, parse_plan_args, parse_rollout_args,
    DeployCommand, RolloutStrategy,
};
use spanda::trust_cli::{cmd_trust, parse_program_trust_args, parse_trust_format, TrustFormat, TrustTarget};

fn args(items: &[&str]) -> Vec<String> {
    items.iter().map(|s| s.to_string()).collect()
}

#[test]
fn usage_lists_every_subcommand() {
    let usage = deploy_usage_lines();
    for sub in ["deploy plan", "deploy rollout", "deploy rollback", "deploy status", "--target wasm"] {
        assert!(usage.contains(sub), "{sub}");
    }
    assert_eq!(usage.lines().count(), 5);
    assert!(usage.lines().all(|l| l.trim_start().starts_with("spanda deploy")));
    assert_eq!(
        usage.lines().nth(1),
        Some("spanda deploy rollout [--json] [--strategy all|canary|staged] [--canary-percent N] [--version <ver>] [--dry-run] <file.sd>")
    );
    assert!(usage.starts_with("           spanda deploy plan"));
    assert!(usage.ends_with("\nspanda deploy --target wasm [--out <file.json>] <file.sd>"));
}

#[test]
fn deploy_subcommands() {
    assert_eq!(deploy_command(&args(&["plan", "x.sd"])), DeployCommand::Plan);
    assert_eq!(deploy_command(&args(&["rollout"])), DeployCommand::Rollout);
    assert_eq!(deploy_command(&args(&["rollback"])), DeployCommand::Rollback);
    assert_eq!(deploy_command(&args(&["status"])), DeployCommand::Status);
    assert_eq!(deploy_command(&args(&["launch"])), DeployCommand::Unknown("launch".to_string()));
    assert_eq!(deploy_command(&args(&["--help"])), DeployCommand::Usage);
    assert_eq!(deploy_command(&args(&[])), DeployCommand::Usage);
}

#[test]
fn plan_arguments() {
    let parsed = parse_plan_args(&args(&["--json", "rover.sd", "--version", "2.1.0"])).expect("ok");
    assert!(parsed.json);
    assert_eq!(parsed.version, "2.1.0");
    assert_eq!(parsed.file, "rover.sd");
    let parsed = parse_plan_args(&args(&["rover.sd"])).expect("ok");
    assert_eq!(parsed.version, "1.0.0");
    assert_eq!(parse_plan_args(&args(&["--json"])), Err("Missing file path".to_string()));
    assert_eq!(parse_plan_args(&args(&["a.sd", "b.sd"])), Err("Unknown argument: b.sd".to_string()));
    assert_eq!(parse_plan_args(&args(&["a.sd", "--version"])), Err("Unknown argument: --version".to_string()));
}

#[test]
fn rollout_arguments() {
    let parsed = parse_rollout_args(&args(&[
        "--strategy", "canary", "--canary-percent", "25", "--dry-run", "fleet.sd",
    ]))
    .expect("ok");
    assert_eq!(parsed.strategy, RolloutStrategy::Canary);
    assert_eq!(parsed.canary_percent, 25);
    assert!(parsed.dry_run && !parsed.json);
    assert_eq!(parsed.file, "fleet.sd");
    let defaults = parse_rollout_args(&args(&["fleet.sd"])).expect("ok");
    assert_eq!(defaults.strategy, RolloutStrategy::All);
    assert_eq!(defaults.canary_percent, 10);
    assert_eq!(defaults.version, "1.0.0");
    let fallback = parse_rollout_args(&args(&["fleet.sd", "--canary-percent", "300"])).expect("ok");
    assert_eq!(fallback.canary_percent, 10);
    let plus = parse_rollout_args(&args(&["fleet.sd", "--canary-percent", "+7"])).expect("ok");
    assert_eq!(plus.canary_percent, 7);
    assert_eq!(
        parse_rollout_args(&args(&["fleet.sd", "--strategy", "bluegreen"])),
        Err("Unknown strategy 'bluegreen'".to_string())
    );
    assert_eq!(parse_rollout_args(&args(&["--dry-run"])), Err("Missing file path".to_string()));
}

#[test]
fn rollback_arguments() {
    let parsed = parse_file_args(&args(&["--json", "fleet.sd"])).expect("ok");
    assert!(parsed.json);
    assert_eq!(parsed.file, "fleet.sd");
    assert_eq!(parse_file_args(&args(&["fleet.sd", "--force"])), Err("Unknown argument: --force".to_string()));
    assert!(has_json_flag(&args(&["--json"])));
    assert!(!has_json_flag(&args(&["json"])));
}

#[test]
fn trust_target_by_shape() {
    assert_eq!(cmd_trust(&args(&["rover.sd"])), TrustTarget::Program);
    assert_eq!(cmd_trust(&args(&["--json", "nav-stack"])), TrustTarget::Package);
    assert_eq!(cmd_trust(&args(&["json", "markdown", "rover.sd"])), TrustTarget::Program);
    assert_eq!(cmd_trust(&args(&[])), TrustTarget::Package);
}

#[test]
fn trust_format_selection() {
    assert_eq!(parse_trust_format(&args(&["--format", "md"])), TrustFormat::Markdown);
    assert_eq!(parse_trust_format(&args(&["--format", "json"])), TrustFormat::Json);
    assert_eq!(parse_trust_format(&args(&["--format", "xml"])), TrustFormat::Text);
    assert_eq!(parse_trust_format(&args(&["--format", "md", "--json"])), TrustFormat::Json);
    assert_eq!(parse_trust_format(&args(&["--format"])), TrustFormat::Text);
}

#[test]
fn program_trust_arguments() {
    let parsed = parse_program_trust_args(&args(&["rover.sd", "--project", "ws", "--format", "markdown"])).expect("ok");
    assert_eq!(parsed.program_path, "rover.sd");
    assert_eq!(parsed.project.as_deref(), Some("ws"));
    assert_eq!(parsed.format, TrustFormat::Markdown);
    assert_eq!(
        parse_program_trust_args(&args(&["rover.sd", "--project"])),
        Err("--project requires a directory path".to_string())
    );
    assert_eq!(
        parse_program_trust_args(&args(&["--json"])),
        Err("Usage: spanda trust <file.sd> [--project <dir>] [--json] [--format text|json|markdown]".to_string())
    );
    assert_eq!(parse_program_trust_args(&args(&["a.sd", "--x"])), Err("Unknown argument: --x".to_string()));
}

#[test]
fn injection_lists() {
    assert_eq!(split_list(" gps-failure, ,lidar ,"), vec!["gps-failure", "lidar"]);
    assert_eq!(parse_injections(&args(&["rover.sd", "--inject", "gps,camera"])), vec!["gps", "camera"]);
    assert!(parse_injections(&args(&["rover.sd", "--inject"])).is_empty());
}

#[test]
fn file_and_flag_arguments() {
    let a = args(&["--inject", "gps", "--json", "rover.sd"]);
    assert_eq!(file_arg_skipping(&a, &args(&["--inject"])), Some("rover.sd".to_string()));
    assert_eq!(file_arg(&a), Some("gps".to_string()));
    assert_eq!(flag_value(&a, "--inject"), Some("gps".to_string()));
    assert_eq!(flag_value(&a, "--baseline"), None);
    assert!(json_flag(&a));
    let b = args(&["--baseline", "old.sd", "new.sd"]);
    assert_eq!(file_arg_skipping(&b, &args(&["--baseline", "--agent"])), Some("new.sd".to_string()));
    assert_eq!(file_arg_skipping(&args(&["--json"]), &args(&["--inject"])), None);
}

#[test]
fn readiness_arguments() {
    let parsed = parse_readiness_args(&args(&["rover.sd", "--target", "Jetson", "--inject-health-faults", "--markdown"]))
        .expect("ok");
    assert_eq!(parsed.format, ReportFormat::Markdown);
    assert_eq!(parsed.target.as_deref(), Some("Jetson"));
    assert!(parsed.include_runtime && parsed.inject_health_faults);
    assert!(!parsed.simulate && !parsed.strict && !parsed.agent_json);
    assert_eq!(parse_report_format(&args(&["--html", "--json"])), ReportFormat::Json);
    assert_eq!(
        parse_readiness_args(&args(&["rover.sd", "--target"])),
        Err("--target requires a hardware profile name".to_string())
    );
    assert_eq!(parse_readiness_args(&args(&["--strict"])), Err("Missing file path".to_string()));
}

#[test]
fn failure_and_diff_and_recovery_arguments() {
    assert_eq!(failure_arg(&args(&["r.sd", "--failure", "gps"])), Some("gps".to_string()));
    assert_eq!(failure_arg(&args(&["--inject-failure", "lidar", "--failure", "gps"])), Some("lidar".to_string()));
    assert_eq!(failure_arg(&args(&["r.sd", "--failure"])), None);
    assert_eq!(
        diff_file_args(&args(&["--json", "old.sd", "new.sd", "extra.sd"])),
        Some(("old.sd".to_string(), "new.sd".to_string()))
    );
    assert_eq!(diff_file_args(&args(&["old.sd", "--json"])), None);
    assert_eq!(recovery_command(&args(&["plan", "r.sd"])), RecoveryCommand::Report);
    assert_eq!(recovery_command(&args(&["report"])), RecoveryCommand::Report);
    assert_eq!(recovery_command(&args(&["knowledge"])), RecoveryCommand::Knowledge);
    assert_eq!(recovery_command(&args(&["heal"])), RecoveryCommand::Usage);
    assert_eq!(recovery_command(&args(&[])), RecoveryCommand::Usage);
}

#[test]
fn explain_subcommands() {
    assert_eq!(explain_command(&args(&["readiness", "--file", "r.sd"])), ExplainCommand::Readiness);
    assert_eq!(explain_command(&args(&["decision", "m.trace"])), ExplainCommand::Decision);
    assert_eq!(explain_command(&args(&["m.trace"])), ExplainCommand::Trace);
    assert_eq!(explain_command(&args(&["m.json"])), ExplainCommand::Trace);
    assert_eq!(explain_command(&args(&["rover.sd", "--json"])), ExplainCommand::Program);
    assert_eq!(explain_command(&args(&["rover.txt"])), ExplainCommand::Usage);
    assert_eq!(explain_command(&args(&[])), ExplainCommand::Usage);
}
