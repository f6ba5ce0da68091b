//! The parsed program, as far as the analysis passes read it.
//!
//! Each declaration keeps the fields the passes inspect; the parser that
//! produces a full program hands over these values.
use vstd::prelude::*;

verus! {

/// Source position of a declaration (1-based line and column).
#[derive(Debug, Clone, Copy, PartialEq, Eq, Default)]
pub struct Span {
    pub line: u32,
    pub column: u32,
}

/// Severity a `requires_capability` declaration asks for.
#[derive(Debug, Clone, Copy, PartialEq, Eq, Structural)]
pub enum RequiresCapabilitySeverity {
    Error,
    Warning,
    Info,
}

/// `sensor <name>: <Type>;` inside a robot.
#[derive(Debug, Clone, PartialEq, Eq, Default)]
pub struct SensorDecl {
    pub name: String,
    pub sensor_type: String,
}

/// `actuator <name>: <Type>;` inside a robot.
#[derive(Debug, Clone, PartialEq, Eq, Default)]
pub struct ActuatorDecl {
    pub name: String,
    pub actuator_type: String,
}

/// A detailed component inside a hardware profile.
#[derive(Debug, Clone, PartialEq, Eq, Default)]
pub struct HardwareComponentDecl {
    pub name: String,
    pub component_kind: String,
    pub component_type: String,
    pub capabilities: Vec<String>,
}

/// `hardware <Name> { sensors [..]; actuators [..]; connectivity [..]; }`
#[derive(Debug, Clone, PartialEq, Eq, Default)]
pub struct HardwareDecl {
    pub name: String,
    pub sensors: Vec<String>,
    pub actuators: Vec<String>,
    pub connectivity: Vec<String>,
    pub components: Vec<HardwareComponentDecl>,
}

/// `kill_switch <Name> { priority: ..; remote_signed; .. }`
#[derive(Debug, Clone, PartialEq, Eq, Default)]
pub struct KillSwitchDecl {
    pub name: String,
    pub priority: String,
    pub remote_signed: bool,
    pub span: Span,
}

/// Security settings of a topic.
#[derive(Debug, Clone, Copy, PartialEq, Eq, Default)]
pub struct TopicSecurity {
    pub signed: bool,
    pub signed_required: bool,
}

/// `topic <name>: <MessageType> ..;` inside a robot.
#[derive(Debug, Clone, PartialEq, Eq, Default)]
pub struct TopicDecl {
    pub name: String,
    pub message_type: String,
    pub secure: Option<TopicSecurity>,
}

/// `mission <Name> { .. }` inside a robot.
///
/// `duration_label` is the declared duration already rendered as text
/// (hours with two decimals), when one is declared.
#[derive(Debug, Clone, PartialEq, Eq, Default)]
pub struct MissionDecl {
    pub name: Option<String>,
    pub duration_label: Option<String>,
    pub required_capabilities: Vec<String>,
}

/// `robot <Name> { .. }`
///
/// `max_speed_label` is the largest `max_speed` rule of the robot's safety
/// block converted to m/s and rendered with two decimals, when there is one.
#[derive(Debug, Clone, PartialEq, Eq, Default)]
pub struct RobotDecl {
    pub name: String,
    pub sensors: Vec<SensorDecl>,
    pub actuators: Vec<ActuatorDecl>,
    pub uses_hardware: Option<String>,
    pub exposes_capabilities: Vec<String>,
    pub mission: Option<MissionDecl>,
    pub has_permissions: bool,
    pub kill_switches: Vec<KillSwitchDecl>,
    pub topics: Vec<TopicDecl>,
    pub has_secure_comm: bool,
    pub has_trust: bool,
    pub requires_connectivity: bool,
    pub max_speed_label: Option<String>,
    pub span: Span,
}

/// `requires_capability <name> { .. }`
#[derive(Debug, Clone, PartialEq, Eq)]
pub struct RequiresCapabilityDecl {
    pub capability: String,
    pub required_by: Option<String>,
    pub severity: RequiresCapabilitySeverity,
    pub span: Span,
}

/// `health_check <Name> for robot <R> { .. }`
#[derive(Debug, Clone, PartialEq, Eq, Default)]
pub struct HealthCheckDecl {
    pub name: String,
    pub span: Span,
}

/// `health_policy <Name> { .. }`
#[derive(Debug, Clone, PartialEq, Eq, Default)]
pub struct HealthPolicyDecl {
    pub name: String,
}

/// One `on <condition> { actions }` branch of a continuity or recovery policy.
#[derive(Debug, Clone, PartialEq, Eq, Default)]
pub struct PolicyBranch {
    pub condition: String,
    pub actions: Vec<String>,
    pub span: Span,
}

/// `continuity_policy <Name> { on .. }`
#[derive(Debug, Clone, PartialEq, Eq, Default)]
pub struct ContinuityPolicyDecl {
    pub name: String,
    pub branches: Vec<PolicyBranch>,
    pub span: Span,
}

/// `recovery_policy <Name> { on .. }`
#[derive(Debug, Clone, PartialEq, Eq, Default)]
pub struct RecoveryPolicyDecl {
    pub name: String,
    pub branches: Vec<PolicyBranch>,
    pub span: Span,
}

/// `fleet <Name> { members; }`
#[derive(Debug, Clone, PartialEq, Eq, Default)]
pub struct FleetDecl {
    pub name: String,
    pub members: Vec<String>,
    pub span: Span,
}

/// `deploy <Robot> to [targets]`
#[derive(Debug, Clone, PartialEq, Eq, Default)]
pub struct DeployDecl {
    pub robot_name: String,
    pub targets: Vec<String>,
}

/// `policy <Name> { rules }` (organization-wide operational policy).
#[derive(Debug, Clone, PartialEq, Eq, Default)]
pub struct OperationalPolicyDecl {
    pub name: String,
    pub rule_count: usize,
}

/// A parsed Spanda program.
#[derive(Debug, Clone, PartialEq, Eq, Default)]
pub struct Program {
    pub hardware_profiles: Vec<HardwareDecl>,
    pub robots: Vec<RobotDecl>,
    pub kill_switches: Vec<KillSwitchDecl>,
    pub requires_capabilities: Vec<RequiresCapabilityDecl>,
    pub health_checks: Vec<HealthCheckDecl>,
    pub health_policies: Vec<HealthPolicyDecl>,
    pub continuity_policies: Vec<ContinuityPolicyDecl>,
    pub recovery_policies: Vec<RecoveryPolicyDecl>,
    pub mission_plan_count: usize,
    pub fleets: Vec<FleetDecl>,
    pub deployments: Vec<DeployDecl>,
    pub operational_policies: Vec<OperationalPolicyDecl>,
    pub assurance_case_count: usize,
    pub connectivity_policy_count: usize,
    pub requires_connectivity: bool,
}

} // verus!
