//! Well-known platform event names.
use vstd::prelude::*;

verus! {

// Entity
pub const ENTITY_CREATED: &'static str = "EntityCreated";
pub const ENTITY_UPDATED: &'static str = "EntityUpdated";
pub const ENTITY_DELETED: &'static str = "EntityDeleted";
pub const ENTITY_TAGGED: &'static str = "EntityTagged";
pub const ENTITY_RELATED: &'static str = "EntityRelated";
// Health
pub const HEALTH_CHANGED: &'static str = "HealthChanged";
pub const HEALTH_CHECK_FAILED: &'static str = "HealthCheckFailed";
pub const DEGRADED_MODE_ENTERED: &'static str = "DegradedModeEntered";
// Readiness
pub const READINESS_CHANGED: &'static str = "ReadinessChanged";
pub const READINESS_GATE_FAILED: &'static str = "ReadinessGateFailed";
// Mission
pub const MISSION_STARTED: &'static str = "MissionStarted";
pub const MISSION_COMPLETED: &'static str = "MissionCompleted";
pub const MISSION_ABORTED: &'static str = "MissionAborted";
pub const MISSION_PAUSED: &'static str = "MissionPaused";
// Recovery
pub const RECOVERY_TRIGGERED: &'static str = "RecoveryTriggered";
pub const RECOVERY_COMPLETED: &'static str = "RecoveryCompleted";
pub const RECOVERY_FAILED: &'static str = "RecoveryFailed";
// Trust
pub const TRUST_UPDATED: &'static str = "TrustUpdated";
pub const TRUST_GATE_FAILED: &'static str = "TrustGateFailed";
// Security
pub const TAMPER_DETECTED: &'static str = "TamperDetected";
pub const SPOOFING_DETECTED: &'static str = "SpoofingDetected";
pub const SECRET_ROTATED: &'static str = "SecretRotated";
pub const AUTH_FAILED: &'static str = "AuthFailed";
// Package
pub const PACKAGE_INSTALLED: &'static str = "PackageInstalled";
pub const PACKAGE_REMOVED: &'static str = "PackageRemoved";
pub const PACKAGE_VERIFIED: &'static str = "PackageVerified";
// Telemetry
pub const TRACE_FRAME_RECORDED: &'static str = "TraceFrameRecorded";
pub const METRIC_EMITTED: &'static str = "MetricEmitted";
pub const LOG_EMITTED: &'static str = "LogEmitted";
// Fleet / OTA
pub const FLEET_MEMBER_JOINED: &'static str = "FleetMemberJoined";
pub const FLEET_MEMBER_LEFT: &'static str = "FleetMemberLeft";
pub const OTA_ROLLOUT_STARTED: &'static str = "OtaRolloutStarted";
pub const OTA_ROLLOUT_COMPLETED: &'static str = "OtaRolloutCompleted";

} // verus!
