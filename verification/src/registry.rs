//! Known robot capabilities and their minimum hardware/package requirements.
use vstd::prelude::*;
use crate::text::{owned, str_eq, views};

verus! {

/// Severity when a required capability is missing.
#[derive(Debug, Clone, Copy, PartialEq, Eq, Structural)]
pub enum VerificationSeverity {
    Error,
    Warning,
    Info,
}

/// Minimum requirement for a single capability.
#[derive(Debug, Clone, PartialEq, Eq)]
pub struct CapabilityRequirement {
    pub any_of_sensors: Vec<String>,
    pub any_of_actuators: Vec<String>,
    pub any_of_connectivity: Vec<String>,
    pub required_packages: Vec<String>,
    pub required_providers: Vec<String>,
    pub required_safety_rules: Vec<String>,
    pub required_security: Vec<String>,
    pub severity: VerificationSeverity,
}

/// Full definition of a known capability.
#[derive(Debug, Clone, PartialEq, Eq)]
pub struct CapabilityDefinition {
    pub name: String,
    pub description: String,
    pub minimum: CapabilityRequirement,
    pub optional_sensors: Vec<String>,
    pub optional_packages: Vec<String>,
}

/// Package contribution to the capability registry.
#[derive(Debug, Clone, PartialEq, Eq)]
pub struct PackageCapabilityContribution {
    pub package: String,
    pub capabilities: Vec<String>,
}

/// Mathematical value of a [`CapabilityRequirement`].
#[verifier::ext_equal]
pub struct RequirementView {
    pub any_of_sensors: Seq<Seq<char>>,
    pub any_of_actuators: Seq<Seq<char>>,
    pub any_of_connectivity: Seq<Seq<char>>,
    pub required_packages: Seq<Seq<char>>,
    pub required_providers: Seq<Seq<char>>,
    pub required_safety_rules: Seq<Seq<char>>,
    pub required_security: Seq<Seq<char>>,
    pub severity: VerificationSeverity,
}

/// Mathematical value of a [`CapabilityDefinition`].
#[verifier::ext_equal]
pub struct DefinitionView {
    pub name: Seq<char>,
    pub description: Seq<char>,
    pub minimum: RequirementView,
    pub optional_sensors: Seq<Seq<char>>,
    pub optional_packages: Seq<Seq<char>>,
}

/// Mathematical value of a [`PackageCapabilityContribution`].
#[verifier::ext_equal]
pub struct ContributionView {
    pub package: Seq<char>,
    pub capabilities: Seq<Seq<char>>,
}

impl View for CapabilityRequirement {
    type V = RequirementView;

    open spec fn view(&self) -> RequirementView {
        RequirementView {
            any_of_sensors: views(self.any_of_sensors@),
            any_of_actuators: views(self.any_of_actuators@),
            any_of_connectivity: views(self.any_of_connectivity@),
            required_packages: views(self.required_packages@),
            required_providers: views(self.required_providers@),
            required_safety_rules: views(self.required_safety_rules@),
            required_security: views(self.required_security@),
            severity: self.severity,
        }
    }
}

impl View for CapabilityDefinition {
    type V = DefinitionView;

    open spec fn view(&self) -> DefinitionView {
        DefinitionView {
            name: self.name@,
            description: self.description@,
            minimum: self.minimum@,
            optional_sensors: views(self.optional_sensors@),
            optional_packages: views(self.optional_packages@),
        }
    }
}

impl View for PackageCapabilityContribution {
    type V = ContributionView;

    open spec fn view(&self) -> ContributionView {
        ContributionView { package: self.package@, capabilities: views(self.capabilities@) }
    }
}

pub open spec fn def_views(v: Seq<CapabilityDefinition>) -> Seq<DefinitionView> {
    v.map_values(|d: CapabilityDefinition| d@)
}

pub open spec fn contribution_views(v: Seq<PackageCapabilityContribution>) -> Seq<ContributionView> {
    v.map_values(|c: PackageCapabilityContribution| c@)
}

pub open spec fn lits(v: Seq<&str>) -> Seq<Seq<char>> {
    v.map_values(|s: &str| s@)
}

pub open spec fn req_spec(
    sensors: Seq<Seq<char>>,
    actuators: Seq<Seq<char>>,
    connectivity: Seq<Seq<char>>,
    packages: Seq<Seq<char>>,
    providers: Seq<Seq<char>>,
    safety: Seq<Seq<char>>,
    security: Seq<Seq<char>>,
    severity: VerificationSeverity,
) -> RequirementView {
    RequirementView {
        any_of_sensors: sensors,
        any_of_actuators: actuators,
        any_of_connectivity: connectivity,
        required_packages: packages,
        required_providers: providers,
        required_safety_rules: safety,
        required_security: security,
        severity,
    }
}

pub open spec fn def_spec(
    name: Seq<char>,
    description: Seq<char>,
    minimum: RequirementView,
    optional_sensors: Seq<Seq<char>>,
    optional_packages: Seq<Seq<char>>,
) -> DefinitionView {
    DefinitionView { name, description, minimum, optional_sensors, optional_packages }
}

/// The built-in capability table.
pub open spec fn registry_spec() -> Seq<DefinitionView> {
    seq![
        def_spec(
            "autonomous_navigation"@,
            "Plan and execute paths without human intervention"@,
            req_spec(
                seq!["Lidar"@, "Camera"@, "DepthCamera"@],
                seq!["DifferentialDrive"@, "AckermannDrive"@],
                seq![],
                seq!["spanda-nav"@],
                seq!["NavigationProvider"@],
                seq!["max_speed"@, "stop_if"@],
                seq![],
                VerificationSeverity::Error,
            ),
            seq!["Radar"@],
            seq!["spanda-slam"@],
        ),
        def_spec(
            "gps_navigation"@,
            "Navigate using GPS/GNSS positioning"@,
            req_spec(
                seq!["GPS"@, "GNSS"@],
                seq!["DifferentialDrive"@],
                seq!["WiFi"@, "LTE"@, "FiveG"@],
                seq!["spanda-gps"@],
                seq!["PositioningProvider"@],
                seq![],
                seq![],
                VerificationSeverity::Error,
            ),
            seq![],
            seq![],
        ),
        def_spec(
            "obstacle_avoidance"@,
            "Detect and avoid obstacles during motion"@,
            req_spec(
                seq!["Lidar"@, "DepthCamera"@, "Radar"@],
                seq!["DifferentialDrive"@],
                seq![],
                seq!["spanda-nav"@],
                seq!["NavigationProvider"@],
                seq!["stop_if"@],
                seq![],
                VerificationSeverity::Error,
            ),
            seq!["Camera"@],
            seq!["spanda-vision"@],
        ),
        def_spec(
            "remote_control"@,
            "Accept signed remote commands over network"@,
            req_spec(
                seq![],
                seq!["DifferentialDrive"@],
                seq!["WiFi"@, "LTE"@, "FiveG"@, "Bluetooth"@],
                seq![],
                seq![],
                seq![],
                seq!["signed_commands"@],
                VerificationSeverity::Error,
            ),
            seq![],
            seq!["spanda-mqtt"@],
        ),
        def_spec(
            "telemetry_streaming"@,
            "Stream robot state and sensor data remotely"@,
            req_spec(
                seq![],
                seq![],
                seq!["WiFi"@, "LTE"@, "FiveG"@, "MQTT"@],
                seq!["spanda-mqtt"@],
                seq!["TransportProvider"@],
                seq![],
                seq![],
                VerificationSeverity::Warning,
            ),
            seq!["GPS"@, "Camera"@],
            seq!["spanda-cloud"@],
        ),
        def_spec(
            "emergency_stop"@,
            "Immediate actuator halt via hardware or kill switch"@,
            req_spec(
                seq![],
                seq!["DifferentialDrive"@],
                seq![],
                seq![],
                seq![],
                seq!["emergency_stop"@, "kill_switch"@],
                seq![],
                VerificationSeverity::Error,
            ),
            seq![],
            seq![],
        ),
        def_spec(
            "local_ai_inference"@,
            "Run AI models on onboard compute"@,
            req_spec(
                seq!["Camera"@],
                seq![],
                seq![],
                seq![],
                seq![],
                seq!["ai.validate"@],
                seq![],
                VerificationSeverity::Warning,
            ),
            seq!["Lidar"@],
            seq![],
        ),
        def_spec(
            "vision_processing"@,
            "Capture and process camera frames"@,
            req_spec(
                seq!["Camera"@],
                seq![],
                seq![],
                seq!["spanda-opencv"@, "spanda-yolo"@],
                seq!["VisionProvider"@],
                seq![],
                seq![],
                VerificationSeverity::Warning,
            ),
            seq![],
            seq![],
        ),
        def_spec(
            "manipulation"@,
            "Plan and execute arm/gripper motions"@,
            req_spec(
                seq!["Camera"@],
                seq!["Arm"@, "Gripper"@],
                seq![],
                seq!["spanda-moveit"@],
                seq![],
                seq!["max_force"@],
                seq![],
                VerificationSeverity::Error,
            ),
            seq!["ForceTorque"@],
            seq![],
        ),
        def_spec(
            "fleet_coordination"@,
            "Coordinate multiple robots in a fleet"@,
            req_spec(
                seq![],
                seq![],
                seq!["WiFi"@, "LTE"@],
                seq!["spanda-fleet"@],
                seq!["FleetProvider"@],
                seq![],
                seq![],
                VerificationSeverity::Warning,
            ),
            seq![],
            seq![],
        ),
        def_spec(
            "ota_update"@,
            "Over-the-air firmware and package updates"@,
            req_spec(
                seq![],
                seq![],
                seq!["WiFi"@, "LTE"@],
                seq!["spanda-ota"@],
                seq![],
                seq![],
                seq!["signed_commands"@],
                VerificationSeverity::Warning,
            ),
            seq![],
            seq![],
        ),
        def_spec(
            "secure_communication"@,
            "Encrypted and authenticated messaging"@,
            req_spec(
                seq![],
                seq![],
                seq!["WiFi"@, "LTE"@],
                seq![],
                seq!["CryptoProvider"@],
                seq![],
                seq!["signed_commands"@, "encrypted_transport"@],
                VerificationSeverity::Error,
            ),
            seq![],
            seq![],
        ),
    ]
}

/// Built-in capability registry entries.
pub fn capability_registry() -> (r: Vec<CapabilityDefinition>)
    ensures
        def_views(r@) == registry_spec(),
{
    let mut r: Vec<CapabilityDefinition> = Vec::new();
    r.push(def(
            "autonomous_navigation",
            "Plan and execute paths without human intervention",
            req(
                &["Lidar", "Camera", "DepthCamera"],
                &["DifferentialDrive", "AckermannDrive"],
                &[],
                &["spanda-nav"],
                &["NavigationProvider"],
                &["max_speed", "stop_if"],
                &[],
                VerificationSeverity::Error,
            ),
            &["Radar"],
            &["spanda-slam"],));
    assert(def_views(r@)[0] =~= registry_spec()[0]);
    r.push(def(
            "gps_navigation",
            "Navigate using GPS/GNSS positioning",
            req(
                &["GPS", "GNSS"],
                &["DifferentialDrive"],
                &["WiFi", "LTE", "FiveG"],
                &["spanda-gps"],
                &["PositioningProvider"],
                &[],
                &[],
                VerificationSeverity::Error,
            ),
            &[],
            &[],));
    assert(def_views(r@)[1] =~= registry_spec()[1]);
    r.push(def(
            "obstacle_avoidance",
            "Detect and avoid obstacles during motion",
            req(
                &["Lidar", "DepthCamera", "Radar"],
                &["DifferentialDrive"],
                &[],
                &["spanda-nav"],
                &["NavigationProvider"],
                &["stop_if"],
                &[],
                VerificationSeverity::Error,
            ),
            &["Camera"],
            &["spanda-vision"],));
    assert(def_views(r@)[2] =~= registry_spec()[2]);
    r.push(def(
            "remote_control",
            "Accept signed remote commands over network",
            req(
                &[],
                &["DifferentialDrive"],
                &["WiFi", "LTE", "FiveG", "Bluetooth"],
                &[],
                &[],
                &[],
                &["signed_commands"],
                VerificationSeverity::Error,
            ),
            &[],
            &["spanda-mqtt"],));
    assert(def_views(r@)[3] =~= registry_spec()[3]);
    r.push(def(
            "telemetry_streaming",
            "Stream robot state and sensor data remotely",
            req(
                &[],
                &[],
                &["WiFi", "LTE", "FiveG", "MQTT"],
                &["spanda-mqtt"],
                &["TransportProvider"],
                &[],
                &[],
                VerificationSeverity::Warning,
            ),
            &["GPS", "Camera"],
            &["spanda-cloud"],));
    assert(def_views(r@)[4] =~= registry_spec()[4]);
    r.push(def(
            "emergency_stop",
            "Immediate actuator halt via hardware or kill switch",
            req(
                &[],
                &["DifferentialDrive"],
                &[],
                &[],
                &[],
                &["emergency_stop", "kill_switch"],
                &[],
                VerificationSeverity::Error,
            ),
            &[],
            &[],));
    assert(def_views(r@)[5] =~= registry_spec()[5]);
    r.push(def(
            "local_ai_inference",
            "Run AI models on onboard compute",
            req(
                &["Camera"],
                &[],
                &[],
                &[],
                &[],
                &["ai.validate"],
                &[],
                VerificationSeverity::Warning,
            ),
            &["Lidar"],
            &[],));
    assert(def_views(r@)[6] =~= registry_spec()[6]);
    r.push(def(
            "vision_processing",
            "Capture and process camera frames",
            req(
                &["Camera"],
                &[],
                &[],
                &["spanda-opencv", "spanda-yolo"],
                &["VisionProvider"],
                &[],
                &[],
                VerificationSeverity::Warning,
            ),
            &[],
            &[],));
    assert(def_views(r@)[7] =~= registry_spec()[7]);
    r.push(def(
            "manipulation",
            "Plan and execute arm/gripper motions",
            req(
                &["Camera"],
                &["Arm", "Gripper"],
                &[],
                &["spanda-moveit"],
                &[],
                &["max_force"],
                &[],
                VerificationSeverity::Error,
            ),
            &["ForceTorque"],
            &[],));
    assert(def_views(r@)[8] =~= registry_spec()[8]);
    r.push(def(
            "fleet_coordination",
            "Coordinate multiple robots in a fleet",
            req(
                &[],
                &[],
                &["WiFi", "LTE"],
                &["spanda-fleet"],
                &["FleetProvider"],
                &[],
                &[],
                VerificationSeverity::Warning,
            ),
            &[],
            &[],));
    assert(def_views(r@)[9] =~= registry_spec()[9]);
    r.push(def(
            "ota_update",
            "Over-the-air firmware and package updates",
            req(
                &[],
                &[],
                &["WiFi", "LTE"],
                &["spanda-ota"],
                &[],
                &[],
                &["signed_commands"],
                VerificationSeverity::Warning,
            ),
            &[],
            &[],));
    assert(def_views(r@)[10] =~= registry_spec()[10]);
    r.push(def(
            "secure_communication",
            "Encrypted and authenticated messaging",
            req(
                &[],
                &[],
                &["WiFi", "LTE"],
                &[],
                &["CryptoProvider"],
                &[],
                &["signed_commands", "encrypted_transport"],
                VerificationSeverity::Error,
            ),
            &[],
            &[],));
    assert(def_views(r@)[11] =~= registry_spec()[11]);
    assert(def_views(r@) =~= registry_spec());
    r
}

pub open spec fn contribution_spec(package: Seq<char>, capabilities: Seq<Seq<char>>) -> ContributionView {
    ContributionView { package, capabilities }
}

/// The built-in package contribution table.
pub open spec fn contributions_spec() -> Seq<ContributionView> {
    seq![
        contribution_spec("spanda-nav"@, seq!["autonomous_navigation"@, "path_planning"@, "obstacle_avoidance"@]),
        contribution_spec("spanda-gps"@, seq!["gps_navigation"@, "geofencing"@]),
        contribution_spec("spanda-mqtt"@, seq!["telemetry_streaming"@, "remote_command"@]),
        contribution_spec("spanda-fleet"@, seq!["fleet_coordination"@]),
        contribution_spec("spanda-ota"@, seq!["ota_update"@]),
        contribution_spec("spanda-opencv"@, seq!["vision_processing"@]),
        contribution_spec("spanda-yolo"@, seq!["vision_processing"@, "local_ai_inference"@]),
        contribution_spec("spanda-moveit"@, seq!["manipulation"@]),
        contribution_spec("spanda-cloud"@, seq!["telemetry_streaming"@]),
        contribution_spec("spanda-slam"@, seq!["autonomous_navigation"@]),
    ]
}

/// First definition in `defs` whose name is `name`.
pub open spec fn find_def(defs: Seq<DefinitionView>, name: Seq<char>) -> Option<DefinitionView>
    decreases defs.len(),
{
    if defs.len() == 0 {
        None
    } else if defs[0].name == name {
        Some(defs[0])
    } else {
        find_def(defs.drop_first(), name)
    }
}

/// The registry definition named `name`, if any.
pub open spec fn lookup_spec(name: Seq<char>) -> Option<DefinitionView> {
    find_def(registry_spec(), name)
}

pub open spec fn opt_def_view(d: Option<CapabilityDefinition>) -> Option<DefinitionView> {
    match d {
        Some(d) => Some(d@),
        None => None,
    }
}

/// Hardware-level capabilities of a sensor type.
pub open spec fn sensor_caps_spec(t: Seq<char>) -> Seq<Seq<char>> {
    if t == "GPS"@ || t == "GNSS"@ {
        seq!["read_location"@, "read_altitude"@, "read_heading"@]
    } else if t == "Camera"@ {
        seq!["capture_image"@, "stream_video"@, "detect_motion"@]
    } else if t == "Lidar"@ {
        seq!["scan_range"@, "obstacle_detection"@]
    } else if t == "DepthCamera"@ {
        seq!["depth_map"@, "obstacle_detection"@]
    } else if t == "Radar"@ {
        seq!["range_detection"@, "obstacle_detection"@]
    } else if t == "IMU"@ {
        seq!["read_orientation"@, "read_acceleration"@]
    } else {
        seq!["read"@]
    }
}

/// Hardware-level capabilities of an actuator type.
pub open spec fn actuator_caps_spec(t: Seq<char>) -> Seq<Seq<char>> {
    if t == "DifferentialDrive"@ || t == "AckermannDrive"@ {
        seq!["move_forward"@, "rotate"@, "stop"@, "emergency_stop"@]
    } else if t == "Arm"@ {
        seq!["move_joint"@, "stop"@, "emergency_stop"@]
    } else if t == "Gripper"@ {
        seq!["open"@, "close"@, "stop"@]
    } else {
        seq!["execute"@, "stop"@]
    }
}

/// Package contributions to the registry.
pub fn package_contributions() -> (r: Vec<PackageCapabilityContribution>)
    ensures
        contribution_views(r@) == contributions_spec(),
{
    let mut r: Vec<PackageCapabilityContribution> = Vec::new();
    r.push(contribution("spanda-nav", &["autonomous_navigation", "path_planning", "obstacle_avoidance"]));
    assert(contribution_views(r@)[0] =~= contributions_spec()[0]);
    r.push(contribution("spanda-gps", &["gps_navigation", "geofencing"]));
    assert(contribution_views(r@)[1] =~= contributions_spec()[1]);
    r.push(contribution("spanda-mqtt", &["telemetry_streaming", "remote_command"]));
    assert(contribution_views(r@)[2] =~= contributions_spec()[2]);
    r.push(contribution("spanda-fleet", &["fleet_coordination"]));
    assert(contribution_views(r@)[3] =~= contributions_spec()[3]);
    r.push(contribution("spanda-ota", &["ota_update"]));
    assert(contribution_views(r@)[4] =~= contributions_spec()[4]);
    r.push(contribution("spanda-opencv", &["vision_processing"]));
    assert(contribution_views(r@)[5] =~= contributions_spec()[5]);
    r.push(contribution("spanda-yolo", &["vision_processing", "local_ai_inference"]));
    assert(contribution_views(r@)[6] =~= contributions_spec()[6]);
    r.push(contribution("spanda-moveit", &["manipulation"]));
    assert(contribution_views(r@)[7] =~= contributions_spec()[7]);
    r.push(contribution("spanda-cloud", &["telemetry_streaming"]));
    assert(contribution_views(r@)[8] =~= contributions_spec()[8]);
    r.push(contribution("spanda-slam", &["autonomous_navigation"]));
    assert(contribution_views(r@)[9] =~= contributions_spec()[9]);
    assert(contribution_views(r@) =~= contributions_spec());
    r
}

/// Look up a capability by name.
pub fn lookup_capability(name: &str) -> (r: Option<CapabilityDefinition>)
    ensures
        opt_def_view(r) == lookup_spec(name@),
{
    let mut defs = capability_registry();
    let ghost all = def_views(defs@);
    assert(all.skip(0) =~= all);
    let mut i: usize = 0;
    while i < defs.len()
        invariant
            i <= defs@.len(),
            def_views(defs@) == all,
            all == registry_spec(),
            find_def(all, name@) == find_def(all.skip(i as int), name@),
        decreases defs@.len() - i,
    {
        if str_eq(defs[i].name.as_str(), name) {
            assert(all.skip(i as int)[0] == all[i as int]);
            assert(all[i as int].name == name@);
            assert(find_def(all.skip(i as int), name@) == Some(all[i as int]));
            let d = defs.remove(i);
            assert(d@ == all[i as int]);
            assert(all == registry_spec());
            assert(opt_def_view(Some(d)) == Some(all[i as int]));
            return Some(d);
        }
        assert(all.skip(i as int).drop_first() =~= all.skip(i + 1));
        i = i + 1;
    }
    assert(all.skip(i as int).len() == 0);
    None
}

/// Map sensor types to hardware-level capabilities.
pub fn sensor_capabilities(sensor_type: &str) -> (r: Vec<&'static str>)
    ensures
        lits(r@) == sensor_caps_spec(sensor_type@),
{
    let r: Vec<&'static str> = if str_eq(sensor_type, "GPS") || str_eq(sensor_type, "GNSS") {
        vec!["read_location", "read_altitude", "read_heading"]
    } else if str_eq(sensor_type, "Camera") {
        vec!["capture_image", "stream_video", "detect_motion"]
    } else if str_eq(sensor_type, "Lidar") {
        vec!["scan_range", "obstacle_detection"]
    } else if str_eq(sensor_type, "DepthCamera") {
        vec!["depth_map", "obstacle_detection"]
    } else if str_eq(sensor_type, "Radar") {
        vec!["range_detection", "obstacle_detection"]
    } else if str_eq(sensor_type, "IMU") {
        vec!["read_orientation", "read_acceleration"]
    } else {
        vec!["read"]
    };
    assert(lits(r@) =~= sensor_caps_spec(sensor_type@));
    r
}

/// Map actuator types to hardware-level capabilities.
pub fn actuator_capabilities(actuator_type: &str) -> (r: Vec<&'static str>)
    ensures
        lits(r@) == actuator_caps_spec(actuator_type@),
{
    let r: Vec<&'static str> = if str_eq(actuator_type, "DifferentialDrive") || str_eq(
        actuator_type,
        "AckermannDrive",
    ) {
        vec!["move_forward", "rotate", "stop", "emergency_stop"]
    } else if str_eq(actuator_type, "Arm") {
        vec!["move_joint", "stop", "emergency_stop"]
    } else if str_eq(actuator_type, "Gripper") {
        vec!["open", "close", "stop"]
    } else {
        vec!["execute", "stop"]
    };
    assert(lits(r@) =~= actuator_caps_spec(actuator_type@));
    r
}

fn contribution(package: &str, capabilities: &[&str]) -> (r: PackageCapabilityContribution)
    ensures
        r@ == contribution_spec(package@, lits(capabilities@)),
{
    PackageCapabilityContribution { package: owned(package), capabilities: strings_of(capabilities) }
}

fn strings_of(a: &[&str]) -> (r: Vec<String>)
    ensures
        views(r@) == lits(a@),
{
    let mut r: Vec<String> = Vec::new();
    let mut i: usize = 0;
    while i < a.len()
        invariant
            i <= a@.len(),
            r@.len() == i,
            forall|k: int| 0 <= k < i ==> #[trigger] r@[k]@ == a@[k]@,
        decreases a@.len() - i,
    {
        r.push(owned(a[i]));
        i = i + 1;
    }
    assert(views(r@) =~= lits(a@));
    r
}

fn def(
    name: &str,
    description: &str,
    minimum: CapabilityRequirement,
    optional_sensors: &[&str],
    optional_packages: &[&str],
) -> (r: CapabilityDefinition)
    ensures
        r@ == def_spec(name@, description@, minimum@, lits(optional_sensors@), lits(optional_packages@)),
{
    CapabilityDefinition {
        name: owned(name),
        description: owned(description),
        minimum,
        optional_sensors: strings_of(optional_sensors),
        optional_packages: strings_of(optional_packages),
    }
}

fn req(
    sensors: &[&str],
    actuators: &[&str],
    connectivity: &[&str],
    packages: &[&str],
    providers: &[&str],
    safety: &[&str],
    security: &[&str],
    severity: VerificationSeverity,
) -> (r: CapabilityRequirement)
    ensures
        r@ == req_spec(
            lits(sensors@),
            lits(actuators@),
            lits(connectivity@),
            lits(packages@),
            lits(providers@),
            lits(safety@),
            lits(security@),
            severity,
        ),
{
    CapabilityRequirement {
        any_of_sensors: strings_of(sensors),
        any_of_actuators: strings_of(actuators),
        any_of_connectivity: strings_of(connectivity),
        required_packages: strings_of(packages),
        required_providers: strings_of(providers),
        required_safety_rules: strings_of(safety),
        required_security: strings_of(security),
        severity,
    }
}


proof fn lemma_find_def(defs: Seq<DefinitionView>, name: Seq<char>)
    ensures
        find_def(defs, name) is Some <==> exists|i: int| 0 <= i < defs.len() && (#[trigger] defs[i]).name == name,
        find_def(defs, name) matches Some(d) ==> d.name == name && defs.contains(d),
    decreases defs.len(),
{
    if defs.len() > 0 {
        let rest = defs.drop_first();
        lemma_find_def(rest, name);
        if defs[0].name != name {
            if exists|i: int| 0 <= i < defs.len() && (#[trigger] defs[i]).name == name {
                let i = choose|i: int| 0 <= i < defs.len() && (#[trigger] defs[i]).name == name;
                assert(rest[i - 1] == defs[i]);
            }
            if exists|i: int| 0 <= i < rest.len() && (#[trigger] rest[i]).name == name {
                let i = choose|i: int| 0 <= i < rest.len() && (#[trigger] rest[i]).name == name;
                assert(defs[i + 1] == rest[i]);
            }
            if find_def(rest, name) is Some {
                let d = find_def(rest, name)->0;
                let k = choose|k: int| 0 <= k < rest.len() && rest[k] == d;
                assert(defs[k + 1] == d);
            }
        } else {
            assert(defs[0].name == name);
        }
    }
}

/// Looking a capability up finds it exactly when the registry lists a
/// capability of that name, and what it finds is a registered definition of that name.
pub proof fn law_lookup_finds_registered(name: Seq<char>)
    ensures
        lookup_spec(name) is Some <==> exists|i: int|
            0 <= i < registry_spec().len() && (#[trigger] registry_spec()[i]).name == name,
        lookup_spec(name) matches Some(d) ==> d.name == name && registry_spec().contains(d),
{
    lemma_find_def(registry_spec(), name);
}

} // verus!
