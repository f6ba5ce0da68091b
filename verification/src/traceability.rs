//! Hardware and capability traceability matrix generation.
use vstd::prelude::*;
use crate::ast::{ActuatorDecl, HardwareComponentDecl, HardwareDecl, KillSwitchDecl, Program, RobotDecl, SensorDecl};
use crate::registry::{actuator_capabilities, actuator_caps_spec, lits, lookup_capability, lookup_spec, sensor_capabilities, sensor_caps_spec};
use crate::robot::{dedup, opt_view};
use crate::text::{
    cat2, cat3, cat4, cat5, copy_string, has_infix, join, join_spec, lemma_views_push, list_contains, owned,
    push_str, str_contains, str_eq, views,
};

verus! {

/// Single row in the hardware traceability matrix.
#[derive(Debug, Clone, PartialEq, Eq)]
pub struct HardwareTraceRow {
    pub hardware_component: String,
    pub used_by: String,
    pub source_location: String,
    pub capability: String,
    pub provider: String,
    pub verified: bool,
    pub safety_rule: Option<String>,
    pub notes: Option<String>,
}

/// Single row in the capability traceability matrix.
#[derive(Debug, Clone, PartialEq, Eq)]
pub struct CapabilityTraceRow {
    pub capability: String,
    pub required_by: String,
    pub provided_by: String,
    pub hardware: String,
    pub package: String,
    pub provider: String,
    pub safety_rule: Option<String>,
    pub status: String,
    pub notes: Option<String>,
}

/// Combined traceability report.
#[derive(Debug, Clone, PartialEq, Eq)]
pub struct TraceabilityReport {
    pub hardware_rows: Vec<HardwareTraceRow>,
    pub capability_rows: Vec<CapabilityTraceRow>,
    pub warnings: Vec<String>,
    pub errors: Vec<String>,
}

/// Mathematical value of a [`HardwareTraceRow`].
#[verifier::ext_equal]
pub struct HwRowView {
    pub hardware_component: Seq<char>,
    pub used_by: Seq<char>,
    pub source_location: Seq<char>,
    pub capability: Seq<char>,
    pub provider: Seq<char>,
    pub verified: bool,
    pub safety_rule: Option<Seq<char>>,
    pub notes: Option<Seq<char>>,
}

/// Mathematical value of a [`CapabilityTraceRow`].
#[verifier::ext_equal]
pub struct CapRowView {
    pub capability: Seq<char>,
    pub required_by: Seq<char>,
    pub provided_by: Seq<char>,
    pub hardware: Seq<char>,
    pub package: Seq<char>,
    pub provider: Seq<char>,
    pub safety_rule: Option<Seq<char>>,
    pub status: Seq<char>,
    pub notes: Option<Seq<char>>,
}

impl View for HardwareTraceRow {
    type V = HwRowView;

    open spec fn view(&self) -> HwRowView {
        HwRowView {
            hardware_component: self.hardware_component@,
            used_by: self.used_by@,
            source_location: self.source_location@,
            capability: self.capability@,
            provider: self.provider@,
            verified: self.verified,
            safety_rule: opt_view(self.safety_rule),
            notes: opt_view(self.notes),
        }
    }
}

impl View for CapabilityTraceRow {
    type V = CapRowView;

    open spec fn view(&self) -> CapRowView {
        CapRowView {
            capability: self.capability@,
            required_by: self.required_by@,
            provided_by: self.provided_by@,
            hardware: self.hardware@,
            package: self.package@,
            provider: self.provider@,
            safety_rule: opt_view(self.safety_rule),
            status: self.status@,
            notes: opt_view(self.notes),
        }
    }
}

pub open spec fn hw_row_views(v: Seq<HardwareTraceRow>) -> Seq<HwRowView> {
    v.map_values(|r: HardwareTraceRow| r@)
}

pub open spec fn cap_row_views(v: Seq<CapabilityTraceRow>) -> Seq<CapRowView> {
    v.map_values(|r: CapabilityTraceRow| r@)
}

// ---- providers ----

pub open spec fn sensor_provider_spec(t: Seq<char>) -> Seq<char> {
    if t == "GPS"@ || t == "GNSS"@ {
        "PositioningProvider"@
    } else if t == "Camera"@ {
        "VisionProvider"@
    } else {
        "SensorProvider"@
    }
}

pub open spec fn actuator_provider_spec(t: Seq<char>) -> Seq<char> {
    if has_infix(t, "Drive"@) {
        "ActuatorProvider"@
    } else if t == "Arm"@ || t == "Gripper"@ {
        "ManipulationProvider"@
    } else {
        "ActuatorProvider"@
    }
}

pub open spec fn connectivity_provider_spec(c: Seq<char>) -> Seq<char> {
    if c == "WiFi"@ {
        "spanda-wifi"@
    } else if c == "LTE"@ || c == "FiveG"@ || c == "Cellular"@ {
        "spanda-cellular"@
    } else if c == "Bluetooth"@ || c == "BLE"@ {
        "spanda-ble"@
    } else if c == "MQTT"@ {
        "spanda-mqtt"@
    } else {
        "ConnectivityProvider"@
    }
}

pub open spec fn component_provider_spec(kind: Seq<char>, t: Seq<char>) -> Seq<char> {
    if kind == "sensor"@ {
        sensor_provider_spec(t)
    } else if kind == "actuator"@ {
        actuator_provider_spec(t)
    } else if kind == "compute"@ {
        "ComputeProvider"@
    } else if kind == "connectivity"@ {
        connectivity_provider_spec(t)
    } else {
        "HardwareProvider"@
    }
}

// ---- hardware profile rows ----

pub open spec fn dotted(a: Seq<char>, b: Seq<char>) -> Seq<char> {
    a + "."@ + b
}

pub open spec fn hw_source(hw: Seq<char>) -> Seq<char> {
    "hardware "@ + hw
}

pub open spec fn sensor_cap_rows(hw: Seq<char>, sensor: Seq<char>, caps: Seq<Seq<char>>) -> Seq<HwRowView> {
    caps.map_values(
        |cap: Seq<char>|
            HwRowView {
                hardware_component: dotted(hw, sensor),
                used_by: seq![],
                source_location: hw_source(hw),
                capability: cap,
                provider: sensor_provider_spec(sensor),
                verified: true,
                safety_rule: None,
                notes: None,
            },
    )
}

pub open spec fn actuator_cap_rows(hw: Seq<char>, actuator: Seq<char>, caps: Seq<Seq<char>>) -> Seq<HwRowView> {
    caps.map_values(
        |cap: Seq<char>|
            HwRowView {
                hardware_component: dotted(hw, actuator),
                used_by: seq![],
                source_location: hw_source(hw),
                capability: cap,
                provider: actuator_provider_spec(actuator),
                verified: true,
                safety_rule: if cap == "emergency_stop"@ {
                    Some("stop_all_actuators"@)
                } else {
                    None
                },
                notes: None,
            },
    )
}

pub open spec fn conn_row(hw: Seq<char>, conn: Seq<char>) -> HwRowView {
    HwRowView {
        hardware_component: dotted(hw, conn),
        used_by: seq![],
        source_location: hw_source(hw),
        capability: "network_connect"@,
        provider: connectivity_provider_spec(conn),
        verified: true,
        safety_rule: None,
        notes: None,
    }
}

pub open spec fn component_rows(hw: Seq<char>, c: HardwareComponentDecl) -> Seq<HwRowView> {
    views(c.capabilities@).map_values(
        |cap: Seq<char>|
            HwRowView {
                hardware_component: dotted(hw, c.name@),
                used_by: seq![],
                source_location: "hardware "@ + hw + " "@ + c.component_kind@ + ":"@ + c.name@,
                capability: cap,
                provider: component_provider_spec(c.component_kind@, c.component_type@),
                verified: true,
                safety_rule: None,
                notes: Some(c.component_type@),
            },
    )
}

pub open spec fn sensors_rows(hw: Seq<char>, sensors: Seq<Seq<char>>) -> Seq<HwRowView>
    decreases sensors.len(),
{
    if sensors.len() == 0 {
        seq![]
    } else {
        sensors_rows(hw, sensors.drop_last()) + sensor_cap_rows(hw, sensors.last(), sensor_caps_spec(sensors.last()))
    }
}

pub open spec fn actuators_rows(hw: Seq<char>, actuators: Seq<Seq<char>>) -> Seq<HwRowView>
    decreases actuators.len(),
{
    if actuators.len() == 0 {
        seq![]
    } else {
        actuators_rows(hw, actuators.drop_last()) + actuator_cap_rows(
            hw,
            actuators.last(),
            actuator_caps_spec(actuators.last()),
        )
    }
}

pub open spec fn components_rows(hw: Seq<char>, comps: Seq<HardwareComponentDecl>) -> Seq<HwRowView>
    decreases comps.len(),
{
    if comps.len() == 0 {
        seq![]
    } else {
        components_rows(hw, comps.drop_last()) + component_rows(hw, comps.last())
    }
}

/// Rows emitted for one hardware profile.
pub open spec fn profile_rows(h: HardwareDecl) -> Seq<HwRowView> {
    sensors_rows(h.name@, views(h.sensors@)) + actuators_rows(h.name@, views(h.actuators@)) + views(
        h.connectivity@,
    ).map_values(|c: Seq<char>| conn_row(h.name@, c)) + components_rows(h.name@, h.components@)
}

pub open spec fn profiles_rows(ps: Seq<HardwareDecl>) -> Seq<HwRowView>
    decreases ps.len(),
{
    if ps.len() == 0 {
        seq![]
    } else {
        profiles_rows(ps.drop_last()) + profile_rows(ps.last())
    }
}

// ---- robot rows ----

/// Some hardware profile carries the name.
pub open spec fn profile_declared(ps: Seq<HardwareDecl>, name: Seq<char>) -> bool {
    exists|i: int| 0 <= i < ps.len() && #[trigger] ps[i].name@ == name
}

pub open spec fn robot_sensor_row(ps: Seq<HardwareDecl>, r: RobotDecl, s: SensorDecl) -> HwRowView {
    HwRowView {
        hardware_component: s.name@,
        used_by: r.name@,
        source_location: "robot "@ + r.name@ + " sensor "@ + s.name@,
        capability: s.sensor_type@,
        provider: sensor_provider_spec(s.sensor_type@),
        verified: match r.uses_hardware {
            Some(h) => profile_declared(ps, h@),
            None => true,
        },
        safety_rule: None,
        notes: opt_view(r.uses_hardware),
    }
}

pub open spec fn robot_actuator_row(r: RobotDecl, a: ActuatorDecl) -> HwRowView {
    HwRowView {
        hardware_component: a.name@,
        used_by: r.name@,
        source_location: "robot "@ + r.name@ + " actuator "@ + a.name@,
        capability: a.actuator_type@,
        provider: actuator_provider_spec(a.actuator_type@),
        verified: true,
        safety_rule: if has_infix(a.actuator_type@, "Drive"@) {
            Some("max_speed"@)
        } else {
            None
        },
        notes: None,
    }
}

pub open spec fn robot_rows_of(ps: Seq<HardwareDecl>, r: RobotDecl) -> Seq<HwRowView> {
    r.sensors@.map_values(|s: SensorDecl| robot_sensor_row(ps, r, s)) + r.actuators@.map_values(
        |a: ActuatorDecl| robot_actuator_row(r, a),
    )
}

pub open spec fn robots_rows(ps: Seq<HardwareDecl>, robots: Seq<RobotDecl>) -> Seq<HwRowView>
    decreases robots.len(),
{
    if robots.len() == 0 {
        seq![]
    } else {
        robots_rows(ps, robots.drop_last()) + robot_rows_of(ps, robots.last())
    }
}

/// Some earlier row for a component whose name contains the actuator name carries a safety rule.
pub open spec fn has_safety_gate(rows: Seq<HwRowView>, actuator: Seq<char>) -> bool {
    exists|i: int|
        0 <= i < rows.len() && has_infix(#[trigger] rows[i].hardware_component, actuator) && rows[i].safety_rule
            is Some
}

pub open spec fn gate_warning(r: RobotDecl, a: ActuatorDecl) -> Seq<char> {
    "Actuator '"@ + a.name@ + "' on robot '"@ + r.name@ + "' has no safety gate"@
}

/// Safety-gate warnings for a robot's actuators, given the rows emitted before the robot.
pub open spec fn actuator_warnings(
    base: Seq<HwRowView>,
    ps: Seq<HardwareDecl>,
    r: RobotDecl,
    acts: Seq<ActuatorDecl>,
) -> Seq<Seq<char>>
    decreases acts.len(),
{
    if acts.len() == 0 {
        seq![]
    } else {
        let prefix = base + r.sensors@.map_values(|s: SensorDecl| robot_sensor_row(ps, r, s)) + acts.drop_last().map_values(
            |a: ActuatorDecl| robot_actuator_row(r, a),
        );
        actuator_warnings(base, ps, r, acts.drop_last()) + (if has_safety_gate(prefix, acts.last().name@) {
            seq![]
        } else {
            seq![gate_warning(r, acts.last())]
        })
    }
}

pub open spec fn robots_warnings(ps: Seq<HardwareDecl>, robots: Seq<RobotDecl>) -> Seq<Seq<char>>
    decreases robots.len(),
{
    if robots.len() == 0 {
        seq![]
    } else {
        let base = profiles_rows(ps) + robots_rows(ps, robots.drop_last());
        robots_warnings(ps, robots.drop_last()) + actuator_warnings(base, ps, robots.last(), robots.last().actuators@)
    }
}

pub open spec fn undeclared_error(ps: Seq<HardwareDecl>, r: RobotDecl) -> Seq<Seq<char>> {
    match r.uses_hardware {
        Some(h) => if profile_declared(ps, h@) {
            seq![]
        } else {
            seq!["Robot '"@ + r.name@ + "' uses undeclared hardware '"@ + h@ + "'"@]
        },
        None => seq![],
    }
}

pub open spec fn robots_errors(ps: Seq<HardwareDecl>, robots: Seq<RobotDecl>) -> Seq<Seq<char>>
    decreases robots.len(),
{
    if robots.len() == 0 {
        seq![]
    } else {
        robots_errors(ps, robots.drop_last()) + undeclared_error(ps, robots.last())
    }
}

pub open spec fn kill_switch_row(k: KillSwitchDecl) -> HwRowView {
    HwRowView {
        hardware_component: k.name@,
        used_by: "system"@,
        source_location: "kill_switch "@ + k.name@,
        capability: "emergency_stop"@,
        provider: "KillSwitchProvider"@,
        verified: true,
        safety_rule: Some("priority="@ + k.priority@),
        notes: Some("stop_all_actuators"@),
    }
}

// ---- unused hardware ----

pub open spec fn sensor_keys(ps: Seq<HardwareDecl>) -> Seq<Seq<char>>
    decreases ps.len(),
{
    if ps.len() == 0 {
        seq![]
    } else {
        sensor_keys(ps.drop_last()) + views(ps.last().sensors@).map_values(|s: Seq<char>| dotted(ps.last().name@, s))
    }
}

pub open spec fn actuator_keys(ps: Seq<HardwareDecl>) -> Seq<Seq<char>>
    decreases ps.len(),
{
    if ps.len() == 0 {
        seq![]
    } else {
        actuator_keys(ps.drop_last()) + views(ps.last().actuators@).map_values(
            |s: Seq<char>| dotted(ps.last().name@, s),
        )
    }
}

/// Names of the sensors declared on robots, in order.
pub open spec fn sensor_names(robots: Seq<RobotDecl>) -> Seq<Seq<char>>
    decreases robots.len(),
{
    if robots.len() == 0 {
        seq![]
    } else {
        sensor_names(robots.drop_last()) + robots.last().sensors@.map_values(|s: SensorDecl| s.name@)
    }
}

/// Names of the actuators declared on robots, in order.
pub open spec fn actuator_names(robots: Seq<RobotDecl>) -> Seq<Seq<char>>
    decreases robots.len(),
{
    if robots.len() == 0 {
        seq![]
    } else {
        actuator_names(robots.drop_last()) + robots.last().actuators@.map_values(|a: ActuatorDecl| a.name@)
    }
}

/// Warning lines for keys not among the used names, with the given wording.
pub open spec fn unused_warnings(keys: Seq<Seq<char>>, used: Seq<Seq<char>>, kind: Seq<char>) -> Seq<Seq<char>>
    decreases keys.len(),
{
    if keys.len() == 0 {
        seq![]
    } else {
        unused_warnings(keys.drop_last(), used, kind) + (if used.contains(keys.last()) {
            seq![]
        } else {
            seq!["Declared "@ + kind + " '"@ + keys.last() + "' is unused"@]
        })
    }
}

/// `r` is the hardware traceability report of the program.
pub open spec fn is_hardware_traceability(p: Program, r: TraceabilityReport) -> bool {
    &&& hw_row_views(r.hardware_rows@) == hardware_rows_spec(p)
    &&& r.capability_rows@.len() == 0
    &&& views(r.warnings@) == hardware_warnings_spec(p)
    &&& views(r.errors@) == hardware_errors_spec(p)
}

/// `r` is the capability traceability report of the program.
pub open spec fn is_capability_traceability(p: Program, r: TraceabilityReport) -> bool {
    &&& hw_row_views(r.hardware_rows@) == hardware_rows_spec(p)
    &&& cap_row_views(r.capability_rows@) == capability_rows_spec(p.requires_capabilities@, p.robots@)
    &&& views(r.warnings@) == hardware_warnings_spec(p)
    &&& views(r.errors@) == capability_errors_spec(p)
}

/// Rows of the hardware traceability matrix of a program.
pub open spec fn hardware_rows_spec(p: Program) -> Seq<HwRowView> {
    profiles_rows(p.hardware_profiles@) + robots_rows(p.hardware_profiles@, p.robots@) + p.kill_switches@.map_values(
        |k: KillSwitchDecl| kill_switch_row(k),
    )
}

/// Warnings of the hardware traceability matrix of a program.
pub open spec fn hardware_warnings_spec(p: Program) -> Seq<Seq<char>> {
    robots_warnings(p.hardware_profiles@, p.robots@) + unused_warnings(
        dedup(sensor_keys(p.hardware_profiles@)),
        sensor_names(p.robots@),
        "sensor"@,
    ) + unused_warnings(dedup(actuator_keys(p.hardware_profiles@)), actuator_names(p.robots@), "actuator"@)
}

/// Errors of the hardware traceability matrix of a program.
pub open spec fn hardware_errors_spec(p: Program) -> Seq<Seq<char>> {
    robots_errors(p.hardware_profiles@, p.robots@)
}

fn push_hw(v: &mut Vec<HardwareTraceRow>, x: HardwareTraceRow)
    ensures
        hw_row_views(final(v)@) == hw_row_views(old(v)@).push(x@),
{
    let ghost before = v@;
    v.push(x);
    assert(hw_row_views(v@) =~= hw_row_views(before).push(x@));
}

fn push_view(v: &mut Vec<String>, x: String)
    ensures
        views(final(v)@) == views(old(v)@).push(x@),
{
    let ghost before = v@;
    v.push(x);
    proof { lemma_views_push(before, x); }
}

fn infer_sensor_provider(sensor_type: &str) -> (r: String)
    ensures
        r@ == sensor_provider_spec(sensor_type@),
{
    if str_eq(sensor_type, "GPS") || str_eq(sensor_type, "GNSS") {
        owned("PositioningProvider")
    } else if str_eq(sensor_type, "Camera") {
        owned("VisionProvider")
    } else {
        owned("SensorProvider")
    }
}

fn infer_actuator_provider(actuator_type: &str) -> (r: String)
    ensures
        r@ == actuator_provider_spec(actuator_type@),
{
    if str_contains(actuator_type, "Drive") {
        owned("ActuatorProvider")
    } else if str_eq(actuator_type, "Arm") || str_eq(actuator_type, "Gripper") {
        owned("ManipulationProvider")
    } else {
        owned("ActuatorProvider")
    }
}

fn infer_connectivity_provider(conn: &str) -> (r: String)
    ensures
        r@ == connectivity_provider_spec(conn@),
{
    if str_eq(conn, "WiFi") {
        owned("spanda-wifi")
    } else if str_eq(conn, "LTE") || str_eq(conn, "FiveG") || str_eq(conn, "Cellular") {
        owned("spanda-cellular")
    } else if str_eq(conn, "Bluetooth") || str_eq(conn, "BLE") {
        owned("spanda-ble")
    } else if str_eq(conn, "MQTT") {
        owned("spanda-mqtt")
    } else {
        owned("ConnectivityProvider")
    }
}

fn infer_component_provider(kind: &str, component_type: &str) -> (r: String)
    ensures
        r@ == component_provider_spec(kind@, component_type@),
{
    if str_eq(kind, "sensor") {
        infer_sensor_provider(component_type)
    } else if str_eq(kind, "actuator") {
        infer_actuator_provider(component_type)
    } else if str_eq(kind, "compute") {
        owned("ComputeProvider")
    } else if str_eq(kind, "connectivity") {
        infer_connectivity_provider(component_type)
    } else {
        owned("HardwareProvider")
    }
}

/// Rows for one hardware profile, and the `Profile.Component` keys it declares.
fn emit_profile(
    hw: &HardwareDecl,
    rows: &mut Vec<HardwareTraceRow>,
    skeys: &mut Vec<String>,
    akeys: &mut Vec<String>,
)
    ensures
        hw_row_views(final(rows)@) == hw_row_views(old(rows)@) + profile_rows(*hw),
        views(final(skeys)@) == views(old(skeys)@) + views(hw.sensors@).map_values(|s: Seq<char>| dotted(hw.name@, s)),
        views(final(akeys)@) == views(old(akeys)@) + views(hw.actuators@).map_values(|s: Seq<char>| dotted(hw.name@, s)),
{
    let name = hw.name.as_str();
    let ghost r0 = hw_row_views(rows@);
    let ghost k0 = views(skeys@);
    let mut i: usize = 0;
    while i < hw.sensors.len()
        invariant
            i <= hw.sensors@.len(),
            name@ == hw.name@,
            hw_row_views(rows@) == r0 + sensors_rows(hw.name@, views(hw.sensors@).take(i as int)),
            views(skeys@) == k0 + views(hw.sensors@).take(i as int).map_values(|s: Seq<char>| dotted(hw.name@, s)),
        decreases hw.sensors@.len() - i,
    {
        let sensor = hw.sensors[i].as_str();
        let ghost l = views(hw.sensors@);
        assert(l.take(i + 1).drop_last() =~= l.take(i as int));
        assert(l.take(i + 1).last() == sensor@);
        push_view(skeys, cat3(name, ".", sensor));
        assert(views(skeys@) =~= k0 + l.take(i + 1).map_values(|s: Seq<char>| dotted(hw.name@, s)));
        let caps = sensor_capabilities(sensor);
        let ghost rb = hw_row_views(rows@);
        let ghost capsv = lits(caps@);
        let mut j: usize = 0;
        while j < caps.len()
            invariant
                j <= caps@.len(),
                capsv == lits(caps@),
                capsv == sensor_caps_spec(sensor@),
                name@ == hw.name@,
                hw_row_views(rows@) == rb + sensor_cap_rows(hw.name@, sensor@, capsv.take(j as int)),
            decreases caps@.len() - j,
        {
            let row = HardwareTraceRow {
                hardware_component: cat3(name, ".", sensor),
                used_by: String::new(),
                source_location: cat2("hardware ", name),
                capability: owned(caps[j]),
                provider: infer_sensor_provider(sensor),
                verified: true,
                safety_rule: None,
                notes: None,
            };
            assert(capsv[j as int] == caps@[j as int]@);
            assert(sensor_cap_rows(hw.name@, sensor@, capsv.take(j + 1)) =~= sensor_cap_rows(hw.name@, sensor@, capsv.take(j as int)).push(row@));
            push_hw(rows, row);
            j = j + 1;
        }
        assert(capsv.take(capsv.len() as int) =~= capsv);
        i = i + 1;
    }
    assert(views(hw.sensors@).take(hw.sensors@.len() as int) =~= views(hw.sensors@));
    let ghost r1 = hw_row_views(rows@);
    let ghost a0 = views(akeys@);
    let mut i: usize = 0;
    while i < hw.actuators.len()
        invariant
            i <= hw.actuators@.len(),
            name@ == hw.name@,
            hw_row_views(rows@) == r1 + actuators_rows(hw.name@, views(hw.actuators@).take(i as int)),
            views(akeys@) == a0 + views(hw.actuators@).take(i as int).map_values(|s: Seq<char>| dotted(hw.name@, s)),
        decreases hw.actuators@.len() - i,
    {
        let actuator = hw.actuators[i].as_str();
        let ghost l = views(hw.actuators@);
        assert(l.take(i + 1).drop_last() =~= l.take(i as int));
        assert(l.take(i + 1).last() == actuator@);
        push_view(akeys, cat3(name, ".", actuator));
        assert(views(akeys@) =~= a0 + l.take(i + 1).map_values(|s: Seq<char>| dotted(hw.name@, s)));
        let caps = actuator_capabilities(actuator);
        let ghost rb = hw_row_views(rows@);
        let ghost capsv = lits(caps@);
        let mut j: usize = 0;
        while j < caps.len()
            invariant
                j <= caps@.len(),
                capsv == lits(caps@),
                capsv == actuator_caps_spec(actuator@),
                name@ == hw.name@,
                hw_row_views(rows@) == rb + actuator_cap_rows(hw.name@, actuator@, capsv.take(j as int)),
            decreases caps@.len() - j,
        {
            let cap = caps[j];
            let row = HardwareTraceRow {
                hardware_component: cat3(name, ".", actuator),
                used_by: String::new(),
                source_location: cat2("hardware ", name),
                capability: owned(cap),
                provider: infer_actuator_provider(actuator),
                verified: true,
                safety_rule: if str_eq(cap, "emergency_stop") {
                    Some(owned("stop_all_actuators"))
                } else {
                    None
                },
                notes: None,
            };
            assert(capsv[j as int] == cap@);
            assert(actuator_cap_rows(hw.name@, actuator@, capsv.take(j + 1)) =~= actuator_cap_rows(hw.name@, actuator@, capsv.take(j as int)).push(row@));
            push_hw(rows, row);
            j = j + 1;
        }
        assert(capsv.take(capsv.len() as int) =~= capsv);
        i = i + 1;
    }
    assert(views(hw.actuators@).take(hw.actuators@.len() as int) =~= views(hw.actuators@));
    let ghost r2 = hw_row_views(rows@);
    let mut i: usize = 0;
    while i < hw.connectivity.len()
        invariant
            i <= hw.connectivity@.len(),
            name@ == hw.name@,
            hw_row_views(rows@) == r2 + views(hw.connectivity@).take(i as int).map_values(|c: Seq<char>| conn_row(hw.name@, c)),
        decreases hw.connectivity@.len() - i,
    {
        let conn = hw.connectivity[i].as_str();
        let row = HardwareTraceRow {
            hardware_component: cat3(name, ".", conn),
            used_by: String::new(),
            source_location: cat2("hardware ", name),
            capability: owned("network_connect"),
            provider: infer_connectivity_provider(conn),
            verified: true,
            safety_rule: None,
            notes: None,
        };
        push_hw(rows, row);
        i = i + 1;
        assert(hw_row_views(rows@) =~= r2 + views(hw.connectivity@).take(i as int).map_values(|c: Seq<char>| conn_row(hw.name@, c)));
    }
    assert(views(hw.connectivity@).take(hw.connectivity@.len() as int) =~= views(hw.connectivity@));
    let ghost r3 = hw_row_views(rows@);
    let mut i: usize = 0;
    while i < hw.components.len()
        invariant
            i <= hw.components@.len(),
            name@ == hw.name@,
            hw_row_views(rows@) == r3 + components_rows(hw.name@, hw.components@.take(i as int)),
        decreases hw.components@.len() - i,
    {
        let comp = &hw.components[i];
        assert(hw.components@.take(i + 1).drop_last() =~= hw.components@.take(i as int));
        assert(hw.components@.take(i + 1).last() == *comp);
        let ghost rb = hw_row_views(rows@);
        let mut j: usize = 0;
        while j < comp.capabilities.len()
            invariant
                j <= comp.capabilities@.len(),
                name@ == hw.name@,
                hw_row_views(rows@) == rb + component_rows(hw.name@, *comp).take(j as int),
            decreases comp.capabilities@.len() - j,
        {
            let mut loc = cat5("hardware ", name, " ", comp.component_kind.as_str(), ":");
            push_str(&mut loc, comp.name.as_str());
            let row = HardwareTraceRow {
                hardware_component: cat3(name, ".", comp.name.as_str()),
                used_by: String::new(),
                source_location: loc,
                capability: copy_string(&comp.capabilities[j]),
                provider: infer_component_provider(comp.component_kind.as_str(), comp.component_type.as_str()),
                verified: true,
                safety_rule: None,
                notes: Some(copy_string(&comp.component_type)),
            };
            push_hw(rows, row);
            j = j + 1;
            assert(hw_row_views(rows@) =~= rb + component_rows(hw.name@, *comp).take(j as int));
        }
        assert(component_rows(hw.name@, *comp).take(comp.capabilities@.len() as int) =~= component_rows(hw.name@, *comp));
        i = i + 1;
    }
    assert(hw.components@.take(hw.components@.len() as int) =~= hw.components@);
    assert(hw_row_views(rows@) =~= r0 + profile_rows(*hw));
}

/// Whether some hardware profile carries the name.
fn profile_exists(ps: &Vec<HardwareDecl>, name: &str) -> (r: bool)
    ensures
        r == profile_declared(ps@, name@),
{
    let mut i: usize = 0;
    while i < ps.len()
        invariant
            i <= ps@.len(),
            forall|k: int| 0 <= k < i ==> #[trigger] ps@[k].name@ != name@,
        decreases ps@.len() - i,
    {
        if str_eq(ps[i].name.as_str(), name) {
            return true;
        }
        i = i + 1;
    }
    false
}

/// Whether an emitted row for a component containing `actuator` carries a safety rule.
fn has_gate(rows: &Vec<HardwareTraceRow>, actuator: &str) -> (r: bool)
    ensures
        r == has_safety_gate(hw_row_views(rows@), actuator@),
{
    let ghost v = hw_row_views(rows@);
    let mut i: usize = 0;
    while i < rows.len()
        invariant
            i <= rows@.len(),
            v == hw_row_views(rows@),
            forall|k: int| 0 <= k < i ==> !(has_infix(#[trigger] v[k].hardware_component, actuator@) && v[k].safety_rule is Some),
        decreases rows@.len() - i,
    {
        if str_contains(rows[i].hardware_component.as_str(), actuator) && rows[i].safety_rule.is_some() {
            assert(has_infix(v[i as int].hardware_component, actuator@));
            return true;
        }
        i = i + 1;
    }
    false
}

/// Rows, safety-gate warnings and hardware errors for one robot.
fn emit_robot(
    ps: &Vec<HardwareDecl>,
    robot: &RobotDecl,
    rows: &mut Vec<HardwareTraceRow>,
    warnings: &mut Vec<String>,
    errors: &mut Vec<String>,
    used_s: &mut Vec<String>,
    used_a: &mut Vec<String>,
)
    ensures
        hw_row_views(final(rows)@) == hw_row_views(old(rows)@) + robot_rows_of(ps@, *robot),
        views(final(warnings)@) == views(old(warnings)@) + actuator_warnings(hw_row_views(old(rows)@), ps@, *robot, robot.actuators@),
        views(final(errors)@) == views(old(errors)@) + undeclared_error(ps@, *robot),
        views(final(used_s)@) == views(old(used_s)@) + robot.sensors@.map_values(|s: SensorDecl| s.name@),
        views(final(used_a)@) == views(old(used_a)@) + robot.actuators@.map_values(|a: ActuatorDecl| a.name@),
{
    let ghost base = hw_row_views(rows@);
    let ghost w0 = views(warnings@);
    let ghost us0 = views(used_s@);
    let ghost ua0 = views(used_a@);
    let name = robot.name.as_str();
    let verified = match &robot.uses_hardware {
        Some(h) => profile_exists(ps, h.as_str()),
        None => true,
    };
    let ghost srows = robot.sensors@.map_values(|s: SensorDecl| robot_sensor_row(ps@, *robot, s));
    let mut i: usize = 0;
    while i < robot.sensors.len()
        invariant
            i <= robot.sensors@.len(),
            name@ == robot.name@,
            verified == (match robot.uses_hardware {
                Some(h) => profile_declared(ps@, h@),
                None => true,
            }),
            srows == robot.sensors@.map_values(|s: SensorDecl| robot_sensor_row(ps@, *robot, s)),
            hw_row_views(rows@) == base + srows.take(i as int),
            views(used_s@) == us0 + robot.sensors@.take(i as int).map_values(|s: SensorDecl| s.name@),
        decreases robot.sensors@.len() - i,
    {
        let sensor = &robot.sensors[i];
        let row = HardwareTraceRow {
            hardware_component: copy_string(&sensor.name),
            used_by: owned(name),
            source_location: cat4("robot ", name, " sensor ", sensor.name.as_str()),
            capability: copy_string(&sensor.sensor_type),
            provider: infer_sensor_provider(sensor.sensor_type.as_str()),
            verified,
            safety_rule: None,
            notes: match &robot.uses_hardware {
                Some(h) => Some(copy_string(h)),
                None => None,
            },
        };
        assert(row@ =~= srows[i as int]);
        push_hw(rows, row);
        push_view(used_s, copy_string(&sensor.name));
        i = i + 1;
        assert(hw_row_views(rows@) =~= base + srows.take(i as int));
        assert(views(used_s@) =~= us0 + robot.sensors@.take(i as int).map_values(|s: SensorDecl| s.name@));
    }
    assert(srows.take(srows.len() as int) =~= srows);
    assert(robot.sensors@.take(robot.sensors@.len() as int) =~= robot.sensors@);
    let ghost acts = robot.actuators@;
    let ghost arows = acts.map_values(|a: ActuatorDecl| robot_actuator_row(*robot, a));
    let mut j: usize = 0;
    while j < robot.actuators.len()
        invariant
            j <= acts.len(),
            acts == robot.actuators@,
            name@ == robot.name@,
            arows == acts.map_values(|a: ActuatorDecl| robot_actuator_row(*robot, a)),
            srows == robot.sensors@.map_values(|s: SensorDecl| robot_sensor_row(ps@, *robot, s)),
            hw_row_views(rows@) == base + srows + arows.take(j as int),
            views(warnings@) == w0 + actuator_warnings(base, ps@, *robot, acts.take(j as int)),
            views(used_a@) == ua0 + acts.take(j as int).map_values(|a: ActuatorDecl| a.name@),
        decreases acts.len() - j,
    {
        let act = &robot.actuators[j];
        assert(acts.take(j + 1).drop_last() =~= acts.take(j as int));
        assert(acts.take(j + 1).last() == *act);
        assert(acts.take(j as int).map_values(|a: ActuatorDecl| robot_actuator_row(*robot, a)) =~= arows.take(j as int));
        assert(acts.take(j + 1).drop_last().map_values(|a: ActuatorDecl| robot_actuator_row(*robot, a)) =~= arows.take(j as int));
        assert(base + robot.sensors@.map_values(|s: SensorDecl| robot_sensor_row(ps@, *robot, s)) + acts.take(j + 1).drop_last().map_values(
            |a: ActuatorDecl| robot_actuator_row(*robot, a)) == hw_row_views(rows@));
        let gate = has_gate(rows, act.name.as_str());
        if !gate {
            push_view(warnings, cat5("Actuator '", act.name.as_str(), "' on robot '", name, "' has no safety gate"));
        }
        assert(views(warnings@) =~= w0 + actuator_warnings(base, ps@, *robot, acts.take(j + 1)));
        let row = HardwareTraceRow {
            hardware_component: copy_string(&act.name),
            used_by: owned(name),
            source_location: cat4("robot ", name, " actuator ", act.name.as_str()),
            capability: copy_string(&act.actuator_type),
            provider: infer_actuator_provider(act.actuator_type.as_str()),
            verified: true,
            safety_rule: if str_contains(act.actuator_type.as_str(), "Drive") {
                Some(owned("max_speed"))
            } else {
                None
            },
            notes: None,
        };
        assert(row@ =~= arows[j as int]);
        push_hw(rows, row);
        push_view(used_a, copy_string(&act.name));
        j = j + 1;
        assert(hw_row_views(rows@) =~= base + srows + arows.take(j as int));
        assert(views(used_a@) =~= ua0 + acts.take(j as int).map_values(|a: ActuatorDecl| a.name@));
    }
    assert(arows.take(arows.len() as int) =~= arows);
    assert(acts.take(acts.len() as int) =~= acts);
    assert(hw_row_views(rows@) =~= base + robot_rows_of(ps@, *robot));
    let ghost e0 = views(errors@);
    match &robot.uses_hardware {
        Some(hw) => {
            if !profile_exists(ps, hw.as_str()) {
                push_view(errors, cat5("Robot '", name, "' uses undeclared hardware '", hw.as_str(), "'"));
            }
        },
        None => {},
    }
    assert(views(errors@) =~= e0 + undeclared_error(ps@, *robot));
}

/// Warnings for distinct keys that no robot uses.
fn warn_unused(keys: &Vec<String>, used: &Vec<String>, kind: &str, warnings: &mut Vec<String>)
    ensures
        views(final(warnings)@) == views(old(warnings)@) + unused_warnings(dedup(views(keys@)), views(used@), kind@),
{
    let ghost w0 = views(warnings@);
    let ghost ks = views(keys@);
    let mut seen: Vec<String> = Vec::new();
    let mut i: usize = 0;
    assert(ks.take(0) =~= seq![]);
    while i < keys.len()
        invariant
            i <= keys@.len(),
            ks == views(keys@),
            views(seen@) == dedup(ks.take(i as int)),
            views(warnings@) == w0 + unused_warnings(dedup(ks.take(i as int)), views(used@), kind@),
        decreases keys@.len() - i,
    {
        let key = keys[i].as_str();
        assert(ks.take(i + 1).drop_last() =~= ks.take(i as int));
        assert(ks.take(i + 1).last() == key@);
        if !list_contains(&seen, key) {
            let ghost d = views(seen@);
            push_view(&mut seen, owned(key));
            assert(views(seen@).drop_last() =~= d);
            if !list_contains(used, key) {
                push_view(warnings, cat5("Declared ", kind, " '", key, "' is unused"));
            }
            assert(views(warnings@) =~= w0 + unused_warnings(views(seen@), views(used@), kind@));
        }
        i = i + 1;
    }
    assert(ks.take(ks.len() as int) =~= ks);
}

/// Generate hardware-to-code traceability matrix from a parsed program.
pub fn hardware_traceability(program: &Program) -> (r: TraceabilityReport)
    ensures
        is_hardware_traceability(*program, r),
{
    let ps = &program.hardware_profiles;
    let mut rows: Vec<HardwareTraceRow> = Vec::new();
    let mut warnings: Vec<String> = Vec::new();
    let mut errors: Vec<String> = Vec::new();
    let mut skeys: Vec<String> = Vec::new();
    let mut akeys: Vec<String> = Vec::new();
    let mut used_s: Vec<String> = Vec::new();
    let mut used_a: Vec<String> = Vec::new();
    let mut i: usize = 0;
    while i < ps.len()
        invariant
            i <= ps@.len(),
            ps == &program.hardware_profiles,
            hw_row_views(rows@) == profiles_rows(ps@.take(i as int)),
            views(skeys@) == sensor_keys(ps@.take(i as int)),
            views(akeys@) == actuator_keys(ps@.take(i as int)),
        decreases ps@.len() - i,
    {
        assert(ps@.take(i + 1).drop_last() =~= ps@.take(i as int));
        assert(ps@.take(i + 1).last() == ps@[i as int]);
        emit_profile(&ps[i], &mut rows, &mut skeys, &mut akeys);
        i = i + 1;
    }
    assert(ps@.take(ps@.len() as int) =~= ps@);
    let robots = &program.robots;
    let mut i: usize = 0;
    assert(views(warnings@) =~= robots_warnings(ps@, robots@.take(0)));
    assert(views(errors@) =~= robots_errors(ps@, robots@.take(0)));
    assert(views(used_s@) =~= sensor_names(robots@.take(0)));
    assert(views(used_a@) =~= actuator_names(robots@.take(0)));
    assert(profiles_rows(ps@) =~= profiles_rows(ps@) + robots_rows(ps@, robots@.take(0)));
    while i < robots.len()
        invariant
            i <= robots@.len(),
            ps == &program.hardware_profiles,
            robots == &program.robots,
            hw_row_views(rows@) == profiles_rows(ps@) + robots_rows(ps@, robots@.take(i as int)),
            views(warnings@) == robots_warnings(ps@, robots@.take(i as int)),
            views(errors@) == robots_errors(ps@, robots@.take(i as int)),
            views(used_s@) == sensor_names(robots@.take(i as int)),
            views(used_a@) == actuator_names(robots@.take(i as int)),
            views(skeys@) == sensor_keys(ps@),
            views(akeys@) == actuator_keys(ps@),
        decreases robots@.len() - i,
    {
        assert(robots@.take(i + 1).drop_last() =~= robots@.take(i as int));
        assert(robots@.take(i + 1).last() == robots@[i as int]);
        emit_robot(ps, &robots[i], &mut rows, &mut warnings, &mut errors, &mut used_s, &mut used_a);
        i = i + 1;
    }
    assert(robots@.take(robots@.len() as int) =~= robots@);
    let ks = &program.kill_switches;
    let ghost r0 = hw_row_views(rows@);
    let mut i: usize = 0;
    while i < ks.len()
        invariant
            i <= ks@.len(),
            ks == &program.kill_switches,
            hw_row_views(rows@) == r0 + ks@.take(i as int).map_values(|k: KillSwitchDecl| kill_switch_row(k)),
        decreases ks@.len() - i,
    {
        let k = &ks[i];
        let row = HardwareTraceRow {
            hardware_component: copy_string(&k.name),
            used_by: owned("system"),
            source_location: cat2("kill_switch ", k.name.as_str()),
            capability: owned("emergency_stop"),
            provider: owned("KillSwitchProvider"),
            verified: true,
            safety_rule: Some(cat2("priority=", k.priority.as_str())),
            notes: Some(owned("stop_all_actuators")),
        };
        assert(row@ =~= kill_switch_row(*k));
        push_hw(&mut rows, row);
        i = i + 1;
        assert(hw_row_views(rows@) =~= r0 + ks@.take(i as int).map_values(|k: KillSwitchDecl| kill_switch_row(k)));
    }
    assert(ks@.take(ks@.len() as int) =~= ks@);
    let ghost w1 = views(warnings@);
    warn_unused(&skeys, &used_s, "sensor", &mut warnings);
    warn_unused(&akeys, &used_a, "actuator", &mut warnings);
    assert(views(warnings@) =~= hardware_warnings_spec(*program));
    assert(hw_row_views(rows@) =~= hardware_rows_spec(*program));
    TraceabilityReport { hardware_rows: rows, capability_rows: Vec::new(), warnings, errors }
}

/// A robot provides a capability by declaration or by its components.
pub open spec fn provides_spec(r: RobotDecl, cap: Seq<char>) -> bool {
    if views(r.exposes_capabilities@).contains(cap) {
        true
    } else if cap == "gps_navigation"@ {
        exists|i: int| 0 <= i < r.sensors@.len() && (#[trigger] r.sensors@[i].sensor_type@ == "GPS"@ || r.sensors@[i].sensor_type@ == "GNSS"@)
    } else if cap == "emergency_stop"@ {
        r.kill_switches@.len() > 0 || exists|i: int| 0 <= i < r.actuators@.len() && has_infix(#[trigger] r.actuators@[i].actuator_type@, "Drive"@)
    } else if cap == "obstacle_avoidance"@ {
        exists|i: int|
            0 <= i < r.sensors@.len() && (#[trigger] r.sensors@[i].sensor_type@ == "Lidar"@ || r.sensors@[i].sensor_type@ == "DepthCamera"@
                || r.sensors@[i].sensor_type@ == "Radar"@)
    } else {
        false
    }
}

pub open spec fn first_of(s: Seq<Seq<char>>) -> Option<Seq<char>> {
    if s.len() > 0 {
        Some(s[0])
    } else {
        None
    }
}

/// One capability-matrix row: a known required capability against one robot.
pub open spec fn cap_row(req: crate::ast::RequiresCapabilityDecl, d: crate::registry::DefinitionView, r: RobotDecl) -> CapRowView {
    CapRowView {
        capability: req.capability@,
        required_by: crate::minimum::required_by_spec(req),
        provided_by: r.name@,
        hardware: match r.uses_hardware {
            Some(h) => h@,
            None => seq![],
        },
        package: join_spec(d.minimum.required_packages, "+"@),
        provider: join_spec(d.minimum.required_providers, "+"@),
        safety_rule: first_of(d.minimum.required_safety_rules),
        status: if provides_spec(r, req.capability@) {
            "PASS"@
        } else {
            "FAIL"@
        },
        notes: Some(d.description),
    }
}

pub open spec fn req_cap_rows(req: crate::ast::RequiresCapabilityDecl, robots: Seq<RobotDecl>) -> Seq<CapRowView> {
    match lookup_spec(req.capability@) {
        Some(d) => robots.map_values(|r: RobotDecl| cap_row(req, d, r)),
        None => seq![],
    }
}

pub open spec fn unknown_error(req: crate::ast::RequiresCapabilityDecl) -> Seq<Seq<char>> {
    match lookup_spec(req.capability@) {
        Some(d) => seq![],
        None => seq!["Unknown capability '"@ + req.capability@ + "'"@],
    }
}

pub open spec fn capability_rows_spec(reqs: Seq<crate::ast::RequiresCapabilityDecl>, robots: Seq<RobotDecl>) -> Seq<CapRowView>
    decreases reqs.len(),
{
    if reqs.len() == 0 {
        seq![]
    } else {
        capability_rows_spec(reqs.drop_last(), robots) + req_cap_rows(reqs.last(), robots)
    }
}

pub open spec fn unknown_errors(reqs: Seq<crate::ast::RequiresCapabilityDecl>) -> Seq<Seq<char>>
    decreases reqs.len(),
{
    if reqs.len() == 0 {
        seq![]
    } else {
        unknown_errors(reqs.drop_last()) + unknown_error(reqs.last())
    }
}

/// Errors of the capability traceability matrix of a program.
pub open spec fn capability_errors_spec(p: Program) -> Seq<Seq<char>> {
    hardware_errors_spec(p) + unknown_errors(p.requires_capabilities@)
}

fn infer_provides(robot: &RobotDecl, capability: &str) -> (r: bool)
    ensures
        r == provides_spec(*robot, capability@),
{
    if list_contains(&robot.exposes_capabilities, capability) {
        return true;
    }
    if str_eq(capability, "gps_navigation") {
        let mut i: usize = 0;
        while i < robot.sensors.len()
            invariant
                i <= robot.sensors@.len(),
                forall|k: int| 0 <= k < i ==> !(#[trigger] robot.sensors@[k].sensor_type@ == "GPS"@ || robot.sensors@[k].sensor_type@ == "GNSS"@),
                capability@ == "gps_navigation"@,
                !views(robot.exposes_capabilities@).contains(capability@),
            decreases robot.sensors@.len() - i,
        {
            let t = robot.sensors[i].sensor_type.as_str();
            if str_eq(t, "GPS") || str_eq(t, "GNSS") {
                assert(robot.sensors@[i as int].sensor_type@ == "GPS"@ || robot.sensors@[i as int].sensor_type@ == "GNSS"@);
                return true;
            }
            i = i + 1;
        }
        false
    } else if str_eq(capability, "emergency_stop") {
        if robot.kill_switches.len() > 0 {
            return true;
        }
        let mut i: usize = 0;
        while i < robot.actuators.len()
            invariant
                i <= robot.actuators@.len(),
                forall|k: int| 0 <= k < i ==> !has_infix(#[trigger] robot.actuators@[k].actuator_type@, "Drive"@),
                capability@ == "emergency_stop"@,
                capability@ != "gps_navigation"@,
                robot.kill_switches@.len() == 0,
                !views(robot.exposes_capabilities@).contains(capability@),
            decreases robot.actuators@.len() - i,
        {
            if str_contains(robot.actuators[i].actuator_type.as_str(), "Drive") {
                assert(has_infix(robot.actuators@[i as int].actuator_type@, "Drive"@));
                return true;
            }
            i = i + 1;
        }
        false
    } else if str_eq(capability, "obstacle_avoidance") {
        let mut i: usize = 0;
        while i < robot.sensors.len()
            invariant
                i <= robot.sensors@.len(),
                forall|k: int|
                    0 <= k < i ==> !(#[trigger] robot.sensors@[k].sensor_type@ == "Lidar"@ || robot.sensors@[k].sensor_type@
                        == "DepthCamera"@ || robot.sensors@[k].sensor_type@ == "Radar"@),
                capability@ == "obstacle_avoidance"@,
                capability@ != "gps_navigation"@,
                capability@ != "emergency_stop"@,
                !views(robot.exposes_capabilities@).contains(capability@),
            decreases robot.sensors@.len() - i,
        {
            let t = robot.sensors[i].sensor_type.as_str();
            if str_eq(t, "Lidar") || str_eq(t, "DepthCamera") || str_eq(t, "Radar") {
                assert(robot.sensors@[i as int].sensor_type@ == "Lidar"@ || robot.sensors@[i as int].sensor_type@ == "DepthCamera"@
                    || robot.sensors@[i as int].sensor_type@ == "Radar"@);
                return true;
            }
            i = i + 1;
        }
        false
    } else {
        false
    }
}

/// Generate capability traceability matrix.
pub fn capability_traceability(program: &Program) -> (r: TraceabilityReport)
    ensures
        is_capability_traceability(*program, r),
{
    let mut report = hardware_traceability(program);
    let reqs = &program.requires_capabilities;
    let robots = &program.robots;
    let ghost e0 = views(report.errors@);
    let mut i: usize = 0;
    assert(cap_row_views(report.capability_rows@) =~= capability_rows_spec(reqs@.take(0), robots@));
    assert(views(report.errors@) =~= e0 + unknown_errors(reqs@.take(0)));
    while i < reqs.len()
        invariant
            i <= reqs@.len(),
            reqs == &program.requires_capabilities,
            robots == &program.robots,
            hw_row_views(report.hardware_rows@) == hardware_rows_spec(*program),
            views(report.warnings@) == hardware_warnings_spec(*program),
            e0 == hardware_errors_spec(*program),
            cap_row_views(report.capability_rows@) == capability_rows_spec(reqs@.take(i as int), robots@),
            views(report.errors@) == e0 + unknown_errors(reqs@.take(i as int)),
        decreases reqs@.len() - i,
    {
        let req = &reqs[i];
        assert(reqs@.take(i + 1).drop_last() =~= reqs@.take(i as int));
        assert(reqs@.take(i + 1).last() == *req);
        let cap_name = req.capability.as_str();
        let ghost c0 = cap_row_views(report.capability_rows@);
        let ghost er0 = views(report.errors@);
        match lookup_capability(cap_name) {
            Some(def) => {
                let mut k: usize = 0;
                while k < robots.len()
                    invariant
                        k <= robots@.len(),
                        robots == &program.robots,
                        def@ == lookup_spec(req.capability@).unwrap(),
                        lookup_spec(req.capability@) is Some,
                        cap_name@ == req.capability@,
                        hw_row_views(report.hardware_rows@) == hardware_rows_spec(*program),
                        views(report.warnings@) == hardware_warnings_spec(*program),
                        views(report.errors@) == er0,
                        cap_row_views(report.capability_rows@) == c0 + robots@.take(k as int).map_values(
                            |r: RobotDecl| cap_row(*req, def@, r),
                        ),
                    decreases robots@.len() - k,
                {
                    let robot = &robots[k];
                    let provided = list_contains(&robot.exposes_capabilities, cap_name) || infer_provides(robot, cap_name);
                    let row = CapabilityTraceRow {
                        capability: copy_string(&req.capability),
                        required_by: match &req.required_by {
                            Some(b) => copy_string(b),
                            None => owned("program"),
                        },
                        provided_by: copy_string(&robot.name),
                        hardware: match &robot.uses_hardware {
                            Some(h) => copy_string(h),
                            None => String::new(),
                        },
                        package: join(&def.minimum.required_packages, "+"),
                        provider: join(&def.minimum.required_providers, "+"),
                        safety_rule: if def.minimum.required_safety_rules.len() > 0 {
                            Some(copy_string(&def.minimum.required_safety_rules[0]))
                        } else {
                            None
                        },
                        status: if provided {
                            owned("PASS")
                        } else {
                            owned("FAIL")
                        },
                        notes: Some(copy_string(&def.description)),
                    };
                    assert(row@ =~= cap_row(*req, def@, *robot));
                    let ghost cb = report.capability_rows@;
                    report.capability_rows.push(row);
                    assert(cap_row_views(report.capability_rows@) =~= cap_row_views(cb).push(row@));
                    assert(robots@.take(k + 1).map_values(|r: RobotDecl| cap_row(*req, def@, r)) =~= robots@.take(k as int).map_values(
                        |r: RobotDecl| cap_row(*req, def@, r)).push(cap_row(*req, def@, *robot)));
                    k = k + 1;
                    assert(cap_row_views(report.capability_rows@) =~= c0 + robots@.take(k as int).map_values(
                        |r: RobotDecl| cap_row(*req, def@, r),
                    ));
                }
                assert(robots@.take(robots@.len() as int) =~= robots@);
            },
            None => {
                push_view(&mut report.errors, cat3("Unknown capability '", cap_name, "'"));
            },
        }
        assert(cap_row_views(report.capability_rows@) =~= capability_rows_spec(reqs@.take(i + 1), robots@));
        assert(views(report.errors@) =~= e0 + unknown_errors(reqs@.take(i + 1)));
        i = i + 1;
    }
    assert(reqs@.take(reqs@.len() as int) =~= reqs@);
    report
}


/// The capability traceability report carries the hardware traceability
/// matrix and its warnings unchanged, and its errors start with the hardware errors.
pub proof fn law_capability_report_extends_hardware_report(p: Program)
    ensures
        hardware_errors_spec(p).is_prefix_of(capability_errors_spec(p)),
        capability_errors_spec(p).len() == hardware_errors_spec(p).len() + unknown_errors(p.requires_capabilities@).len(),
{
    assert(capability_errors_spec(p).subrange(0, hardware_errors_spec(p).len() as int) =~= hardware_errors_spec(p));
}


/// The capability traceability report of a program has the same hardware
/// rows and warnings as its hardware traceability report, and its errors
/// start with the hardware report's errors.
pub proof fn law_capability_report_matches_hardware_report(p: Program, hw: TraceabilityReport, cap: TraceabilityReport)
    requires
        is_hardware_traceability(p, hw),
        is_capability_traceability(p, cap),
    ensures
        hw_row_views(cap.hardware_rows@) == hw_row_views(hw.hardware_rows@),
        views(cap.warnings@) == views(hw.warnings@),
        views(hw.errors@).is_prefix_of(views(cap.errors@)),
{
    law_capability_report_extends_hardware_report(p);
}

/// Rows a list of sensor types of a profile yields: one per hardware capability of each.
pub open spec fn sensors_count(ts: Seq<Seq<char>>) -> nat
    decreases ts.len(),
{
    if ts.len() == 0 {
        0
    } else {
        sensors_count(ts.drop_last()) + sensor_caps_spec(ts.last()).len()
    }
}

pub open spec fn actuators_count(ts: Seq<Seq<char>>) -> nat
    decreases ts.len(),
{
    if ts.len() == 0 {
        0
    } else {
        actuators_count(ts.drop_last()) + actuator_caps_spec(ts.last()).len()
    }
}

pub open spec fn components_count(cs: Seq<HardwareComponentDecl>) -> nat
    decreases cs.len(),
{
    if cs.len() == 0 {
        0
    } else {
        components_count(cs.drop_last()) + cs.last().capabilities@.len()
    }
}

/// Rows one hardware profile yields.
pub open spec fn profile_count(h: HardwareDecl) -> nat {
    sensors_count(views(h.sensors@)) + actuators_count(views(h.actuators@)) + h.connectivity@.len()
        + components_count(h.components@)
}

pub open spec fn profiles_count(ps: Seq<HardwareDecl>) -> nat
    decreases ps.len(),
{
    if ps.len() == 0 {
        0
    } else {
        profiles_count(ps.drop_last()) + profile_count(ps.last())
    }
}

/// Rows the robots yield: one per declared sensor and actuator.
pub open spec fn robots_count(rs: Seq<RobotDecl>) -> nat
    decreases rs.len(),
{
    if rs.len() == 0 {
        0
    } else {
        robots_count(rs.drop_last()) + rs.last().sensors@.len() + rs.last().actuators@.len()
    }
}

proof fn lemma_sensors_rows_len(hw: Seq<char>, ts: Seq<Seq<char>>)
    ensures
        sensors_rows(hw, ts).len() == sensors_count(ts),
    decreases ts.len(),
{
    if ts.len() > 0 {
        lemma_sensors_rows_len(hw, ts.drop_last());
    }
}

proof fn lemma_actuators_rows_len(hw: Seq<char>, ts: Seq<Seq<char>>)
    ensures
        actuators_rows(hw, ts).len() == actuators_count(ts),
    decreases ts.len(),
{
    if ts.len() > 0 {
        lemma_actuators_rows_len(hw, ts.drop_last());
    }
}

proof fn lemma_components_rows_len(hw: Seq<char>, cs: Seq<HardwareComponentDecl>)
    ensures
        components_rows(hw, cs).len() == components_count(cs),
    decreases cs.len(),
{
    if cs.len() > 0 {
        lemma_components_rows_len(hw, cs.drop_last());
    }
}

proof fn lemma_profiles_rows_len(ps: Seq<HardwareDecl>)
    ensures
        profiles_rows(ps).len() == profiles_count(ps),
    decreases ps.len(),
{
    if ps.len() > 0 {
        let h = ps.last();
        lemma_profiles_rows_len(ps.drop_last());
        lemma_sensors_rows_len(h.name@, views(h.sensors@));
        lemma_actuators_rows_len(h.name@, views(h.actuators@));
        lemma_components_rows_len(h.name@, h.components@);
    }
}

proof fn lemma_robots_rows_len(ps: Seq<HardwareDecl>, rs: Seq<RobotDecl>)
    ensures
        robots_rows(ps, rs).len() == robots_count(rs),
    decreases rs.len(),
{
    if rs.len() > 0 {
        lemma_robots_rows_len(ps, rs.drop_last());
    }
}

/// The hardware matrix has one row per hardware capability of each sensor
/// and actuator type of each profile, one per connectivity entry, one per
/// capability of each detailed component, one per sensor and actuator of
/// each robot, and one per kill switch.
pub proof fn law_hardware_row_count(p: Program)
    ensures
        hardware_rows_spec(p).len() == profiles_count(p.hardware_profiles@) + robots_count(p.robots@)
            + p.kill_switches@.len(),
{
    lemma_profiles_rows_len(p.hardware_profiles@);
    lemma_robots_rows_len(p.hardware_profiles@, p.robots@);
}

proof fn lemma_profile_rows_verified(ps: Seq<HardwareDecl>)
    ensures
        forall|k: int| 0 <= k < profiles_rows(ps).len() ==> (#[trigger] profiles_rows(ps)[k]).verified,
    decreases ps.len(),
{
    if ps.len() > 0 {
        let h = ps.last();
        lemma_profile_rows_verified(ps.drop_last());
        lemma_sensors_rows_verified(h.name@, views(h.sensors@));
        lemma_actuators_rows_verified(h.name@, views(h.actuators@));
        lemma_components_rows_verified(h.name@, h.components@);
        let a = profiles_rows(ps.drop_last());
        let b = profile_rows(h);
        assert forall|k: int| 0 <= k < profiles_rows(ps).len() implies (#[trigger] profiles_rows(ps)[k]).verified by {
            if k < a.len() {
                assert(profiles_rows(ps)[k] == a[k]);
            } else {
                assert(profiles_rows(ps)[k] == b[k - a.len()]);
            }
        }
    }
}

proof fn lemma_sensors_rows_verified(hw: Seq<char>, ts: Seq<Seq<char>>)
    ensures
        forall|k: int| 0 <= k < sensors_rows(hw, ts).len() ==> (#[trigger] sensors_rows(hw, ts)[k]).verified,
    decreases ts.len(),
{
    if ts.len() > 0 {
        lemma_sensors_rows_verified(hw, ts.drop_last());
        let a = sensors_rows(hw, ts.drop_last());
        let b = sensor_cap_rows(hw, ts.last(), sensor_caps_spec(ts.last()));
        assert forall|k: int| 0 <= k < sensors_rows(hw, ts).len() implies (#[trigger] sensors_rows(hw, ts)[k]).verified by {
            if k < a.len() {
                assert(sensors_rows(hw, ts)[k] == a[k]);
            } else {
                assert(sensors_rows(hw, ts)[k] == b[k - a.len()]);
            }
        }
    }
}

proof fn lemma_actuators_rows_verified(hw: Seq<char>, ts: Seq<Seq<char>>)
    ensures
        forall|k: int| 0 <= k < actuators_rows(hw, ts).len() ==> (#[trigger] actuators_rows(hw, ts)[k]).verified,
    decreases ts.len(),
{
    if ts.len() > 0 {
        lemma_actuators_rows_verified(hw, ts.drop_last());
        let a = actuators_rows(hw, ts.drop_last());
        let b = actuator_cap_rows(hw, ts.last(), actuator_caps_spec(ts.last()));
        assert forall|k: int| 0 <= k < actuators_rows(hw, ts).len() implies (#[trigger] actuators_rows(hw, ts)[k]).verified by {
            if k < a.len() {
                assert(actuators_rows(hw, ts)[k] == a[k]);
            } else {
                assert(actuators_rows(hw, ts)[k] == b[k - a.len()]);
            }
        }
    }
}

proof fn lemma_components_rows_verified(hw: Seq<char>, cs: Seq<HardwareComponentDecl>)
    ensures
        forall|k: int| 0 <= k < components_rows(hw, cs).len() ==> (#[trigger] components_rows(hw, cs)[k]).verified,
    decreases cs.len(),
{
    if cs.len() > 0 {
        lemma_components_rows_verified(hw, cs.drop_last());
        let a = components_rows(hw, cs.drop_last());
        let b = component_rows(hw, cs.last());
        assert forall|k: int| 0 <= k < components_rows(hw, cs).len() implies (#[trigger] components_rows(hw, cs)[k]).verified by {
            if k < a.len() {
                assert(components_rows(hw, cs)[k] == a[k]);
            } else {
                assert(components_rows(hw, cs)[k] == b[k - a.len()]);
            }
        }
    }
}

/// A row of a robot sensor of the program.
pub open spec fn is_robot_sensor_row(ps: Seq<HardwareDecl>, rs: Seq<RobotDecl>, row: HwRowView) -> bool {
    exists|i: int, j: int|
        0 <= i < rs.len() && 0 <= j < rs[i].sensors@.len() && row == robot_sensor_row(ps, rs[i], #[trigger] rs[i].sensors@[j])
}

proof fn lemma_robots_rows_shape(ps: Seq<HardwareDecl>, rs: Seq<RobotDecl>)
    ensures
        forall|k: int|
            0 <= k < robots_rows(ps, rs).len() ==> (#[trigger] robots_rows(ps, rs)[k]).verified || is_robot_sensor_row(
                ps,
                rs,
                robots_rows(ps, rs)[k],
            ),
        forall|i: int, j: int|
            0 <= i < rs.len() && 0 <= j < rs[i].sensors@.len() ==> robots_rows(ps, rs).contains(
                robot_sensor_row(ps, rs[i], #[trigger] rs[i].sensors@[j]),
            ),
        forall|i: int, j: int|
            0 <= i < rs.len() && 0 <= j < rs[i].actuators@.len() ==> robots_rows(ps, rs).contains(
                robot_actuator_row(rs[i], #[trigger] rs[i].actuators@[j]),
            ),
    decreases rs.len(),
{
    if rs.len() > 0 {
        let d = rs.drop_last();
        let r = rs.last();
        lemma_robots_rows_shape(ps, d);
        let a = robots_rows(ps, d);
        let b = robot_rows_of(ps, r);
        let all = robots_rows(ps, rs);
        assert(all == a + b);
        let sr = r.sensors@.map_values(|s: SensorDecl| robot_sensor_row(ps, r, s));
        let ar = r.actuators@.map_values(|x: ActuatorDecl| robot_actuator_row(r, x));
        assert(b == sr + ar);
        assert forall|k: int| 0 <= k < all.len() implies (#[trigger] all[k]).verified || is_robot_sensor_row(ps, rs, all[k]) by {
            if k < a.len() {
                assert(all[k] == a[k]);
                if !a[k].verified {
                    let (i, j) = choose|i: int, j: int|
                        0 <= i < d.len() && 0 <= j < d[i].sensors@.len() && a[k] == robot_sensor_row(ps, d[i], #[trigger] d[i].sensors@[j]);
                    assert(rs[i] == d[i]);
                    assert(all[k] == robot_sensor_row(ps, rs[i], rs[i].sensors@[j]));
                }
            } else if k < a.len() + sr.len() {
                let j = k - a.len();
                assert(all[k] == sr[j]);
                assert(rs[rs.len() - 1] == r);
                assert(all[k] == robot_sensor_row(ps, rs[rs.len() - 1], rs[rs.len() - 1].sensors@[j]));
            } else {
                assert(all[k] == ar[k - a.len() - sr.len()]);
            }
        }
        assert forall|i: int, j: int| 0 <= i < rs.len() && 0 <= j < rs[i].sensors@.len() implies all.contains(
            robot_sensor_row(ps, rs[i], #[trigger] rs[i].sensors@[j]),
        ) by {
            if i < d.len() {
                assert(rs[i] == d[i]);
                let x = robot_sensor_row(ps, d[i], d[i].sensors@[j]);
                assert(a.contains(x));
                let k = choose|k: int| 0 <= k < a.len() && a[k] == x;
                assert(all[k] == x);
            } else {
                assert(rs[i] == r);
                assert(all[a.len() + j] == sr[j]);
            }
        }
        assert forall|i: int, j: int| 0 <= i < rs.len() && 0 <= j < rs[i].actuators@.len() implies all.contains(
            robot_actuator_row(rs[i], #[trigger] rs[i].actuators@[j]),
        ) by {
            if i < d.len() {
                assert(rs[i] == d[i]);
                let x = robot_actuator_row(d[i], d[i].actuators@[j]);
                assert(a.contains(x));
                let k = choose|k: int| 0 <= k < a.len() && a[k] == x;
                assert(all[k] == x);
            } else {
                assert(rs[i] == r);
                assert(all[a.len() + sr.len() + j] == ar[j]);
            }
        }
    }
}

/// Each sensor of each robot yields a row naming the sensor, the robot and
/// the sensor type, verified exactly when the robot uses no profile or a
/// declared one; each actuator yields a row that carries the `max_speed`
/// rule exactly when its type contains `Drive`; and only robot sensor rows
/// can be unverified.
pub proof fn law_hardware_rows_per_robot(p: Program)
    ensures
        forall|k: int|
            0 <= k < hardware_rows_spec(p).len() && !(#[trigger] hardware_rows_spec(p)[k]).verified ==> is_robot_sensor_row(
                p.hardware_profiles@,
                p.robots@,
                hardware_rows_spec(p)[k],
            ),
        forall|i: int, j: int|
            0 <= i < p.robots@.len() && 0 <= j < p.robots@[i].sensors@.len() ==> {
                let r = p.robots@[i];
                let s = #[trigger] p.robots@[i].sensors@[j];
                let row = robot_sensor_row(p.hardware_profiles@, r, s);
                &&& hardware_rows_spec(p).contains(row)
                &&& row.hardware_component == s.name@ && row.used_by == r.name@ && row.capability == s.sensor_type@
                &&& row.verified == (match r.uses_hardware {
                    Some(h) => profile_declared(p.hardware_profiles@, h@),
                    None => true,
                })
                &&& row.notes == opt_view(r.uses_hardware)
            },
        forall|i: int, j: int|
            0 <= i < p.robots@.len() && 0 <= j < p.robots@[i].actuators@.len() ==> {
                let a = #[trigger] p.robots@[i].actuators@[j];
                let row = robot_actuator_row(p.robots@[i], a);
                &&& hardware_rows_spec(p).contains(row)
                &&& (row.safety_rule == Some("max_speed"@) <==> has_infix(a.actuator_type@, "Drive"@))
            },
{
    let ps = p.hardware_profiles@;
    let rs = p.robots@;
    lemma_profile_rows_verified(ps);
    lemma_robots_rows_shape(ps, rs);
    let a = profiles_rows(ps);
    let b = robots_rows(ps, rs);
    let c = p.kill_switches@.map_values(|k: KillSwitchDecl| kill_switch_row(k));
    let all = hardware_rows_spec(p);
    assert(all == a + b + c);
    assert forall|k: int| 0 <= k < all.len() && !(#[trigger] all[k]).verified implies is_robot_sensor_row(ps, rs, all[k]) by {
        if k < a.len() {
            assert(all[k] == a[k]);
        } else if k < a.len() + b.len() {
            assert(all[k] == b[k - a.len()]);
        } else {
            assert(all[k] == c[k - a.len() - b.len()]);
        }
    }
    assert forall|x: HwRowView| b.contains(x) implies all.contains(x) by {
        let k = choose|k: int| 0 <= k < b.len() && b[k] == x;
        assert(all[a.len() + k] == x);
    }
}

} // verus!
