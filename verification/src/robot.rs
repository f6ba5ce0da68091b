//! Robot capability inference from hardware, packages, and safety rules.
use vstd::prelude::*;
use crate::ast::{HardwareDecl, Program, RobotDecl};
use crate::registry::{
    contribution_views, def_views, lookup_capability, lookup_spec, package_contributions, CapabilityDefinition, CapabilityRequirement, ContributionView,
    DefinitionView, RequirementView, contributions_spec, lits,
};
use crate::text::{lemma_views_push, copy_list, copy_string, has_infix, list_contains, owned, str_contains, str_eq, views};

verus! {

/// Single inferred or declared robot capability row.
#[derive(Debug, Clone, PartialEq, Eq)]
pub struct RobotCapabilityRow {
    pub capability: String,
    pub source: String,
    pub required_components: Vec<String>,
    pub status: String,
    pub notes: Option<String>,
}

/// Robot capability analysis report.
#[derive(Debug, Clone, PartialEq, Eq)]
pub struct RobotCapabilityReport {
    pub robot: String,
    pub rows: Vec<RobotCapabilityRow>,
    pub declared: Vec<String>,
    pub inferred: Vec<String>,
}

/// Mathematical value of a [`RobotCapabilityRow`].
#[verifier::ext_equal]
pub struct RowView {
    pub capability: Seq<char>,
    pub source: Seq<char>,
    pub required_components: Seq<Seq<char>>,
    pub status: Seq<char>,
    pub notes: Option<Seq<char>>,
}

pub open spec fn opt_view(o: Option<String>) -> Option<Seq<char>> {
    match o {
        Some(s) => Some(s@),
        None => None,
    }
}

impl View for RobotCapabilityRow {
    type V = RowView;

    open spec fn view(&self) -> RowView {
        RowView {
            capability: self.capability@,
            source: self.source@,
            required_components: views(self.required_components@),
            status: self.status@,
            notes: opt_view(self.notes),
        }
    }
}

pub open spec fn row_views(v: Seq<RobotCapabilityRow>) -> Seq<RowView> {
    v.map_values(|r: RobotCapabilityRow| r@)
}

pub open spec fn row_caps(v: Seq<RobotCapabilityRow>) -> Seq<Seq<char>> {
    v.map_values(|r: RobotCapabilityRow| r.capability@)
}

/// The set of members of a sequence.
pub open spec fn seqset(s: Seq<Seq<char>>) -> Set<Seq<char>> {
    Set::new(|t: Seq<char>| s.contains(t))
}

pub proof fn lemma_seqset_concat(a: Seq<Seq<char>>, b: Seq<Seq<char>>)
    ensures
        seqset(a + b) == seqset(a).union(seqset(b)),
{
    assert forall|t: Seq<char>| seqset(a + b).contains(t) <==> seqset(a).union(seqset(b)).contains(t) by {
        if (a + b).contains(t) {
            let k = choose|k: int| 0 <= k < (a + b).len() && (a + b)[k] == t;
            if k < a.len() {
                assert(a[k] == t);
            } else {
                assert(b[k - a.len()] == t);
            }
        }
        if a.contains(t) {
            let k = choose|k: int| 0 <= k < a.len() && a[k] == t;
            assert((a + b)[k] == t);
        }
        if b.contains(t) {
            let k = choose|k: int| 0 <= k < b.len() && b[k] == t;
            assert((a + b)[a.len() + k] == t);
        }
    }
    assert(seqset(a + b) =~= seqset(a).union(seqset(b)));
}

/// The set of strings in a list.
pub open spec fn strset(v: Seq<String>) -> Set<Seq<char>> {
    seqset(views(v))
}

/// Some candidate is a member of `set`.
pub open spec fn any_of(set: Set<Seq<char>>, candidates: Seq<Seq<char>>) -> bool {
    exists|i: int| 0 <= i < candidates.len() && set.contains(#[trigger] candidates[i])
}

/// Index of the last hardware profile named `name`, or -1.
pub open spec fn last_hw(p: Seq<HardwareDecl>, name: Seq<char>) -> int
    decreases p.len(),
{
    if p.len() == 0 {
        -1
    } else if p.last().name@ == name {
        p.len() - 1
    } else {
        last_hw(p.drop_last(), name)
    }
}

/// The hardware profile a robot links to, when it is declared.
pub open spec fn linked_hw(program: Program, robot: RobotDecl) -> Option<HardwareDecl> {
    match robot.uses_hardware {
        Some(h) => {
            let i = last_hw(program.hardware_profiles@, h@);
            if i >= 0 {
                Some(program.hardware_profiles@[i])
            } else {
                None
            }
        },
        None => None,
    }
}

/// Sensor types of a robot and of its linked hardware profile.
pub open spec fn sensor_types(program: Program, robot: RobotDecl) -> Set<Seq<char>> {
    let own = Set::new(
        |t: Seq<char>| exists|i: int| 0 <= i < robot.sensors@.len() && robot.sensors@[i].sensor_type@ == t,
    );
    match linked_hw(program, robot) {
        Some(hw) => own.union(strset(hw.sensors@)),
        None => own,
    }
}

/// Actuator types of a robot and of its linked hardware profile.
pub open spec fn actuator_types(program: Program, robot: RobotDecl) -> Set<Seq<char>> {
    let own = Set::new(
        |t: Seq<char>|
            exists|i: int| 0 <= i < robot.actuators@.len() && robot.actuators@[i].actuator_type@ == t,
    );
    match linked_hw(program, robot) {
        Some(hw) => own.union(strset(hw.actuators@)),
        None => own,
    }
}

/// Connectivity of a robot's linked hardware profile.
pub open spec fn connectivity_types(program: Program, robot: RobotDecl) -> Set<Seq<char>> {
    match linked_hw(program, robot) {
        Some(hw) => strset(hw.connectivity@),
        None => Set::empty(),
    }
}

/// `s` extended by `cap` when `cond` holds and `cap` is not yet listed.
pub open spec fn add_if(s: Seq<Seq<char>>, cond: bool, cap: Seq<char>) -> Seq<Seq<char>> {
    if cond && !s.contains(cap) {
        s.push(cap)
    } else {
        s
    }
}

/// First occurrences of the members of `s`, in order.
pub open spec fn dedup(s: Seq<Seq<char>>) -> Seq<Seq<char>>
    decreases s.len(),
{
    if s.len() == 0 {
        seq![]
    } else {
        add_if(dedup(s.drop_last()), true, s.last())
    }
}

/// The robot runs a mission named `Patrol`.
pub open spec fn patrol_mission(robot: RobotDecl) -> bool {
    match robot.mission {
        Some(m) => match m.name {
            Some(n) => n@ == "Patrol"@,
            None => false,
        },
        None => false,
    }
}

/// Capabilities inferred from component combinations and the mission.
pub open spec fn inferred_from(
    sensors: Set<Seq<char>>,
    actuators: Set<Seq<char>>,
    conn: Set<Seq<char>>,
    has_kill_switch: bool,
    has_permissions: bool,
    patrol: bool,
) -> Seq<Seq<char>> {
    let s1 = add_if(
        seq![],
        any_of(sensors, seq!["GPS"@, "GNSS"@]) && any_of(actuators, seq!["DifferentialDrive"@]),
        "gps_navigation"@,
    );
    let s2 = add_if(s1, any_of(sensors, seq!["Lidar"@, "DepthCamera"@, "Radar"@]), "obstacle_avoidance"@);
    let s3 = add_if(
        s2,
        any_of(sensors, seq!["Lidar"@, "Camera"@]) && any_of(actuators, seq!["DifferentialDrive"@]),
        "autonomous_navigation"@,
    );
    let s4 = add_if(s3, any_of(conn, seq!["WiFi"@, "LTE"@, "FiveG"@, "MQTT"@]), "telemetry_streaming"@);
    let s5 = add_if(s4, any_of(conn, seq!["WiFi"@, "LTE"@, "FiveG"@, "Bluetooth"@]), "remote_control"@);
    let s6 = add_if(
        s5,
        has_kill_switch || (exists|a: Seq<char>| actuators.contains(a) && has_infix(a, "Drive"@)),
        "emergency_stop"@,
    );
    let s7 = add_if(s6, sensors.contains("Camera"@), "vision_processing"@);
    let s8 = add_if(s7, has_permissions, "secure_communication"@);
    let s9 = add_if(s8, patrol, "gps_navigation"@);
    let s10 = add_if(s9, patrol, "obstacle_avoidance"@);
    let s11 = add_if(s10, patrol, "emergency_stop"@);
    add_if(s11, patrol, "telemetry_streaming"@)
}

/// Capabilities inferred for a robot of a program.
pub open spec fn inferred_caps(program: Program, robot: RobotDecl) -> Seq<Seq<char>> {
    inferred_from(
        sensor_types(program, robot),
        actuator_types(program, robot),
        connectivity_types(program, robot),
        robot.kill_switches@.len() > 0,
        robot.has_permissions,
        patrol_mission(robot),
    )
}

/// Components named by a minimum requirement, in table order.
pub open spec fn components_spec(r: RequirementView) -> Seq<Seq<char>> {
    r.any_of_sensors + r.any_of_actuators + r.any_of_connectivity + r.required_packages
}

/// The available components meet the minimum of the registered capability.
pub open spec fn satisfies_spec(
    cap: Seq<char>,
    sensors: Set<Seq<char>>,
    actuators: Set<Seq<char>>,
    conn: Set<Seq<char>>,
) -> bool {
    match lookup_spec(cap) {
        None => false,
        Some(d) => {
            &&& (d.minimum.any_of_sensors.len() == 0 || any_of(sensors, d.minimum.any_of_sensors))
            &&& (d.minimum.any_of_actuators.len() == 0 || any_of(actuators, d.minimum.any_of_actuators))
            &&& (d.minimum.any_of_connectivity.len() == 0 || any_of(conn, d.minimum.any_of_connectivity))
        },
    }
}

/// The report row of one capability of a robot.
pub open spec fn row_spec(program: Program, robot: RobotDecl, cap: Seq<char>) -> RowView {
    let declared = views(robot.exposes_capabilities@).contains(cap);
    let inferred = inferred_caps(program, robot).contains(cap);
    let def = lookup_spec(cap);
    RowView {
        capability: cap,
        source: if declared && inferred {
            "declared+inferred"@
        } else if declared {
            "declared"@
        } else {
            "inferred"@
        },
        required_components: match def {
            Some(d) => components_spec(d.minimum),
            None => seq![],
        },
        status: if satisfies_spec(
            cap,
            sensor_types(program, robot),
            actuator_types(program, robot),
            connectivity_types(program, robot),
        ) {
            "PASS"@
        } else {
            "PARTIAL"@
        },
        notes: match def {
            Some(d) => Some(d.description),
            None => None,
        },
    }
}

/// `report` is the capability analysis of `robot` within `program`.
pub open spec fn report_of(program: Program, robot: RobotDecl, report: RobotCapabilityReport) -> bool {
    &&& report.robot@ == robot.name@
    &&& views(report.declared@) == views(robot.exposes_capabilities@)
    &&& views(report.inferred@) == inferred_caps(program, robot)
    &&& row_caps(report.rows@) == dedup(views(robot.exposes_capabilities@) + inferred_caps(program, robot))
    &&& forall|k: int|
        0 <= k < report.rows@.len() ==> #[trigger] report.rows@[k]@ == row_spec(
            program,
            robot,
            report.rows@[k].capability@,
        )
}

/// `r` holds the capability analysis of each robot of the program, in order.
pub open spec fn is_inference(program: Program, r: Seq<RobotCapabilityReport>) -> bool {
    &&& r.len() == program.robots@.len()
    &&& forall|i: int| 0 <= i < r.len() ==> report_of(program, program.robots@[i], #[trigger] r[i])
}

/// Infer robot capabilities from program structure.
pub fn infer_robot_capabilities(program: &Program) -> (r: Vec<RobotCapabilityReport>)
    ensures
        is_inference(*program, r@),
{
    let mut out: Vec<RobotCapabilityReport> = Vec::new();
    let mut i: usize = 0;
    while i < program.robots.len()
        invariant
            i <= program.robots@.len(),
            out@.len() == i,
            forall|k: int| 0 <= k < i ==> report_of(*program, program.robots@[k], #[trigger] out@[k]),
        decreases program.robots@.len() - i,
    {
        out.push(analyze_robot(program, &program.robots[i]));
        i = i + 1;
    }
    out
}


/// Index of the last profile named `name` lies in the profile list.
proof fn lemma_last_hw_range(p: Seq<HardwareDecl>, name: Seq<char>)
    ensures
        -1 <= last_hw(p, name) < p.len(),
        last_hw(p, name) >= 0 ==> p[last_hw(p, name)].name@ == name,
    decreases p.len(),
{
    if p.len() > 0 && p.last().name@ != name {
        lemma_last_hw_range(p.drop_last(), name);
    }
}

fn find_hardware(profiles: &Vec<HardwareDecl>, name: &str) -> (r: Option<usize>)
    ensures
        match r {
            Some(i) => i as int == last_hw(profiles@, name@),
            None => last_hw(profiles@, name@) == -1,
        },
{
    let mut i = profiles.len();
    assert(profiles@.take(i as int) =~= profiles@);
    while i > 0
        invariant
            i <= profiles@.len(),
            last_hw(profiles@, name@) == last_hw(profiles@.take(i as int), name@),
        decreases i,
    {
        assert(profiles@.take(i as int).last() == profiles@[i - 1]);
        if str_eq(profiles[i - 1].name.as_str(), name) {
            return Some(i - 1);
        }
        assert(profiles@.take(i as int).drop_last() =~= profiles@.take(i - 1));
        i = i - 1;
    }
    None
}

/// `v` extended by the strings of `w`.
fn extend_strings(v: &mut Vec<String>, w: &Vec<String>)
    ensures
        views(final(v)@) == views(old(v)@) + views(w@),
{
    let ghost start = views(v@);
    let mut i: usize = 0;
    while i < w.len()
        invariant
            i <= w@.len(),
            views(v@) == start + views(w@).take(i as int),
        decreases w@.len() - i,
    {
        let ghost before = v@;
        let c = copy_string(&w[i]);
        v.push(c);
        proof { lemma_views_push(before, c); }
        i = i + 1;
        assert(views(v@) =~= start + views(w@).take(i as int));
    }
    assert(views(w@).take(w@.len() as int) =~= views(w@));
}

/// Sensor, actuator and connectivity types available to a robot.
fn collect_types(program: &Program, robot: &RobotDecl) -> (r: (Vec<String>, Vec<String>, Vec<String>))
    ensures
        strset(r.0@) == sensor_types(*program, *robot),
        strset(r.1@) == actuator_types(*program, *robot),
        strset(r.2@) == connectivity_types(*program, *robot),
{
    let mut sensors: Vec<String> = Vec::new();
    let mut i: usize = 0;
    while i < robot.sensors.len()
        invariant
            i <= robot.sensors@.len(),
            views(sensors@) == robot.sensors@.take(i as int).map_values(|s: crate::ast::SensorDecl| s.sensor_type@),
        decreases robot.sensors@.len() - i,
    {
        let ghost before = sensors@;
        let c = copy_string(&robot.sensors[i].sensor_type);
        sensors.push(c);
        proof { lemma_views_push(before, c); }
        i = i + 1;
        assert(views(sensors@) =~= robot.sensors@.take(i as int).map_values(|s: crate::ast::SensorDecl| s.sensor_type@));
    }
    let mut actuators: Vec<String> = Vec::new();
    let mut i: usize = 0;
    while i < robot.actuators.len()
        invariant
            i <= robot.actuators@.len(),
            views(actuators@) == robot.actuators@.take(i as int).map_values(|a: crate::ast::ActuatorDecl| a.actuator_type@),
        decreases robot.actuators@.len() - i,
    {
        let ghost before = actuators@;
        let c = copy_string(&robot.actuators[i].actuator_type);
        actuators.push(c);
        proof { lemma_views_push(before, c); }
        i = i + 1;
        assert(views(actuators@) =~= robot.actuators@.take(i as int).map_values(|a: crate::ast::ActuatorDecl| a.actuator_type@));
    }
    assert(robot.sensors@.take(robot.sensors@.len() as int) =~= robot.sensors@);
    assert(robot.actuators@.take(robot.actuators@.len() as int) =~= robot.actuators@);
    let ghost own_s = views(sensors@);
    let ghost own_a = views(actuators@);
    assert(seqset(own_s) =~= Set::new(
        |t: Seq<char>| exists|i: int| 0 <= i < robot.sensors@.len() && robot.sensors@[i].sensor_type@ == t,
    )) by {
        assert forall|t: Seq<char>| seqset(own_s).contains(t) implies exists|i: int|
            0 <= i < robot.sensors@.len() && robot.sensors@[i].sensor_type@ == t by {
            let k = choose|k: int| 0 <= k < own_s.len() && own_s[k] == t;
            assert(robot.sensors@[k].sensor_type@ == t);
        }
        assert forall|t: Seq<char>| (exists|i: int|
            0 <= i < robot.sensors@.len() && robot.sensors@[i].sensor_type@ == t) implies seqset(own_s).contains(t) by {
            let k = choose|k: int| 0 <= k < robot.sensors@.len() && robot.sensors@[k].sensor_type@ == t;
            assert(own_s[k] == t);
        }
    }
    assert(seqset(own_a) =~= Set::new(
        |t: Seq<char>| exists|i: int| 0 <= i < robot.actuators@.len() && robot.actuators@[i].actuator_type@ == t,
    )) by {
        assert forall|t: Seq<char>| seqset(own_a).contains(t) implies exists|i: int|
            0 <= i < robot.actuators@.len() && robot.actuators@[i].actuator_type@ == t by {
            let k = choose|k: int| 0 <= k < own_a.len() && own_a[k] == t;
            assert(robot.actuators@[k].actuator_type@ == t);
        }
        assert forall|t: Seq<char>| (exists|i: int|
            0 <= i < robot.actuators@.len() && robot.actuators@[i].actuator_type@ == t) implies seqset(own_a).contains(t) by {
            let k = choose|k: int| 0 <= k < robot.actuators@.len() && robot.actuators@[k].actuator_type@ == t;
            assert(own_a[k] == t);
        }
    }
    let mut conn: Vec<String> = Vec::new();
    if let Some(hw_name) = &robot.uses_hardware {
        if let Some(idx) = find_hardware(&program.hardware_profiles, hw_name.as_str()) {
            proof { lemma_last_hw_range(program.hardware_profiles@, hw_name@); }
            let hw = &program.hardware_profiles[idx];
            extend_strings(&mut sensors, &hw.sensors);
            extend_strings(&mut actuators, &hw.actuators);
            extend_strings(&mut conn, &hw.connectivity);
            assert(views(conn@) =~= views(hw.connectivity@));
            proof {
                lemma_seqset_concat(own_s, views(hw.sensors@));
                lemma_seqset_concat(own_a, views(hw.actuators@));
            }
        } else {
            assert(strset(conn@) =~= Set::empty());
        }
    } else {
        assert(strset(conn@) =~= Set::empty());
    }
    (sensors, actuators, conn)
}

/// Whether some candidate is in the set.
fn has_any(set: &Vec<String>, candidates: &[&str]) -> (r: bool)
    ensures
        r == any_of(strset(set@), lits(candidates@)),
{
    let mut i: usize = 0;
    while i < candidates.len()
        invariant
            i <= candidates@.len(),
            forall|k: int| 0 <= k < i ==> !strset(set@).contains(#[trigger] lits(candidates@)[k]),
        decreases candidates@.len() - i,
    {
        if list_contains(set, candidates[i]) {
            assert(strset(set@).contains(lits(candidates@)[i as int]));
            return true;
        }
        i = i + 1;
    }
    false
}

/// Whether some actuator type mentions `Drive`.
fn has_drive(actuators: &Vec<String>) -> (r: bool)
    ensures
        r == (exists|a: Seq<char>| strset(actuators@).contains(a) && has_infix(a, "Drive"@)),
{
    let mut i: usize = 0;
    while i < actuators.len()
        invariant
            i <= actuators@.len(),
            forall|k: int| 0 <= k < i ==> !has_infix(#[trigger] views(actuators@)[k], "Drive"@),
        decreases actuators@.len() - i,
    {
        if str_contains(actuators[i].as_str(), "Drive") {
            assert(strset(actuators@).contains(views(actuators@)[i as int]));
            return true;
        }
        i = i + 1;
    }
    proof {
        assert forall|a: Seq<char>| strset(actuators@).contains(a) implies !has_infix(a, "Drive"@) by {
            let k = choose|k: int| 0 <= k < views(actuators@).len() && views(actuators@)[k] == a;
        }
    }
    false
}

/// Add `s` to the list unless it is already there.
fn add_unique(v: &mut Vec<String>, s: &str)
    ensures
        views(final(v)@) == add_if(views(old(v)@), true, s@),
{
    if !list_contains(v, s) {
        let ghost before = v@;
        let o = owned(s);
        v.push(o);
        proof { lemma_views_push(before, o); }
    }
}

/// The components named by a minimum requirement.
fn components_for(req: &CapabilityRequirement) -> (r: Vec<String>)
    ensures
        views(r@) == components_spec(req@),
{
    let mut parts: Vec<String> = Vec::new();
    extend_strings(&mut parts, &req.any_of_sensors);
    extend_strings(&mut parts, &req.any_of_actuators);
    extend_strings(&mut parts, &req.any_of_connectivity);
    extend_strings(&mut parts, &req.required_packages);
    assert(views(parts@) =~= components_spec(req@));
    parts
}

/// Whether the available components meet the capability's minimum.
fn satisfies(cap: &str, sensors: &Vec<String>, actuators: &Vec<String>, connectivity: &Vec<String>) -> (r: bool)
    ensures
        r == satisfies_spec(cap@, strset(sensors@), strset(actuators@), strset(connectivity@)),
{
    let def = lookup_capability(cap);
    match def {
        None => false,
        Some(def) => {
            let req = &def.minimum;
            let sensors_ok = req.any_of_sensors.len() == 0 || has_any_of_list(sensors, &req.any_of_sensors);
            let actuators_ok = req.any_of_actuators.len() == 0 || has_any_of_list(
                actuators,
                &req.any_of_actuators,
            );
            let conn_ok = req.any_of_connectivity.len() == 0 || has_any_of_list(
                connectivity,
                &req.any_of_connectivity,
            );
            sensors_ok && actuators_ok && conn_ok
        },
    }
}

/// Whether some candidate string of a list is in the set.
fn has_any_of_list(set: &Vec<String>, candidates: &Vec<String>) -> (r: bool)
    ensures
        r == any_of(strset(set@), views(candidates@)),
{
    let mut i: usize = 0;
    while i < candidates.len()
        invariant
            i <= candidates@.len(),
            forall|k: int| 0 <= k < i ==> !strset(set@).contains(#[trigger] views(candidates@)[k]),
        decreases candidates@.len() - i,
    {
        if list_contains(set, candidates[i].as_str()) {
            assert(strset(set@).contains(views(candidates@)[i as int]));
            return true;
        }
        i = i + 1;
    }
    false
}

/// The report row for one capability of a robot.
fn make_row(
    program: &Program,
    robot: &RobotDecl,
    cap: &str,
    sensors: &Vec<String>,
    actuators: &Vec<String>,
    connectivity: &Vec<String>,
    inferred: &Vec<String>,
) -> (r: RobotCapabilityRow)
    requires
        strset(sensors@) == sensor_types(*program, *robot),
        strset(actuators@) == actuator_types(*program, *robot),
        strset(connectivity@) == connectivity_types(*program, *robot),
        views(inferred@) == inferred_caps(*program, *robot),
    ensures
        r@ == row_spec(*program, *robot, cap@),
{
    let is_declared = list_contains(&robot.exposes_capabilities, cap);
    let is_inferred = list_contains(inferred, cap);
    let def = lookup_capability(cap);
    let source = if is_declared && is_inferred {
        owned("declared+inferred")
    } else if is_declared {
        owned("declared")
    } else {
        owned("inferred")
    };
    let status = if satisfies(cap, sensors, actuators, connectivity) {
        owned("PASS")
    } else {
        owned("PARTIAL")
    };
    let (required_components, notes) = match def {
        Some(d) => {
            let comps = components_for(&d.minimum);
            (comps, Some(d.description))
        },
        None => (Vec::new(), None),
    };
    let row = RobotCapabilityRow { capability: owned(cap), source, required_components, status, notes };
    assert(row@ =~= row_spec(*program, *robot, cap@));
    row
}

/// Whether some row already carries the capability.
fn rows_contain(rows: &Vec<RobotCapabilityRow>, cap: &str) -> (r: bool)
    ensures
        r == row_caps(rows@).contains(cap@),
{
    let mut i: usize = 0;
    while i < rows.len()
        invariant
            i <= rows@.len(),
            forall|k: int| 0 <= k < i ==> #[trigger] row_caps(rows@)[k] != cap@,
        decreases rows@.len() - i,
    {
        if str_eq(rows[i].capability.as_str(), cap) {
            assert(row_caps(rows@)[i as int] == cap@);
            return true;
        }
        i = i + 1;
    }
    false
}

/// Capabilities inferred from the robot's components, kill switches, permissions and mission.
fn infer_capabilities(
    program: &Program,
    robot: &RobotDecl,
    sensor_types_v: &Vec<String>,
    actuator_types_v: &Vec<String>,
    connectivity: &Vec<String>,
) -> (r: Vec<String>)
    requires
        strset(sensor_types_v@) == sensor_types(*program, *robot),
        strset(actuator_types_v@) == actuator_types(*program, *robot),
        strset(connectivity@) == connectivity_types(*program, *robot),
    ensures
        views(r@) == inferred_caps(*program, *robot),
{
    let mut inferred: Vec<String> = Vec::new();
    let ghost mut acc: Seq<Seq<char>> = seq![];
    assert(views(inferred@) =~= acc);
    let cands1: [&str; 2] = ["GPS", "GNSS"];
    assert(lits(cands1@) =~= seq!["GPS"@, "GNSS"@]);
    let cands2: [&str; 1] = ["DifferentialDrive"];
    assert(lits(cands2@) =~= seq!["DifferentialDrive"@]);
    let gps = has_any(sensor_types_v, &cands1) && has_any(actuator_types_v, &cands2);
    if gps {
        add_unique(&mut inferred, "gps_navigation");
    }
    proof { acc = add_if(acc, gps, "gps_navigation"@); }
    let cands3: [&str; 3] = ["Lidar", "DepthCamera", "Radar"];
    assert(lits(cands3@) =~= seq!["Lidar"@, "DepthCamera"@, "Radar"@]);
    let obstacle = has_any(sensor_types_v, &cands3);
    if obstacle {
        add_unique(&mut inferred, "obstacle_avoidance");
    }
    proof { acc = add_if(acc, obstacle, "obstacle_avoidance"@); }
    let cands4: [&str; 2] = ["Lidar", "Camera"];
    assert(lits(cands4@) =~= seq!["Lidar"@, "Camera"@]);
    let cands5: [&str; 1] = ["DifferentialDrive"];
    assert(lits(cands5@) =~= seq!["DifferentialDrive"@]);
    let auto_nav = has_any(sensor_types_v, &cands4) && has_any(actuator_types_v, &cands5);
    if auto_nav {
        add_unique(&mut inferred, "autonomous_navigation");
    }
    proof { acc = add_if(acc, auto_nav, "autonomous_navigation"@); }
    let cands6: [&str; 4] = ["WiFi", "LTE", "FiveG", "MQTT"];
    assert(lits(cands6@) =~= seq!["WiFi"@, "LTE"@, "FiveG"@, "MQTT"@]);
    let telemetry = has_any(connectivity, &cands6);
    if telemetry {
        add_unique(&mut inferred, "telemetry_streaming");
    }
    proof { acc = add_if(acc, telemetry, "telemetry_streaming"@); }
    let cands7: [&str; 4] = ["WiFi", "LTE", "FiveG", "Bluetooth"];
    assert(lits(cands7@) =~= seq!["WiFi"@, "LTE"@, "FiveG"@, "Bluetooth"@]);
    let remote = has_any(connectivity, &cands7);
    if remote {
        add_unique(&mut inferred, "remote_control");
    }
    proof { acc = add_if(acc, remote, "remote_control"@); }
    let estop = robot.kill_switches.len() > 0 || has_drive(actuator_types_v);
    if estop {
        add_unique(&mut inferred, "emergency_stop");
    }
    proof { acc = add_if(acc, estop, "emergency_stop"@); }
    let vision = list_contains(sensor_types_v, "Camera");
    if vision {
        add_unique(&mut inferred, "vision_processing");
    }
    proof { acc = add_if(acc, vision, "vision_processing"@); }
    let secure = robot.has_permissions;
    if secure {
        add_unique(&mut inferred, "secure_communication");
    }
    proof { acc = add_if(acc, secure, "secure_communication"@); }
    let patrol = match &robot.mission {
        Some(m) => match &m.name {
            Some(n) => str_eq(n.as_str(), "Patrol"),
            None => false,
        },
        None => false,
    };
    if patrol {
        add_unique(&mut inferred, "gps_navigation");
        add_unique(&mut inferred, "obstacle_avoidance");
        add_unique(&mut inferred, "emergency_stop");
        add_unique(&mut inferred, "telemetry_streaming");
    }
    proof {
        acc = add_if(add_if(add_if(add_if(acc, patrol, "gps_navigation"@), patrol, "obstacle_avoidance"@), patrol,
            "emergency_stop"@), patrol, "telemetry_streaming"@);
    }
    assert(views(inferred@) == acc);
    assert(acc == inferred_caps(*program, *robot));

    inferred
}

/// Analyze one robot: linked hardware, inferred capabilities and one row per capability.
fn analyze_robot(program: &Program, robot: &RobotDecl) -> (r: RobotCapabilityReport)
    ensures
        report_of(*program, *robot, r),
{
    let (sensor_types_v, actuator_types_v, connectivity) = collect_types(program, robot);
    let inferred = infer_capabilities(program, robot, &sensor_types_v, &actuator_types_v, &connectivity);

    let ghost all = views(robot.exposes_capabilities@) + views(inferred@);
    let mut rows: Vec<RobotCapabilityRow> = Vec::new();
    let declared = &robot.exposes_capabilities;
    let mut j: usize = 0;
    assert(all.take(0) =~= seq![]);
    while j < declared.len()
        invariant
            j <= declared@.len(),
            strset(sensor_types_v@) == sensor_types(*program, *robot),
            strset(actuator_types_v@) == actuator_types(*program, *robot),
            strset(connectivity@) == connectivity_types(*program, *robot),
            views(inferred@) == inferred_caps(*program, *robot),
            declared == &robot.exposes_capabilities,
            all == views(declared@) + views(inferred@),
            row_caps(rows@) == dedup(all.take(j as int)),
            forall|k: int| 0 <= k < rows@.len() ==> #[trigger] rows@[k]@ == row_spec(*program, *robot, rows@[k].capability@),
        decreases declared@.len() - j,
    {
        let cap = declared[j].as_str();
        let ghost before = row_caps(rows@);
        assert(all.take(j + 1).drop_last() =~= all.take(j as int));
        assert(all.take(j + 1).last() == cap@);
        if !rows_contain(&rows, cap) {
            let row = make_row(program, robot, cap, &sensor_types_v, &actuator_types_v, &connectivity, &inferred);
            rows.push(row);
            assert(row_caps(rows@) =~= before.push(cap@));
        }
        j = j + 1;
    }
    let mut j: usize = 0;
    while j < inferred.len()
        invariant
            j <= inferred@.len(),
            strset(sensor_types_v@) == sensor_types(*program, *robot),
            strset(actuator_types_v@) == actuator_types(*program, *robot),
            strset(connectivity@) == connectivity_types(*program, *robot),
            views(inferred@) == inferred_caps(*program, *robot),
            all == views(robot.exposes_capabilities@) + views(inferred@),
            row_caps(rows@) == dedup(all.take(robot.exposes_capabilities@.len() + j)),
            forall|k: int| 0 <= k < rows@.len() ==> #[trigger] rows@[k]@ == row_spec(*program, *robot, rows@[k].capability@),
        decreases inferred@.len() - j,
    {
        let cap = inferred[j].as_str();
        let ghost before = row_caps(rows@);
        let ghost n = robot.exposes_capabilities@.len() + j;
        assert(all.take(n + 1).drop_last() =~= all.take(n));
        assert(all.take(n + 1).last() == cap@);
        if !rows_contain(&rows, cap) {
            let row = make_row(program, robot, cap, &sensor_types_v, &actuator_types_v, &connectivity, &inferred);
            rows.push(row);
            assert(row_caps(rows@) =~= before.push(cap@));
        }
        j = j + 1;
    }
    assert(all.take(all.len() as int) =~= all);
    RobotCapabilityReport {
        robot: copy_string(&robot.name),
        declared: copy_list(&robot.exposes_capabilities),
        inferred,
        rows,
    }
}

/// Registry definitions of `caps`, in order, skipping unknown names.
pub open spec fn lookups(caps: Seq<Seq<char>>) -> Seq<DefinitionView>
    decreases caps.len(),
{
    if caps.len() == 0 {
        seq![]
    } else {
        (match lookup_spec(caps[0]) {
            Some(d) => seq![d],
            None => seq![],
        }) + lookups(caps.drop_first())
    }
}

/// Definitions contributed by packages that contribute one of `caps`.
pub open spec fn package_defs(contribs: Seq<ContributionView>, caps: Set<Seq<char>>) -> Seq<DefinitionView>
    decreases contribs.len(),
{
    if contribs.len() == 0 {
        seq![]
    } else {
        (if any_of(caps, contribs[0].capabilities) {
            lookups(contribs[0].capabilities)
        } else {
            seq![]
        }) + package_defs(contribs.drop_first(), caps)
    }
}

/// List package contributions relevant to a robot's inferred capabilities.
pub fn package_capabilities_for_robot(report: &RobotCapabilityReport) -> (r: Vec<CapabilityDefinition>)
    ensures
        def_views(r@) == package_defs(contributions_spec(), seqset(row_caps(report.rows@))),
{
    let contribs = package_contributions();
    let mut caps: Vec<String> = Vec::new();
    let mut i: usize = 0;
    while i < report.rows.len()
        invariant
            i <= report.rows@.len(),
            views(caps@) == row_caps(report.rows@).take(i as int),
        decreases report.rows@.len() - i,
    {
        let ghost before = caps@;
        let c = copy_string(&report.rows[i].capability);
        caps.push(c);
        proof { lemma_views_push(before, c); }
        i = i + 1;
        assert(views(caps@) =~= row_caps(report.rows@).take(i as int));
    }
    assert(row_caps(report.rows@).take(report.rows@.len() as int) =~= row_caps(report.rows@));
    let ghost capset = seqset(row_caps(report.rows@));
    let ghost all = contribution_views(contribs@);
    let mut out: Vec<CapabilityDefinition> = Vec::new();
    let mut j: usize = 0;
    assert(all.skip(0) =~= all);
    while j < contribs.len()
        invariant
            j <= contribs@.len(),
            all == contribution_views(contribs@),
            all == contributions_spec(),
            strset(caps@) == capset,
            package_defs(all, capset) == def_views(out@) + package_defs(all.skip(j as int), capset),
        decreases contribs@.len() - j,
    {
        let c = &contribs[j];
        assert(all.skip(j as int)[0] == c@);
        assert(all.skip(j as int).drop_first() =~= all.skip(j + 1));
        if has_any_of_list(&caps, &c.capabilities) {
            let mut k: usize = 0;
            let ghost start = def_views(out@);
            assert(views(c.capabilities@).skip(0) =~= views(c.capabilities@));
            while k < c.capabilities.len()
                invariant
                    k <= c.capabilities@.len(),
                    lookups(views(c.capabilities@)) == def_views(out@).subrange(start.len() as int, def_views(out@).len() as int) + lookups(views(c.capabilities@).skip(k as int)),
                    start.len() <= def_views(out@).len(),
                    def_views(out@).subrange(0, start.len() as int) == start,
                decreases c.capabilities@.len() - k,
            {
                let ghost cs = views(c.capabilities@);
                assert(cs.skip(k as int)[0] == c.capabilities@[k as int]@);
                assert(cs.skip(k as int).drop_first() =~= cs.skip(k + 1));
                let ghost out_before = def_views(out@);
                match lookup_capability(c.capabilities[k].as_str()) {
                    Some(d) => {
                        out.push(d);
                        assert(def_views(out@) =~= out_before.push(d@));
                    },
                    None => {},
                }
                k = k + 1;
                assert(def_views(out@).subrange(0, start.len() as int) =~= start);
                assert(def_views(out@).subrange(start.len() as int, def_views(out@).len() as int) + lookups(cs.skip(k as int))
                    =~= out_before.subrange(start.len() as int, out_before.len() as int) + lookups(cs.skip(k - 1)));
            }
            assert(views(c.capabilities@).skip(k as int).len() == 0);
            assert(def_views(out@) =~= start + lookups(views(c.capabilities@)));
        }
        j = j + 1;
    }
    assert(all.skip(j as int).len() == 0);
    assert(def_views(out@) =~= def_views(out@) + package_defs(all.skip(j as int), capset));
    out
}

/// Mathematical value of a [`RobotCapabilityReport`].
#[verifier::ext_equal]
pub struct ReportView {
    pub robot: Seq<char>,
    pub rows: Seq<RowView>,
    pub declared: Seq<Seq<char>>,
    pub inferred: Seq<Seq<char>>,
}

impl View for RobotCapabilityReport {
    type V = ReportView;

    open spec fn view(&self) -> ReportView {
        ReportView {
            robot: self.robot@,
            rows: row_views(self.rows@),
            declared: views(self.declared@),
            inferred: views(self.inferred@),
        }
    }
}

pub open spec fn report_views(v: Seq<RobotCapabilityReport>) -> Seq<ReportView> {
    v.map_values(|r: RobotCapabilityReport| r@)
}

/// Capabilities reported for a robot: declared ones, then inferred ones, each once.
pub open spec fn report_caps(program: Program, robot: RobotDecl) -> Seq<Seq<char>> {
    dedup(views(robot.exposes_capabilities@) + inferred_caps(program, robot))
}

/// The capability report of one robot.
pub open spec fn report_spec(program: Program, robot: RobotDecl) -> ReportView {
    ReportView {
        robot: robot.name@,
        rows: report_caps(program, robot).map_values(|c: Seq<char>| row_spec(program, robot, c)),
        declared: views(robot.exposes_capabilities@),
        inferred: inferred_caps(program, robot),
    }
}

/// The capability reports of all robots of a program.
pub open spec fn reports_spec(program: Program) -> Seq<ReportView> {
    program.robots@.map_values(|r: RobotDecl| report_spec(program, r))
}

pub proof fn lemma_report_of_view(program: Program, robot: RobotDecl, r: RobotCapabilityReport)
    requires
        report_of(program, robot, r),
    ensures
        r@ == report_spec(program, robot),
{
    assert(row_views(r.rows@) =~= report_caps(program, robot).map_values(|c: Seq<char>| row_spec(program, robot, c)));
    assert(r@ =~= report_spec(program, robot));
}

/// The reports computed by [`infer_robot_capabilities`] are the specified ones.
pub proof fn lemma_reports_view(program: Program, r: Seq<RobotCapabilityReport>)
    requires
        r.len() == program.robots@.len(),
        forall|i: int| 0 <= i < r.len() ==> report_of(program, program.robots@[i], #[trigger] r[i]),
    ensures
        report_views(r) == reports_spec(program),
{
    assert forall|i: int| 0 <= i < r.len() implies #[trigger] report_views(r)[i] == reports_spec(program)[i] by {
        lemma_report_of_view(program, program.robots@[i], r[i]);
    }
    assert(report_views(r) =~= reports_spec(program));
}


proof fn lemma_dedup(s: Seq<Seq<char>>)
    ensures
        dedup(s).no_duplicates(),
        forall|c: Seq<char>| #[trigger] dedup(s).contains(c) <==> s.contains(c),
    decreases s.len(),
{
    if s.len() > 0 {
        let d = s.drop_last();
        let x = s.last();
        lemma_dedup(d);
        assert forall|c: Seq<char>| #[trigger] dedup(s).contains(c) <==> s.contains(c) by {
            let dd = dedup(d);
            assert(dd.contains(c) <==> d.contains(c));
            assert(s =~= d.push(x));
            if d.contains(c) {
                let k = choose|k: int| 0 <= k < d.len() && d[k] == c;
                assert(s[k] == c);
            }
            if s.contains(c) && c != x {
                let k = choose|k: int| 0 <= k < s.len() && s[k] == c;
                assert(k < d.len());
                assert(d[k] == c);
            }
            if dd.contains(x) {
                assert(dedup(s) == dd);
            } else {
                assert(dedup(s) == dd.push(x));
                assert(dd.push(x)[dd.len() as int] == x);
                if dd.push(x).contains(c) && c != x {
                    let k = choose|k: int| 0 <= k < dd.push(x).len() && dd.push(x)[k] == c;
                    assert(dd[k] == c);
                }
                if dd.contains(c) {
                    let k = choose|k: int| 0 <= k < dd.len() && dd[k] == c;
                    assert(dd.push(x)[k] == c);
                }
            }
        }
        let dd = dedup(d);
        if !dd.contains(x) {
            assert forall|i: int, j: int| 0 <= i < j < dedup(s).len() implies dedup(s)[i] != dedup(s)[j] by {
                if j == dd.len() {
                    assert(dedup(s)[i] == dd[i]);
                    assert(dedup(s)[j] == x);
                } else {
                    assert(dedup(s)[i] == dd[i]);
                    assert(dedup(s)[j] == dd[j]);
                }
            }
        }
    }
}

/// The rows of an inferred capability report name each declared or inferred
/// capability exactly once, and no other.
pub proof fn law_report_rows_cover_without_duplicates(program: Program, robot: RobotDecl, report: RobotCapabilityReport)
    requires
        report_of(program, robot, report),
    ensures
        row_caps(report.rows@).no_duplicates(),
        forall|c: Seq<char>|
            row_caps(report.rows@).contains(c) <==> (views(report.declared@).contains(c) || views(
                report.inferred@,
            ).contains(c)),
{
    let all = views(robot.exposes_capabilities@) + inferred_caps(program, robot);
    lemma_dedup(all);
    assert(row_caps(report.rows@) == dedup(all));
    assert forall|c: Seq<char>| all.contains(c) <==> (views(report.declared@).contains(c) || views(
        report.inferred@,
    ).contains(c)) by {
        let a = views(report.declared@);
        let b = views(report.inferred@);
        if all.contains(c) {
            let k = choose|k: int| 0 <= k < all.len() && all[k] == c;
            if k < a.len() {
                assert(a[k] == c);
            } else {
                assert(b[k - a.len()] == c);
            }
        }
        if a.contains(c) {
            let k = choose|k: int| 0 <= k < a.len() && a[k] == c;
            assert(all[k] == c);
        }
        if b.contains(c) {
            let k = choose|k: int| 0 <= k < b.len() && b[k] == c;
            assert(all[k + a.len()] == c);
        }
    }
}


/// Capability inference reports each robot in order, under its name and
/// with its declared capabilities; the rows of a report name each declared
/// or inferred capability once, and a row passes exactly when the capability
/// is registered and every non-empty `any_of` list of its minimum requirement
/// meets a sensor, actuator or connectivity type of the robot or of its
/// linked hardware profile.
pub proof fn law_inference_per_robot(program: Program, v: Seq<RobotCapabilityReport>)
    requires
        is_inference(program, v),
    ensures
        v.len() == program.robots@.len(),
        forall|i: int|
            0 <= i < v.len() ==> {
                let rep = #[trigger] v[i];
                let robot = program.robots@[i];
                &&& rep.robot@ == robot.name@
                &&& views(rep.declared@) == views(robot.exposes_capabilities@)
                &&& row_caps(rep.rows@).no_duplicates()
                &&& (forall|c: Seq<char>|
                    row_caps(rep.rows@).contains(c) <==> (views(rep.declared@).contains(c) || views(
                        rep.inferred@,
                    ).contains(c)))
                &&& (forall|k: int|
                    0 <= k < rep.rows@.len() ==> ((#[trigger] rep.rows@[k]).status@ == "PASS"@ <==> satisfies_spec(
                        rep.rows@[k].capability@,
                        sensor_types(program, robot),
                        actuator_types(program, robot),
                        connectivity_types(program, robot),
                    )))
            },
{
    reveal_strlit("PASS");
    reveal_strlit("PARTIAL");
    assert("PASS"@ != "PARTIAL"@) by {
        assert("PASS"@.len() != "PARTIAL"@.len());
    }
    assert forall|i: int| 0 <= i < v.len() implies {
        let rep = #[trigger] v[i];
        let robot = program.robots@[i];
        &&& rep.robot@ == robot.name@
        &&& views(rep.declared@) == views(robot.exposes_capabilities@)
        &&& row_caps(rep.rows@).no_duplicates()
        &&& (forall|c: Seq<char>|
            row_caps(rep.rows@).contains(c) <==> (views(rep.declared@).contains(c) || views(
                rep.inferred@,
            ).contains(c)))
        &&& (forall|k: int|
            0 <= k < rep.rows@.len() ==> ((#[trigger] rep.rows@[k]).status@ == "PASS"@ <==> satisfies_spec(
                rep.rows@[k].capability@,
                sensor_types(program, robot),
                actuator_types(program, robot),
                connectivity_types(program, robot),
            )))
    } by {
        let rep = v[i];
        let robot = program.robots@[i];
        law_report_rows_cover_without_duplicates(program, robot, rep);
        assert forall|k: int| 0 <= k < rep.rows@.len() implies ((#[trigger] rep.rows@[k]).status@ == "PASS"@
            <==> satisfies_spec(
            rep.rows@[k].capability@,
            sensor_types(program, robot),
            actuator_types(program, robot),
            connectivity_types(program, robot),
        )) by {
            assert(rep.rows@[k]@ == row_spec(program, robot, rep.rows@[k].capability@));
        }
    }
}

proof fn lemma_add_if_contains(s: Seq<Seq<char>>, cond: bool, cap: Seq<char>, c: Seq<char>)
    ensures
        add_if(s, cond, cap).contains(c) <==> (s.contains(c) || (cond && c == cap)),
        s.no_duplicates() ==> add_if(s, cond, cap).no_duplicates(),
{
    if cond && !s.contains(cap) {
        let t = s.push(cap);
        assert(t[s.len() as int] == cap);
        if s.contains(c) {
            let k = choose|k: int| 0 <= k < s.len() && s[k] == c;
            assert(t[k] == c);
        }
        if t.contains(c) && c != cap {
            let k = choose|k: int| 0 <= k < t.len() && t[k] == c;
            assert(s[k] == c);
        }
        if s.no_duplicates() {
            assert forall|a: int, b: int| 0 <= a < t.len() && 0 <= b < t.len() && a != b implies t[a] != t[b] by {
                if a < s.len() && b < s.len() {
                } else if a < s.len() {
                    assert(s.contains(t[a]));
                } else {
                    assert(s.contains(t[b]));
                }
            }
        }
    }
}

proof fn lemma_any_of_lits(set: Set<Seq<char>>, cands: Seq<Seq<char>>)
    ensures
        cands.len() == 1 ==> (any_of(set, cands) <==> set.contains(cands[0])),
        cands.len() == 2 ==> (any_of(set, cands) <==> (set.contains(cands[0]) || set.contains(cands[1]))),
        cands.len() == 3 ==> (any_of(set, cands) <==> (set.contains(cands[0]) || set.contains(cands[1])
            || set.contains(cands[2]))),
        cands.len() == 4 ==> (any_of(set, cands) <==> (set.contains(cands[0]) || set.contains(cands[1])
            || set.contains(cands[2]) || set.contains(cands[3]))),
{
    if any_of(set, cands) {
        let i = choose|i: int| 0 <= i < cands.len() && set.contains(#[trigger] cands[i]);
        assert(i == 0 || i == 1 || i == 2 || i == 3 || i >= 4);
    }
}

/// What a robot's inferred capabilities are, from its sensors, actuators
/// and the connectivity of its linked hardware profile (`sen`, `act`, `conn`
/// below), its kill switches, permissions and mission: each capability is
/// inferred exactly when its rule holds, and none is listed twice.
/// - `gps_navigation`: a GPS or GNSS sensor with a differential drive, or a `Patrol` mission;
/// - `obstacle_avoidance`: a lidar, depth camera or radar, or a `Patrol` mission;
/// - `autonomous_navigation`: a lidar or camera with a differential drive;
/// - `telemetry_streaming`: WiFi, LTE, 5G or MQTT connectivity, or a `Patrol` mission;
/// - `remote_control`: WiFi, LTE, 5G or Bluetooth connectivity;
/// - `emergency_stop`: a kill switch, an actuator whose type names a drive, or a `Patrol` mission;
/// - `vision_processing`: a camera;
/// - `secure_communication`: declared permissions.
pub proof fn law_inferred_capabilities(program: Program, robot: RobotDecl, c: Seq<char>)
    ensures
        inferred_caps(program, robot).no_duplicates(),
        inferred_caps(program, robot).contains(c) <==> {
            let sen = sensor_types(program, robot);
            let act = actuator_types(program, robot);
            let conn = connectivity_types(program, robot);
            let drive = act.contains("DifferentialDrive"@);
            let patrol = robot.mission matches Some(m) && m.name matches Some(n) && n@ == "Patrol"@;
            ||| c == "gps_navigation"@ && (((sen.contains("GPS"@) || sen.contains("GNSS"@)) && drive) || patrol)
            ||| c == "obstacle_avoidance"@ && (sen.contains("Lidar"@) || sen.contains("DepthCamera"@) || sen.contains(
                "Radar"@,
            ) || patrol)
            ||| c == "autonomous_navigation"@ && (sen.contains("Lidar"@) || sen.contains("Camera"@)) && drive
            ||| c == "telemetry_streaming"@ && (conn.contains("WiFi"@) || conn.contains("LTE"@) || conn.contains(
                "FiveG"@,
            ) || conn.contains("MQTT"@) || patrol)
            ||| c == "remote_control"@ && (conn.contains("WiFi"@) || conn.contains("LTE"@) || conn.contains("FiveG"@)
                || conn.contains("Bluetooth"@))
            ||| c == "emergency_stop"@ && (robot.kill_switches@.len() > 0 || (exists|a: Seq<char>|
                act.contains(a) && has_infix(a, "Drive"@)) || patrol)
            ||| c == "vision_processing"@ && sen.contains("Camera"@)
            ||| c == "secure_communication"@ && robot.has_permissions
        },
{
    let sen = sensor_types(program, robot);
    let act = actuator_types(program, robot);
    let conn = connectivity_types(program, robot);
    let patrol = patrol_mission(robot);
    let g1 = seq!["GPS"@, "GNSS"@];
    let g2 = seq!["DifferentialDrive"@];
    let g3 = seq!["Lidar"@, "DepthCamera"@, "Radar"@];
    let g4 = seq!["Lidar"@, "Camera"@];
    let g5 = seq!["WiFi"@, "LTE"@, "FiveG"@, "MQTT"@];
    let g6 = seq!["WiFi"@, "LTE"@, "FiveG"@, "Bluetooth"@];
    lemma_any_of_lits(sen, g1);
    lemma_any_of_lits(act, g2);
    lemma_any_of_lits(sen, g3);
    lemma_any_of_lits(sen, g4);
    lemma_any_of_lits(conn, g5);
    lemma_any_of_lits(conn, g6);
    let s0: Seq<Seq<char>> = seq![];
    let s1 = add_if(s0, any_of(sen, g1) && any_of(act, g2), "gps_navigation"@);
    let s2 = add_if(s1, any_of(sen, g3), "obstacle_avoidance"@);
    let s3 = add_if(s2, any_of(sen, g4) && any_of(act, g2), "autonomous_navigation"@);
    let s4 = add_if(s3, any_of(conn, g5), "telemetry_streaming"@);
    let s5 = add_if(s4, any_of(conn, g6), "remote_control"@);
    let s6 = add_if(
        s5,
        robot.kill_switches@.len() > 0 || (exists|a: Seq<char>| act.contains(a) && has_infix(a, "Drive"@)),
        "emergency_stop"@,
    );
    let s7 = add_if(s6, sen.contains("Camera"@), "vision_processing"@);
    let s8 = add_if(s7, robot.has_permissions, "secure_communication"@);
    let s9 = add_if(s8, patrol, "gps_navigation"@);
    let s10 = add_if(s9, patrol, "obstacle_avoidance"@);
    let s11 = add_if(s10, patrol, "emergency_stop"@);
    let s12 = add_if(s11, patrol, "telemetry_streaming"@);
    assert(s12 == inferred_caps(program, robot));
    lemma_add_if_contains(s0, any_of(sen, g1) && any_of(act, g2), "gps_navigation"@, c);
    lemma_add_if_contains(s1, any_of(sen, g3), "obstacle_avoidance"@, c);
    lemma_add_if_contains(s2, any_of(sen, g4) && any_of(act, g2), "autonomous_navigation"@, c);
    lemma_add_if_contains(s3, any_of(conn, g5), "telemetry_streaming"@, c);
    lemma_add_if_contains(s4, any_of(conn, g6), "remote_control"@, c);
    lemma_add_if_contains(
        s5,
        robot.kill_switches@.len() > 0 || (exists|a: Seq<char>| act.contains(a) && has_infix(a, "Drive"@)),
        "emergency_stop"@,
        c,
    );
    lemma_add_if_contains(s6, sen.contains("Camera"@), "vision_processing"@, c);
    lemma_add_if_contains(s7, robot.has_permissions, "secure_communication"@, c);
    lemma_add_if_contains(s8, patrol, "gps_navigation"@, c);
    lemma_add_if_contains(s9, patrol, "obstacle_avoidance"@, c);
    lemma_add_if_contains(s10, patrol, "emergency_stop"@, c);
    lemma_add_if_contains(s11, patrol, "telemetry_streaming"@, c);
    assert(s0.no_duplicates());
}

/// The inferred capabilities listed in each report of an inference follow
/// the rules of [`law_inferred_capabilities`] for that report's robot; in
/// particular a robot whose linked profile offers WiFi, LTE, 5G or Bluetooth
/// connectivity is inferred to support remote control, and no other robot is.
pub proof fn law_reports_infer_by_rule(program: Program, reports: Seq<RobotCapabilityReport>, i: int)
    requires
        is_inference(program, reports),
        0 <= i < reports.len(),
    ensures
        reports[i].robot@ == program.robots@[i].name@,
        views(reports[i].inferred@) == inferred_caps(program, program.robots@[i]),
        views(reports[i].inferred@).contains("remote_control"@) <==> {
            let conn = connectivity_types(program, program.robots@[i]);
            conn.contains("WiFi"@) || conn.contains("LTE"@) || conn.contains("FiveG"@) || conn.contains("Bluetooth"@)
        },
{
    assert(report_of(program, program.robots@[i], reports[i]));
    law_inferred_capabilities(program, program.robots@[i], "remote_control"@);
    reveal_strlit("remote_control");
    reveal_strlit("gps_navigation");
    reveal_strlit("obstacle_avoidance");
    reveal_strlit("autonomous_navigation");
    reveal_strlit("telemetry_streaming");
    reveal_strlit("emergency_stop");
    reveal_strlit("vision_processing");
    reveal_strlit("secure_communication");
    assert("remote_control"@ != "gps_navigation"@) by { assert("remote_control"@[0] != "gps_navigation"@[0]); }
    assert("remote_control"@ != "obstacle_avoidance"@) by { assert("remote_control"@[0] != "obstacle_avoidance"@[0]); }
    assert("remote_control"@ != "autonomous_navigation"@) by { assert("remote_control"@[0] != "autonomous_navigation"@[0]); }
    assert("remote_control"@ != "telemetry_streaming"@) by { assert("remote_control"@[0] != "telemetry_streaming"@[0]); }
    assert("remote_control"@ != "emergency_stop"@) by { assert("remote_control"@[0] != "emergency_stop"@[0]); }
    assert("remote_control"@ != "vision_processing"@) by { assert("remote_control"@[0] != "vision_processing"@[0]); }
    assert("remote_control"@ != "secure_communication"@) by { assert("remote_control"@[0] != "secure_communication"@[0]); }
}

} // verus!
