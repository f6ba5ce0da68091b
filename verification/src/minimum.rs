//! Minimum capable hardware safety verification.
use vstd::prelude::*;
use crate::ast::{Program, RequiresCapabilityDecl, RequiresCapabilitySeverity, RobotDecl};
use crate::registry::{lookup_capability, lookup_spec, CapabilityRequirement, RequirementView, VerificationSeverity};
use crate::robot::{
    infer_robot_capabilities, inferred_caps, lemma_reports_view, report_spec, report_views, reports_spec, ReportView,
    RobotCapabilityReport, RowView,
};
use crate::text::{
    cat2, cat4, cat5, copy_string, has_infix, join, lemma_concat_contains, join_spec, lemma_views_push, list_contains, owned,
    str_contains, str_eq, views,
};

verus! {

/// Row describing a missing minimum capability.
#[derive(Debug, Clone, PartialEq, Eq)]
pub struct MinimumCapabilityRow {
    pub capability: String,
    pub required_by: String,
    pub status: String,
    pub missing: Vec<String>,
    pub suggested_fixes: Vec<String>,
}

/// Minimum capability safety check report.
#[derive(Debug, Clone, PartialEq, Eq)]
pub struct MinimumCapabilityReport {
    pub compatible: bool,
    pub rows: Vec<MinimumCapabilityRow>,
    pub errors: Vec<String>,
    pub warnings: Vec<String>,
}

/// Mathematical value of a [`MinimumCapabilityRow`].
#[verifier::ext_equal]
pub struct MinRowView {
    pub capability: Seq<char>,
    pub required_by: Seq<char>,
    pub status: Seq<char>,
    pub missing: Seq<Seq<char>>,
    pub suggested_fixes: Seq<Seq<char>>,
}

impl View for MinimumCapabilityRow {
    type V = MinRowView;

    open spec fn view(&self) -> MinRowView {
        MinRowView {
            capability: self.capability@,
            required_by: self.required_by@,
            status: self.status@,
            missing: views(self.missing@),
            suggested_fixes: views(self.suggested_fixes@),
        }
    }
}

pub open spec fn min_row_views(v: Seq<MinimumCapabilityRow>) -> Seq<MinRowView> {
    v.map_values(|r: MinimumCapabilityRow| r@)
}

/// Missing-component descriptions for a requirement.
pub open spec fn missing_spec(r: RequirementView) -> Seq<Seq<char>> {
    let m1: Seq<Seq<char>> = if r.any_of_sensors.len() > 0 {
        seq!["sensor: "@ + join_spec(r.any_of_sensors, " OR "@)]
    } else {
        seq![]
    };
    let m2 = if r.any_of_actuators.len() > 0 {
        m1.push("actuator: "@ + join_spec(r.any_of_actuators, " OR "@))
    } else {
        m1
    };
    let m3 = if r.any_of_connectivity.len() > 0 {
        m2.push("connectivity: "@ + join_spec(r.any_of_connectivity, " OR "@))
    } else {
        m2
    };
    let m4 = if r.required_packages.len() > 0 {
        m3.push("package: "@ + join_spec(r.required_packages, ", "@))
    } else {
        m3
    };
    if r.required_safety_rules.len() > 0 {
        m4.push("safety: "@ + join_spec(r.required_safety_rules, ", "@))
    } else {
        m4
    }
}

/// Fix suggestions for one missing-component description.
pub open spec fn fixes_for(m: Seq<char>) -> Seq<Seq<char>> {
    (if has_infix(m, "Lidar"@) {
        seq!["Add Lidar sensor to hardware profile"@]
    } else {
        seq![]
    }) + (if has_infix(m, "GPS"@) {
        seq!["Add GPS sensor to hardware profile"@]
    } else {
        seq![]
    }) + (if has_infix(m, "spanda-nav"@) {
        seq!["Install spanda-nav package"@]
    } else {
        seq![]
    })
}

pub open spec fn fixes_all(missing: Seq<Seq<char>>) -> Seq<Seq<char>>
    decreases missing.len(),
{
    if missing.len() == 0 {
        seq![]
    } else {
        fixes_all(missing.drop_last()) + fixes_for(missing.last())
    }
}

/// Fix suggestions for a capability with the given missing components.
pub open spec fn suggest_fixes_spec(capability: Seq<char>, missing: Seq<Seq<char>>) -> Seq<Seq<char>> {
    let f = fixes_all(missing);
    if f.len() == 0 {
        seq!["Review minimum requirements for "@ + capability]
    } else {
        f
    }
}

/// Who a requirement is attributed to.
pub open spec fn required_by_spec(req: RequiresCapabilityDecl) -> Seq<char> {
    match req.required_by {
        Some(b) => b@,
        None => "program"@,
    }
}

/// Some robot report has a passing row for the capability.
pub open spec fn satisfied_by_reports(reports: Seq<ReportView>, cap: Seq<char>) -> bool {
    exists|i: int, j: int|
        0 <= i < reports.len() && 0 <= j < reports[i].rows.len() && #[trigger] reports[i].rows[j].capability
            == cap && reports[i].rows[j].status == "PASS"@
}

/// The row for an explicit `requires_capability` declaration.
pub open spec fn requirement_row(req: RequiresCapabilityDecl, reports: Seq<ReportView>) -> MinRowView {
    match lookup_spec(req.capability@) {
        None => MinRowView {
            capability: req.capability@,
            required_by: required_by_spec(req),
            status: "FAIL"@,
            missing: seq!["unknown capability"@],
            suggested_fixes: seq![],
        },
        Some(d) => {
            let satisfied = satisfied_by_reports(reports, req.capability@);
            let missing = if satisfied {
                seq![]
            } else {
                missing_spec(d.minimum)
            };
            MinRowView {
                capability: req.capability@,
                required_by: required_by_spec(req),
                status: if satisfied {
                    "PASS"@
                } else {
                    "FAIL"@
                },
                missing,
                suggested_fixes: suggest_fixes_spec(req.capability@, missing),
            }
        },
    }
}

pub open spec fn requirement_error(req: RequiresCapabilityDecl, row: MinRowView) -> Seq<Seq<char>> {
    if row.status == "FAIL"@ && req.severity == RequiresCapabilitySeverity::Error {
        seq!["Mission requires "@ + req.capability@ + ". Missing: "@ + join_spec(row.missing, ", "@)]
    } else {
        seq![]
    }
}

pub open spec fn requirement_warning(req: RequiresCapabilityDecl, row: MinRowView) -> Seq<Seq<char>> {
    if row.status == "FAIL"@ && req.severity == RequiresCapabilitySeverity::Warning {
        seq!["Capability "@ + req.capability@ + " partially satisfied: missing "@ + join_spec(row.missing, ", "@)]
    } else {
        seq![]
    }
}

pub open spec fn requirement_rows(reqs: Seq<RequiresCapabilityDecl>, reports: Seq<ReportView>) -> Seq<MinRowView> {
    reqs.map_values(|r: RequiresCapabilityDecl| requirement_row(r, reports))
}

pub open spec fn requirement_errors(reqs: Seq<RequiresCapabilityDecl>, reports: Seq<ReportView>) -> Seq<Seq<char>>
    decreases reqs.len(),
{
    if reqs.len() == 0 {
        seq![]
    } else {
        requirement_errors(reqs.drop_last(), reports) + requirement_error(
            reqs.last(),
            requirement_row(reqs.last(), reports),
        )
    }
}

pub open spec fn requirement_warnings(reqs: Seq<RequiresCapabilityDecl>, reports: Seq<ReportView>) -> Seq<Seq<char>>
    decreases reqs.len(),
{
    if reqs.len() == 0 {
        seq![]
    } else {
        requirement_warnings(reqs.drop_last(), reports) + requirement_warning(
            reqs.last(),
            requirement_row(reqs.last(), reports),
        )
    }
}

/// The failing row for a partially satisfied capability of a robot, if registered.
pub open spec fn partial_row(robot: Seq<char>, row: RowView) -> Seq<MinRowView> {
    if row.status == "PARTIAL"@ {
        match lookup_spec(row.capability) {
            Some(d) => {
                let missing = missing_spec(d.minimum);
                seq![
                    MinRowView {
                        capability: row.capability,
                        required_by: robot,
                        status: "FAIL"@,
                        missing,
                        suggested_fixes: suggest_fixes_spec(row.capability, missing),
                    },
                ]
            },
            None => seq![],
        }
    } else {
        seq![]
    }
}

pub open spec fn partial_error(robot: Seq<char>, row: RowView) -> Seq<Seq<char>> {
    if row.status == "PARTIAL"@ {
        match lookup_spec(row.capability) {
            Some(d) => if d.minimum.severity == VerificationSeverity::Error {
                seq!["Robot '"@ + robot + "' requires capability '"@ + row.capability + "'"@]
            } else {
                seq![]
            },
            None => seq![],
        }
    } else {
        seq![]
    }
}

pub open spec fn partial_rows_of(robot: Seq<char>, rows: Seq<RowView>) -> Seq<MinRowView>
    decreases rows.len(),
{
    if rows.len() == 0 {
        seq![]
    } else {
        partial_rows_of(robot, rows.drop_last()) + partial_row(robot, rows.last())
    }
}

pub open spec fn partial_errors_of(robot: Seq<char>, rows: Seq<RowView>) -> Seq<Seq<char>>
    decreases rows.len(),
{
    if rows.len() == 0 {
        seq![]
    } else {
        partial_errors_of(robot, rows.drop_last()) + partial_error(robot, rows.last())
    }
}

pub open spec fn partial_rows(reports: Seq<ReportView>) -> Seq<MinRowView>
    decreases reports.len(),
{
    if reports.len() == 0 {
        seq![]
    } else {
        partial_rows(reports.drop_last()) + partial_rows_of(reports.last().robot, reports.last().rows)
    }
}

pub open spec fn partial_errors(reports: Seq<ReportView>) -> Seq<Seq<char>>
    decreases reports.len(),
{
    if reports.len() == 0 {
        seq![]
    } else {
        partial_errors(reports.drop_last()) + partial_errors_of(reports.last().robot, reports.last().rows)
    }
}

/// The first report for a robot name.
pub open spec fn find_report(reports: Seq<ReportView>, name: Seq<char>) -> Option<ReportView>
    decreases reports.len(),
{
    if reports.len() == 0 {
        None
    } else if reports[0].robot == name {
        Some(reports[0])
    } else {
        find_report(reports.drop_first(), name)
    }
}

/// A mission robot lacks the minimum hardware for a default patrol capability.
pub open spec fn patrol_gap(robot: RobotDecl, reports: Seq<ReportView>, cap: Seq<char>) -> bool {
    let exposes = views(robot.exposes_capabilities@);
    &&& (robot.mission is Some || exposes.contains("obstacle_avoidance"@))
    &&& (exposes.contains(cap) || robot.mission is Some)
    &&& match find_report(reports, robot.name@) {
        Some(r) => !r.inferred.contains(cap) && !r.declared.contains(cap),
        None => false,
    }
}

pub open spec fn patrol_gap_row(robot: RobotDecl, reports: Seq<ReportView>, cap: Seq<char>) -> Seq<MinRowView> {
    if patrol_gap(robot, reports, cap) {
        seq![
            MinRowView {
                capability: cap,
                required_by: robot.name@,
                status: "FAIL"@,
                missing: seq!["minimum hardware"@],
                suggested_fixes: suggest_fixes_spec(cap, seq!["Lidar OR DepthCamera OR Radar"@]),
            },
        ]
    } else {
        seq![]
    }
}

pub open spec fn patrol_gap_error(robot: RobotDecl, reports: Seq<ReportView>, cap: Seq<char>) -> Seq<Seq<char>> {
    if patrol_gap(robot, reports, cap) {
        seq!["Mission requires "@ + cap + ". Robot '"@ + robot.name@ + "' lacks minimum hardware."@]
    } else {
        seq![]
    }
}

pub open spec fn patrol_rows_of(robot: RobotDecl, reports: Seq<ReportView>) -> Seq<MinRowView> {
    patrol_gap_row(robot, reports, "obstacle_avoidance"@) + patrol_gap_row(robot, reports, "gps_navigation"@)
        + patrol_gap_row(robot, reports, "emergency_stop"@)
}

pub open spec fn patrol_errors_of(robot: RobotDecl, reports: Seq<ReportView>) -> Seq<Seq<char>> {
    patrol_gap_error(robot, reports, "obstacle_avoidance"@) + patrol_gap_error(robot, reports, "gps_navigation"@)
        + patrol_gap_error(robot, reports, "emergency_stop"@)
}

pub open spec fn patrol_rows(robots: Seq<RobotDecl>, reports: Seq<ReportView>) -> Seq<MinRowView>
    decreases robots.len(),
{
    if robots.len() == 0 {
        seq![]
    } else {
        patrol_rows(robots.drop_last(), reports) + patrol_rows_of(robots.last(), reports)
    }
}

pub open spec fn patrol_errors(robots: Seq<RobotDecl>, reports: Seq<ReportView>) -> Seq<Seq<char>>
    decreases robots.len(),
{
    if robots.len() == 0 {
        seq![]
    } else {
        patrol_errors(robots.drop_last(), reports) + patrol_errors_of(robots.last(), reports)
    }
}

/// Rows of the minimum-capability check of a program.
pub open spec fn minimum_rows(program: Program) -> Seq<MinRowView> {
    let reports = reports_spec(program);
    requirement_rows(program.requires_capabilities@, reports) + partial_rows(reports) + patrol_rows(
        program.robots@,
        reports,
    )
}

/// Errors of the minimum-capability check of a program.
pub open spec fn minimum_errors(program: Program) -> Seq<Seq<char>> {
    let reports = reports_spec(program);
    requirement_errors(program.requires_capabilities@, reports) + partial_errors(reports) + patrol_errors(
        program.robots@,
        reports,
    )
}

/// Warnings of the minimum-capability check of a program.
pub open spec fn minimum_warnings(program: Program) -> Seq<Seq<char>> {
    requirement_warnings(program.requires_capabilities@, reports_spec(program))
}

/// Push a string, tracking the view of the list.
fn push_view(v: &mut Vec<String>, x: String)
    ensures
        views(final(v)@) == views(old(v)@).push(x@),
{
    let ghost before = v@;
    v.push(x);
    proof { lemma_views_push(before, x); }
}

fn compute_missing(req: &CapabilityRequirement, _existing: &Vec<String>) -> (r: Vec<String>)
    ensures
        views(r@) == missing_spec(req@),
{
    let mut missing: Vec<String> = Vec::new();
    if req.any_of_sensors.len() > 0 {
        let j = join(&req.any_of_sensors, " OR ");
        push_view(&mut missing, cat2("sensor: ", j.as_str()));
    }
    if req.any_of_actuators.len() > 0 {
        let j = join(&req.any_of_actuators, " OR ");
        push_view(&mut missing, cat2("actuator: ", j.as_str()));
    }
    if req.any_of_connectivity.len() > 0 {
        let j = join(&req.any_of_connectivity, " OR ");
        push_view(&mut missing, cat2("connectivity: ", j.as_str()));
    }
    if req.required_packages.len() > 0 {
        let j = join(&req.required_packages, ", ");
        push_view(&mut missing, cat2("package: ", j.as_str()));
    }
    if req.required_safety_rules.len() > 0 {
        let j = join(&req.required_safety_rules, ", ");
        push_view(&mut missing, cat2("safety: ", j.as_str()));
    }
    assert(views(missing@) =~= missing_spec(req@));
    missing
}

fn suggest_fixes(capability: &str, missing: &Vec<String>) -> (r: Vec<String>)
    ensures
        views(r@) == suggest_fixes_spec(capability@, views(missing@)),
{
    let mut fixes: Vec<String> = Vec::new();
    let mut i: usize = 0;
    while i < missing.len()
        invariant
            i <= missing@.len(),
            views(fixes@) == fixes_all(views(missing@).take(i as int)),
        decreases missing@.len() - i,
    {
        let m = missing[i].as_str();
        let ghost l = views(missing@);
        assert(l.take(i + 1).drop_last() =~= l.take(i as int));
        assert(l.take(i + 1).last() == m@);
        let ghost before = views(fixes@);
        let lidar = str_contains(m, "Lidar");
        if lidar {
            push_view(&mut fixes, owned("Add Lidar sensor to hardware profile"));
        }
        let gps = str_contains(m, "GPS");
        if gps {
            push_view(&mut fixes, owned("Add GPS sensor to hardware profile"));
        }
        let nav = str_contains(m, "spanda-nav");
        if nav {
            push_view(&mut fixes, owned("Install spanda-nav package"));
        }
        assert(views(fixes@) =~= before + fixes_for(m@));
        i = i + 1;
    }
    assert(views(missing@).take(missing@.len() as int) =~= views(missing@));
    if fixes.len() == 0 {
        let mut only: Vec<String> = Vec::new();
        push_view(&mut only, cat2("Review minimum requirements for ", capability));
        assert(views(only@) =~= suggest_fixes_spec(capability@, views(missing@)));
        return only;
    }
    fixes
}

fn required_by_of(req: &RequiresCapabilityDecl) -> (r: String)
    ensures
        r@ == required_by_spec(*req),
{
    match &req.required_by {
        Some(b) => copy_string(b),
        None => owned("program"),
    }
}

/// Whether some report has a passing row for the capability.
fn satisfied_by(robot_reports: &Vec<RobotCapabilityReport>, cap: &str) -> (r: bool)
    ensures
        r == satisfied_by_reports(report_views(robot_reports@), cap@),
{
    let ghost reps = report_views(robot_reports@);
    let mut i: usize = 0;
    while i < robot_reports.len()
        invariant
            i <= robot_reports@.len(),
            reps == report_views(robot_reports@),
            forall|a: int, b: int|
                0 <= a < i && 0 <= b < reps[a].rows.len() ==> !(#[trigger] reps[a].rows[b].capability == cap@
                    && reps[a].rows[b].status == "PASS"@),
        decreases robot_reports@.len() - i,
    {
        let rows = &robot_reports[i].rows;
        let mut j: usize = 0;
        while j < rows.len()
            invariant
                i < robot_reports@.len(),
                rows == &robot_reports@[i as int].rows,
                reps == report_views(robot_reports@),
                j <= rows@.len(),
                forall|a: int, b: int|
                    0 <= a < i && 0 <= b < reps[a].rows.len() ==> !(#[trigger] reps[a].rows[b].capability == cap@
                        && reps[a].rows[b].status == "PASS"@),
                forall|b: int|
                    0 <= b < j ==> !(#[trigger] reps[i as int].rows[b].capability == cap@ && reps[i as int].rows[b].status
                        == "PASS"@),
            decreases rows@.len() - j,
        {
            if str_eq(rows[j].capability.as_str(), cap) && str_eq(rows[j].status.as_str(), "PASS") {
                assert(reps[i as int].rows[j as int].capability == cap@);
                return true;
            }
            j = j + 1;
        }
        i = i + 1;
    }
    false
}

fn check_requirement(req: &RequiresCapabilityDecl, robot_reports: &Vec<RobotCapabilityReport>) -> (r:
    MinimumCapabilityRow)
    ensures
        r@ == requirement_row(*req, report_views(robot_reports@)),
{
    let def = lookup_capability(req.capability.as_str());
    match def {
        None => {
            let mut missing: Vec<String> = Vec::new();
            push_view(&mut missing, owned("unknown capability"));
            let row = MinimumCapabilityRow {
                capability: copy_string(&req.capability),
                required_by: required_by_of(req),
                status: owned("FAIL"),
                missing,
                suggested_fixes: Vec::new(),
            };
            assert(row@ =~= requirement_row(*req, report_views(robot_reports@)));
            row
        },
        Some(def) => {
            let satisfied = satisfied_by(robot_reports, req.capability.as_str());
            let missing = if satisfied {
                Vec::new()
            } else {
                compute_missing(&def.minimum, &Vec::new())
            };
            assert(satisfied ==> views(missing@) =~= seq![]);
            let fixes = suggest_fixes(req.capability.as_str(), &missing);
            let row = MinimumCapabilityRow {
                capability: copy_string(&req.capability),
                required_by: required_by_of(req),
                status: if satisfied {
                    owned("PASS")
                } else {
                    owned("FAIL")
                },
                missing,
                suggested_fixes: fixes,
            };
            assert(row@ =~= requirement_row(*req, report_views(robot_reports@)));
            row
        },
    }
}

fn push_row(v: &mut Vec<MinimumCapabilityRow>, x: MinimumCapabilityRow)
    ensures
        min_row_views(final(v)@) == min_row_views(old(v)@).push(x@),
{
    let ghost before = v@;
    v.push(x);
    assert(min_row_views(v@) =~= min_row_views(before).push(x@));
}

fn requirement_part(reqs: &Vec<RequiresCapabilityDecl>, robot_reports: &Vec<RobotCapabilityReport>) -> (r: (
    Vec<MinimumCapabilityRow>,
    Vec<String>,
    Vec<String>,
))
    ensures
        min_row_views(r.0@) == requirement_rows(reqs@, report_views(robot_reports@)),
        views(r.1@) == requirement_errors(reqs@, report_views(robot_reports@)),
        views(r.2@) == requirement_warnings(reqs@, report_views(robot_reports@)),
{
    let ghost reps = report_views(robot_reports@);
    let mut rows: Vec<MinimumCapabilityRow> = Vec::new();
    let mut errors: Vec<String> = Vec::new();
    let mut warnings: Vec<String> = Vec::new();
    let mut i: usize = 0;
    while i < reqs.len()
        invariant
            i <= reqs@.len(),
            reps == report_views(robot_reports@),
            min_row_views(rows@) == requirement_rows(reqs@.take(i as int), reps),
            views(errors@) == requirement_errors(reqs@.take(i as int), reps),
            views(warnings@) == requirement_warnings(reqs@.take(i as int), reps),
        decreases reqs@.len() - i,
    {
        let req = &reqs[i];
        assert(reqs@.take(i + 1).drop_last() =~= reqs@.take(i as int));
        assert(reqs@.take(i + 1).last() == *req);
        let row = check_requirement(req, robot_reports);
        let failed = str_eq(row.status.as_str(), "FAIL");
        if failed {
            match req.severity {
                RequiresCapabilitySeverity::Error => {
                    let j = join(&row.missing, ", ");
                    push_view(&mut errors, cat4("Mission requires ", req.capability.as_str(), ". Missing: ", j.as_str()));
                },
                RequiresCapabilitySeverity::Warning => {
                    let j = join(&row.missing, ", ");
                    push_view(
                        &mut warnings,
                        cat4("Capability ", req.capability.as_str(), " partially satisfied: missing ", j.as_str()),
                    );
                },
                RequiresCapabilitySeverity::Info => {},
            }
        }
        assert(views(errors@) =~= requirement_errors(reqs@.take(i + 1), reps));
        assert(views(warnings@) =~= requirement_warnings(reqs@.take(i + 1), reps));
        push_row(&mut rows, row);
        assert(min_row_views(rows@) =~= requirement_rows(reqs@.take(i + 1), reps));
        i = i + 1;
    }
    assert(reqs@.take(reqs@.len() as int) =~= reqs@);
    (rows, errors, warnings)
}

fn partial_part(robot_reports: &Vec<RobotCapabilityReport>) -> (r: (Vec<MinimumCapabilityRow>, Vec<String>))
    ensures
        min_row_views(r.0@) == partial_rows(report_views(robot_reports@)),
        views(r.1@) == partial_errors(report_views(robot_reports@)),
{
    let ghost reps = report_views(robot_reports@);
    let mut rows: Vec<MinimumCapabilityRow> = Vec::new();
    let mut errors: Vec<String> = Vec::new();
    let mut i: usize = 0;
    while i < robot_reports.len()
        invariant
            i <= robot_reports@.len(),
            reps == report_views(robot_reports@),
            min_row_views(rows@) == partial_rows(reps.take(i as int)),
            views(errors@) == partial_errors(reps.take(i as int)),
        decreases robot_reports@.len() - i,
    {
        let report = &robot_reports[i];
        assert(reps.take(i + 1).drop_last() =~= reps.take(i as int));
        assert(reps.take(i + 1).last() == report@);
        let ghost rows0 = min_row_views(rows@);
        let ghost errors0 = views(errors@);
        let ghost rv = report@.rows;
        let mut j: usize = 0;
        while j < report.rows.len()
            invariant
                j <= report.rows@.len(),
                rv == report@.rows,
                min_row_views(rows@) == rows0 + partial_rows_of(report@.robot, rv.take(j as int)),
                views(errors@) == errors0 + partial_errors_of(report@.robot, rv.take(j as int)),
            decreases report.rows@.len() - j,
        {
            let cap_row = &report.rows[j];
            assert(rv.take(j + 1).drop_last() =~= rv.take(j as int));
            assert(rv.take(j + 1).last() == cap_row@);
            let ghost rb = min_row_views(rows@);
            let ghost eb = views(errors@);
            if str_eq(cap_row.status.as_str(), "PARTIAL") {
                match lookup_capability(cap_row.capability.as_str()) {
                    Some(def) => {
                        let missing = compute_missing(&def.minimum, &cap_row.required_components);
                        let fixes = suggest_fixes(cap_row.capability.as_str(), &missing);
                        push_row(
                            &mut rows,
                            MinimumCapabilityRow {
                                capability: copy_string(&cap_row.capability),
                                required_by: copy_string(&report.robot),
                                status: owned("FAIL"),
                                missing,
                                suggested_fixes: fixes,
                            },
                        );
                        if def.minimum.severity == VerificationSeverity::Error {
                            push_view(
                                &mut errors,
                                cat5("Robot '", report.robot.as_str(), "' requires capability '", cap_row.capability.as_str(), "'"),
                            );
                        }
                    },
                    None => {},
                }
            }
            assert(min_row_views(rows@) =~= rb + partial_row(report@.robot, cap_row@));
            assert(views(errors@) =~= eb + partial_error(report@.robot, cap_row@));
            j = j + 1;
            assert(min_row_views(rows@) =~= rows0 + partial_rows_of(report@.robot, rv.take(j as int)));
            assert(views(errors@) =~= errors0 + partial_errors_of(report@.robot, rv.take(j as int)));
        }
        assert(rv.take(rv.len() as int) =~= rv);
        i = i + 1;
    }
    assert(reps.take(reps.len() as int) =~= reps);
    (rows, errors)
}

/// Index of the first report for a robot name.
fn find_report_index(robot_reports: &Vec<RobotCapabilityReport>, name: &str) -> (r: Option<usize>)
    ensures
        match r {
            Some(i) => i < robot_reports@.len() && find_report(report_views(robot_reports@), name@) == Some(
                report_views(robot_reports@)[i as int],
            ),
            None => find_report(report_views(robot_reports@), name@) is None,
        },
{
    let ghost reps = report_views(robot_reports@);
    let mut i: usize = 0;
    assert(reps.skip(0) =~= reps);
    while i < robot_reports.len()
        invariant
            i <= robot_reports@.len(),
            reps == report_views(robot_reports@),
            find_report(reps, name@) == find_report(reps.skip(i as int), name@),
        decreases robot_reports@.len() - i,
    {
        assert(reps.skip(i as int)[0] == reps[i as int]);
        if str_eq(robot_reports[i].robot.as_str(), name) {
            return Some(i);
        }
        assert(reps.skip(i as int).drop_first() =~= reps.skip(i + 1));
        i = i + 1;
    }
    assert(reps.skip(i as int).len() == 0);
    None
}

fn patrol_gap_check(
    robot: &RobotDecl,
    robot_reports: &Vec<RobotCapabilityReport>,
    cap: &str,
    rows: &mut Vec<MinimumCapabilityRow>,
    errors: &mut Vec<String>,
)
    ensures
        min_row_views(final(rows)@) == min_row_views(old(rows)@) + patrol_gap_row(*robot, report_views(robot_reports@), cap@),
        views(final(errors)@) == views(old(errors)@) + patrol_gap_error(*robot, report_views(robot_reports@), cap@),
{
    let has_mission = robot.mission.is_some();
    let gap = if (has_mission || list_contains(&robot.exposes_capabilities, "obstacle_avoidance")) && (list_contains(
        &robot.exposes_capabilities,
        cap,
    ) || has_mission) {
        match find_report_index(robot_reports, robot.name.as_str()) {
            Some(idx) => {
                let report = &robot_reports[idx];
                !list_contains(&report.inferred, cap) && !list_contains(&report.declared, cap)
            },
            None => false,
        }
    } else {
        false
    };
    assert(gap == patrol_gap(*robot, report_views(robot_reports@), cap@));
    if gap {
        let mut missing: Vec<String> = Vec::new();
        push_view(&mut missing, owned("minimum hardware"));
        assert(views(missing@) =~= seq!["minimum hardware"@]);
        let mut hint: Vec<String> = Vec::new();
        push_view(&mut hint, owned("Lidar OR DepthCamera OR Radar"));
        let fixes = suggest_fixes(cap, &hint);
        assert(views(hint@) =~= seq!["Lidar OR DepthCamera OR Radar"@]);
        push_row(
            rows,
            MinimumCapabilityRow {
                capability: owned(cap),
                required_by: copy_string(&robot.name),
                status: owned("FAIL"),
                missing,
                suggested_fixes: fixes,
            },
        );
        push_view(errors, cat5("Mission requires ", cap, ". Robot '", robot.name.as_str(), "' lacks minimum hardware."));
    }
    assert(min_row_views(rows@) =~= min_row_views(old(rows)@) + patrol_gap_row(*robot, report_views(robot_reports@), cap@));
    assert(views(errors@) =~= views(old(errors)@) + patrol_gap_error(*robot, report_views(robot_reports@), cap@));
}

fn patrol_part(robots: &Vec<RobotDecl>, robot_reports: &Vec<RobotCapabilityReport>) -> (r: (
    Vec<MinimumCapabilityRow>,
    Vec<String>,
))
    ensures
        min_row_views(r.0@) == patrol_rows(robots@, report_views(robot_reports@)),
        views(r.1@) == patrol_errors(robots@, report_views(robot_reports@)),
{
    let ghost reps = report_views(robot_reports@);
    let mut rows: Vec<MinimumCapabilityRow> = Vec::new();
    let mut errors: Vec<String> = Vec::new();
    let mut i: usize = 0;
    while i < robots.len()
        invariant
            i <= robots@.len(),
            reps == report_views(robot_reports@),
            min_row_views(rows@) == patrol_rows(robots@.take(i as int), reps),
            views(errors@) == patrol_errors(robots@.take(i as int), reps),
        decreases robots@.len() - i,
    {
        let robot = &robots[i];
        assert(robots@.take(i + 1).drop_last() =~= robots@.take(i as int));
        assert(robots@.take(i + 1).last() == *robot);
        let ghost rb = min_row_views(rows@);
        let ghost eb = views(errors@);
        patrol_gap_check(robot, robot_reports, "obstacle_avoidance", &mut rows, &mut errors);
        patrol_gap_check(robot, robot_reports, "gps_navigation", &mut rows, &mut errors);
        patrol_gap_check(robot, robot_reports, "emergency_stop", &mut rows, &mut errors);
        assert(min_row_views(rows@) =~= rb + patrol_rows_of(*robot, reps));
        assert(views(errors@) =~= eb + patrol_errors_of(*robot, reps));
        i = i + 1;
    }
    assert(robots@.take(robots@.len() as int) =~= robots@);
    (rows, errors)
}

/// `r` is the minimum-capability report of the program: its rows, errors and
/// warnings are the specified ones, and it is compatible when there are no errors.
pub open spec fn is_minimum_report(program: Program, r: MinimumCapabilityReport) -> bool {
    &&& min_row_views(r.rows@) == minimum_rows(program)
    &&& views(r.errors@) == minimum_errors(program)
    &&& views(r.warnings@) == minimum_warnings(program)
    &&& r.compatible == (minimum_errors(program).len() == 0)
}

/// Verify that robots satisfy minimum hardware for declared capabilities.
pub fn check_minimum_capabilities(program: &Program) -> (r: MinimumCapabilityReport)
    ensures
        is_minimum_report(*program, r),
{
    let robot_reports = infer_robot_capabilities(program);
    proof { lemma_reports_view(*program, robot_reports@); }
    let (mut rows, mut errors, warnings) = requirement_part(&program.requires_capabilities, &robot_reports);
    let (mut rows2, mut errors2) = partial_part(&robot_reports);
    let (mut rows3, mut errors3) = patrol_part(&program.robots, &robot_reports);
    let ghost r1 = min_row_views(rows@);
    let ghost e1 = views(errors@);
    let ghost r2 = min_row_views(rows2@);
    let ghost e2 = views(errors2@);
    rows.append(&mut rows2);
    errors.append(&mut errors2);
    let ghost r12 = min_row_views(rows@);
    let ghost e12 = views(errors@);
    assert(r12 =~= r1 + r2);
    assert(e12 =~= e1 + e2);
    rows.append(&mut rows3);
    errors.append(&mut errors3);
    assert(min_row_views(rows@) =~= minimum_rows(*program));
    assert(views(errors@) =~= minimum_errors(*program));
    MinimumCapabilityReport { compatible: errors.len() == 0, rows, errors, warnings }
}


proof fn lemma_requirement_errors_contain(reqs: Seq<RequiresCapabilityDecl>, reports: Seq<ReportView>, i: int)
    requires
        0 <= i < reqs.len(),
    ensures
        forall|k: int|
            0 <= k < requirement_error(reqs[i], requirement_row(reqs[i], reports)).len() ==> requirement_errors(
                reqs,
                reports,
            ).contains(#[trigger] requirement_error(reqs[i], requirement_row(reqs[i], reports))[k]),
        forall|k: int|
            0 <= k < requirement_warning(reqs[i], requirement_row(reqs[i], reports)).len() ==> requirement_warnings(
                reqs,
                reports,
            ).contains(#[trigger] requirement_warning(reqs[i], requirement_row(reqs[i], reports))[k]),
    decreases reqs.len(),
{
    let d = reqs.drop_last();
    let last = reqs.len() - 1;
    if i < last {
        assert(d[i] == reqs[i]);
        lemma_requirement_errors_contain(d, reports, i);
        let ea = requirement_errors(d, reports);
        let eb = requirement_error(reqs.last(), requirement_row(reqs.last(), reports));
        assert forall|x: Seq<char>| ea.contains(x) implies (ea + eb).contains(x) by {
            let k = choose|k: int| 0 <= k < ea.len() && ea[k] == x;
            assert((ea + eb)[k] == x);
        }
        let wa = requirement_warnings(d, reports);
        let wb = requirement_warning(reqs.last(), requirement_row(reqs.last(), reports));
        assert forall|x: Seq<char>| wa.contains(x) implies (wa + wb).contains(x) by {
            let k = choose|k: int| 0 <= k < wa.len() && wa[k] == x;
            assert((wa + wb)[k] == x);
        }
    } else {
        let ea = requirement_errors(d, reports);
        let eb = requirement_error(reqs.last(), requirement_row(reqs.last(), reports));
        assert forall|k: int| 0 <= k < eb.len() implies (ea + eb).contains(#[trigger] eb[k]) by {
            assert((ea + eb)[ea.len() + k] == eb[k]);
        }
        let wa = requirement_warnings(d, reports);
        let wb = requirement_warning(reqs.last(), requirement_row(reqs.last(), reports));
        assert forall|k: int| 0 <= k < wb.len() implies (wa + wb).contains(#[trigger] wb[k]) by {
            assert((wa + wb)[wa.len() + k] == wb[k]);
        }
    }
}

/// How many of the first `q.len()` rows fail a warning-severity declaration.
pub open spec fn failing_warning_rows(q: Seq<RequiresCapabilityDecl>, rows: Seq<MinRowView>) -> nat
    decreases q.len(),
{
    if q.len() == 0 {
        0
    } else {
        failing_warning_rows(q.drop_last(), rows) + (if rows[q.len() - 1].status == "FAIL"@ && q.last().severity
            == RequiresCapabilitySeverity::Warning {
            1nat
        } else {
            0nat
        })
    }
}

proof fn lemma_warning_count(q: Seq<RequiresCapabilityDecl>, reports: Seq<ReportView>, rows: Seq<MinRowView>)
    requires
        q.len() <= rows.len(),
        forall|i: int| 0 <= i < q.len() ==> rows[i] == requirement_row(#[trigger] q[i], reports),
    ensures
        requirement_warnings(q, reports).len() == failing_warning_rows(q, rows),
    decreases q.len(),
{
    if q.len() > 0 {
        let d = q.drop_last();
        assert forall|i: int| 0 <= i < d.len() implies rows[i] == requirement_row(#[trigger] d[i], reports) by {
            assert(d[i] == q[i]);
        }
        lemma_warning_count(d, reports, rows);
        assert(q[q.len() - 1] == q.last());
    }
}

/// A minimum-capability report is compatible exactly when it has no errors.
/// Its first rows answer the `requires_capability` declarations in order: a
/// row passes exactly when the capability is registered and some robot's
/// inferred report passes it; an unregistered capability fails with
/// "unknown capability" missing and no fixes. A failing row of an
/// error-severity declaration is reported as an error naming what is missing,
/// and one of a warning-severity declaration as a warning; there is exactly
/// one warning per such failing row.
pub proof fn law_minimum_report(program: Program, r: MinimumCapabilityReport)
    requires
        is_minimum_report(program, r),
    ensures
        r.compatible == (r.errors@.len() == 0),
        r.rows@.len() >= program.requires_capabilities@.len(),
        r.warnings@.len() == failing_warning_rows(program.requires_capabilities@, min_row_views(r.rows@)),
        forall|i: int|
            0 <= i < program.requires_capabilities@.len() ==> {
                let q = #[trigger] program.requires_capabilities@[i];
                let row = r.rows@[i]@;
                &&& row.capability == q.capability@
                &&& (row.status == "PASS"@ <==> (lookup_spec(q.capability@) is Some && satisfied_by_reports(
                    reports_spec(program),
                    q.capability@,
                )))
                &&& (lookup_spec(q.capability@) is None ==> row.status == "FAIL"@ && row.missing == seq![
                    "unknown capability"@,
                ] && row.suggested_fixes.len() == 0)
                &&& (row.status == "FAIL"@ && q.severity == RequiresCapabilitySeverity::Error ==> views(
                    r.errors@,
                ).contains("Mission requires "@ + q.capability@ + ". Missing: "@ + join_spec(row.missing, ", "@)))
                &&& (row.status == "FAIL"@ && q.severity == RequiresCapabilitySeverity::Warning ==> views(
                    r.warnings@,
                ).contains(
                    "Capability "@ + q.capability@ + " partially satisfied: missing "@ + join_spec(row.missing, ", "@),
                ))
            },
{
    reveal_strlit("PASS");
    reveal_strlit("FAIL");
    assert("PASS"@ != "FAIL"@) by {
        assert("PASS"@[0] != "FAIL"@[0]);
    }
    assert(views(r.errors@).len() == r.errors@.len());
    let reports = reports_spec(program);
    let q = program.requires_capabilities@;
    let rows = minimum_rows(program);
    assert(min_row_views(r.rows@).len() == r.rows@.len());
    assert forall|i: int| 0 <= i < q.len() implies {
        let qi = #[trigger] program.requires_capabilities@[i];
        let row = r.rows@[i]@;
        &&& row.capability == qi.capability@
        &&& (row.status == "PASS"@ <==> (lookup_spec(qi.capability@) is Some && satisfied_by_reports(
            reports_spec(program),
            qi.capability@,
        )))
        &&& (lookup_spec(qi.capability@) is None ==> row.status == "FAIL"@ && row.missing == seq![
            "unknown capability"@,
        ] && row.suggested_fixes.len() == 0)
        &&& (row.status == "FAIL"@ && qi.severity == RequiresCapabilitySeverity::Error ==> views(
            r.errors@,
        ).contains("Mission requires "@ + qi.capability@ + ". Missing: "@ + join_spec(row.missing, ", "@)))
        &&& (row.status == "FAIL"@ && qi.severity == RequiresCapabilitySeverity::Warning ==> views(
            r.warnings@,
        ).contains("Capability "@ + qi.capability@ + " partially satisfied: missing "@ + join_spec(row.missing, ", "@)))
    } by {
        let qi = q[i];
        assert(rows[i] == requirement_rows(q, reports)[i]);
        assert(min_row_views(r.rows@)[i] == r.rows@[i]@);
        let row = requirement_row(qi, reports);
        assert(r.rows@[i]@ == row);
        lemma_requirement_errors_contain(q, reports, i);
        let errs = requirement_errors(q, reports);
        let all = minimum_errors(program);
        assert(all == errs + partial_errors(reports) + patrol_errors(program.robots@, reports));
        if row.status == "FAIL"@ && qi.severity == RequiresCapabilitySeverity::Error {
            let e = requirement_error(qi, row);
            assert(e[0] == "Mission requires "@ + qi.capability@ + ". Missing: "@ + join_spec(row.missing, ", "@));
            assert(errs.contains(e[0]));
            let k = choose|k: int| 0 <= k < errs.len() && errs[k] == e[0];
            assert(all[k] == e[0]);
        }
        if row.status == "FAIL"@ && qi.severity == RequiresCapabilitySeverity::Warning {
            let w = requirement_warning(qi, row);
            assert(w[0] == "Capability "@ + qi.capability@ + " partially satisfied: missing "@ + join_spec(
                row.missing,
                ", "@,
            ));
            assert(requirement_warnings(q, reports).contains(w[0]));
        }
    }
    assert forall|i: int| 0 <= i < q.len() implies min_row_views(r.rows@)[i] == requirement_row(
        #[trigger] q[i],
        reports,
    ) by {
        assert(rows[i] == requirement_rows(q, reports)[i]);
    }
    lemma_warning_count(q, reports, min_row_views(r.rows@));
    assert(views(r.warnings@).len() == r.warnings@.len());
}

proof fn lemma_find_first_report(reports: Seq<ReportView>, name: Seq<char>, k: int)
    requires
        0 <= k < reports.len(),
        reports[k].robot == name,
        forall|j: int| 0 <= j < k ==> (#[trigger] reports[j]).robot != name,
    ensures
        find_report(reports, name) == Some(reports[k]),
    decreases k,
{
    if k > 0 {
        let rest = reports.drop_first();
        assert(reports[0].robot != name);
        assert forall|j: int| 0 <= j < k - 1 implies (#[trigger] rest[j]).robot != name by {
            assert(rest[j] == reports[j + 1]);
        }
        lemma_find_first_report(rest, name, k - 1);
    }
}

proof fn lemma_patrol_parts_contain(robots: Seq<RobotDecl>, reports: Seq<ReportView>, k: int, cap: Seq<char>)
    requires
        0 <= k < robots.len(),
        cap == "obstacle_avoidance"@ || cap == "gps_navigation"@ || cap == "emergency_stop"@,
        patrol_gap(robots[k], reports, cap),
    ensures
        patrol_rows(robots, reports).contains(patrol_gap_row(robots[k], reports, cap)[0]),
        patrol_errors(robots, reports).contains(patrol_gap_error(robots[k], reports, cap)[0]),
    decreases robots.len(),
{
    let d = robots.drop_last();
    let r = robots.last();
    if k < robots.len() - 1 {
        assert(d[k] == robots[k]);
        lemma_patrol_parts_contain(d, reports, k, cap);
        lemma_concat_contains(patrol_rows(d, reports), patrol_rows_of(r, reports), patrol_gap_row(robots[k], reports, cap)[0]);
        lemma_concat_contains(patrol_errors(d, reports), patrol_errors_of(r, reports), patrol_gap_error(robots[k], reports, cap)[0]);
    } else {
        let ro = patrol_gap_row(r, reports, "obstacle_avoidance"@);
        let rg = patrol_gap_row(r, reports, "gps_navigation"@);
        let re = patrol_gap_row(r, reports, "emergency_stop"@);
        let eo = patrol_gap_error(r, reports, "obstacle_avoidance"@);
        let eg = patrol_gap_error(r, reports, "gps_navigation"@);
        let ee = patrol_gap_error(r, reports, "emergency_stop"@);
        let x = patrol_gap_row(r, reports, cap)[0];
        let y = patrol_gap_error(r, reports, cap)[0];
        assert(patrol_gap_row(r, reports, cap).contains(x)) by {
            assert(patrol_gap_row(r, reports, cap)[0] == x);
        }
        assert(patrol_gap_error(r, reports, cap).contains(y)) by {
            assert(patrol_gap_error(r, reports, cap)[0] == y);
        }
        lemma_concat_contains(ro, rg, x);
        lemma_concat_contains(ro + rg, re, x);
        lemma_concat_contains(eo, eg, y);
        lemma_concat_contains(eo + eg, ee, y);
        lemma_concat_contains(patrol_rows(d, reports), patrol_rows_of(r, reports), x);
        lemma_concat_contains(patrol_errors(d, reports), patrol_errors_of(r, reports), y);
    }
}

/// A robot that runs a mission must have the minimum hardware for obstacle
/// avoidance, GPS navigation and an emergency stop: for each of these that
/// its capability report neither infers nor declares, the minimum-capability
/// report holds a failing row for the robot missing "minimum hardware" and
/// the error "Mission requires <capability>. Robot '<name>' lacks minimum
/// hardware." (The robot's report is that of the first robot of its name.)
pub proof fn law_mission_robots_need_minimum_hardware(
    program: Program,
    r: MinimumCapabilityReport,
    k: int,
    cap: Seq<char>,
)
    requires
        is_minimum_report(program, r),
        0 <= k < program.robots@.len(),
    ensures
        ({
            let robot = program.robots@[k];
            &&& robot.mission is Some
            &&& cap == "obstacle_avoidance"@ || cap == "gps_navigation"@ || cap == "emergency_stop"@
            &&& forall|j: int| 0 <= j < k ==> (#[trigger] program.robots@[j]).name@ != robot.name@
            &&& !inferred_caps(program, robot).contains(cap)
            &&& !views(robot.exposes_capabilities@).contains(cap)
        }) ==> {
            let robot = program.robots@[k];
            &&& exists|i: int|
                0 <= i < r.rows@.len() && (#[trigger] r.rows@[i])@.capability == cap && r.rows@[i]@.required_by
                    == robot.name@ && r.rows@[i]@.status == "FAIL"@ && r.rows@[i]@.missing == seq![
                    "minimum hardware"@,
                ]
            &&& views(r.errors@).contains(
                "Mission requires "@ + cap + ". Robot '"@ + robot.name@ + "' lacks minimum hardware."@,
            )
        },
{
    let robot = program.robots@[k];
    if robot.mission is Some && (cap == "obstacle_avoidance"@ || cap == "gps_navigation"@ || cap == "emergency_stop"@)
        && (forall|j: int| 0 <= j < k ==> (#[trigger] program.robots@[j]).name@ != robot.name@)
        && !inferred_caps(program, robot).contains(cap) && !views(robot.exposes_capabilities@).contains(cap) {
        let reports = reports_spec(program);
        assert forall|j: int| 0 <= j < k implies (#[trigger] reports[j]).robot != robot.name@ by {
            assert(reports[j] == report_spec(program, program.robots@[j]));
            assert(program.robots@[j].name@ != robot.name@);
        }
        assert(reports[k] == report_spec(program, robot));
        lemma_find_first_report(reports, robot.name@, k);
        assert(patrol_gap(robot, reports, cap));
        lemma_patrol_parts_contain(program.robots@, reports, k, cap);
        let row = patrol_gap_row(robot, reports, cap)[0];
        let err = patrol_gap_error(robot, reports, cap)[0];
        let a = requirement_rows(program.requires_capabilities@, reports) + partial_rows(reports);
        lemma_concat_contains(a, patrol_rows(program.robots@, reports), row);
        let b = requirement_errors(program.requires_capabilities@, reports) + partial_errors(reports);
        lemma_concat_contains(b, patrol_errors(program.robots@, reports), err);
        let rv = min_row_views(r.rows@);
        assert(rv == minimum_rows(program));
        assert(rv.contains(row));
        let i = choose|i: int| 0 <= i < rv.len() && rv[i] == row;
        assert(rv[i] == r.rows@[i]@);
        assert(views(r.errors@) == minimum_errors(program));
    }
}

} // verus!
