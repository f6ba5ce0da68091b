//! Span-aware verification diagnostics for IDE and CLI integration.
use vstd::prelude::*;
use crate::ast::{
    HealthCheckDecl, KillSwitchDecl, Program, RequiresCapabilityDecl, RequiresCapabilitySeverity, RobotDecl, Span,
    };
use crate::minimum::{
    check_minimum_capabilities, min_row_views, minimum_errors, minimum_rows, minimum_warnings, MinRowView,
    MinimumCapabilityRow,
};
use crate::registry::{lookup_capability, lookup_spec};
use crate::robot::{infer_robot_capabilities, lemma_reports_view, report_views, reports_spec, ReportView, RowView};
use crate::text::{
    cat3, cat5, copy_string, has_infix, lemma_split_once, owned, split_once_spec, str_contains, str_eq,
    str_split_once, str_strip_prefix, str_strip_suffix, strip_prefix_spec, strip_suffix_spec, views,
};
use crate::traceability::{
    cap_row_views, capability_errors_spec, capability_rows_spec, capability_traceability, hardware_warnings_spec,
    CapRowView,
};

verus! {

/// Single verification diagnostic with source location.
#[derive(Debug, Clone, PartialEq, Eq)]
pub struct VerificationDiagnostic {
    pub message: String,
    pub line: u32,
    pub column: u32,
    pub severity: String,
    pub category: String,
    pub suggested_fix: Option<String>,
}

/// Mathematical value of a [`VerificationDiagnostic`].
#[verifier::ext_equal]
pub struct DiagView {
    pub message: Seq<char>,
    pub line: u32,
    pub column: u32,
    pub severity: Seq<char>,
    pub category: Seq<char>,
    pub suggested_fix: Option<Seq<char>>,
}

impl View for VerificationDiagnostic {
    type V = DiagView;

    open spec fn view(&self) -> DiagView {
        DiagView {
            message: self.message@,
            line: self.line,
            column: self.column,
            severity: self.severity@,
            category: self.category@,
            suggested_fix: crate::robot::opt_view(self.suggested_fix),
        }
    }
}

pub open spec fn diag_views(v: Seq<VerificationDiagnostic>) -> Seq<DiagView> {
    v.map_values(|d: VerificationDiagnostic| d@)
}

pub const KILL_SWITCH_STUB: &'static str = "kill_switch EmergencyStop {\n    priority: critical;\n    action { emergency_stop; }\n}";

pub const HEALTH_POLICY_STUB: &'static str = "health_policy SafetyPolicy {\n    on Critical { enter degraded_mode; }\n    on Unsafe { emergency_stop; }\n}";

pub const SIGNED_COMM_FIX: &'static str = "identity RobotIdentity { id: \"device\"; public_key: \"key\"; } secure { signed required; }";

pub open spec fn dv(
    message: Seq<char>,
    span: Span,
    severity: Seq<char>,
    category: Seq<char>,
    fix: Option<Seq<char>>,
) -> DiagView {
    DiagView { message, line: span.line, column: span.column, severity, category, suggested_fix: fix }
}

pub open spec fn capability_fix_spec(cap: Seq<char>) -> Option<Seq<char>> {
    if cap == "obstacle_avoidance"@ {
        Some("sensor lidar: Lidar;"@)
    } else if cap == "gps_navigation"@ {
        Some("sensor gps: GPS;"@)
    } else if cap == "emergency_stop"@ {
        Some(KILL_SWITCH_STUB@)
    } else {
        None
    }
}

pub open spec fn severity_spec(s: RequiresCapabilitySeverity) -> Seq<char> {
    match s {
        RequiresCapabilitySeverity::Error => "error"@,
        RequiresCapabilitySeverity::Warning => "warning"@,
        RequiresCapabilitySeverity::Info => "info"@,
    }
}

/// First robot with the name.
pub open spec fn find_robot(robots: Seq<RobotDecl>, name: Seq<char>) -> Option<RobotDecl>
    decreases robots.len(),
{
    if robots.len() == 0 {
        None
    } else if robots[0].name@ == name {
        Some(robots[0])
    } else {
        find_robot(robots.drop_first(), name)
    }
}

/// First requirement declaration for the capability.
pub open spec fn find_req(reqs: Seq<RequiresCapabilityDecl>, cap: Seq<char>) -> Option<RequiresCapabilityDecl>
    decreases reqs.len(),
{
    if reqs.len() == 0 {
        None
    } else if reqs[0].capability@ == cap {
        Some(reqs[0])
    } else {
        find_req(reqs.drop_first(), cap)
    }
}

/// First requirement declaration whose capability occurs in the text.
pub open spec fn find_req_in(reqs: Seq<RequiresCapabilityDecl>, text: Seq<char>) -> Option<RequiresCapabilityDecl>
    decreases reqs.len(),
{
    if reqs.len() == 0 {
        None
    } else if has_infix(text, reqs[0].capability@) {
        Some(reqs[0])
    } else {
        find_req_in(reqs.drop_first(), text)
    }
}

/// First robot whose name occurs in the text.
pub open spec fn find_robot_in(robots: Seq<RobotDecl>, text: Seq<char>) -> Option<RobotDecl>
    decreases robots.len(),
{
    if robots.len() == 0 {
        None
    } else if has_infix(text, robots[0].name@) {
        Some(robots[0])
    } else {
        find_robot_in(robots.drop_first(), text)
    }
}

/// First minimum row whose capability occurs in the text.
pub open spec fn find_row_in(rows: Seq<MinRowView>, text: Seq<char>) -> Option<MinRowView>
    decreases rows.len(),
{
    if rows.len() == 0 {
        None
    } else if has_infix(text, rows[0].capability) {
        Some(rows[0])
    } else {
        find_row_in(rows.drop_first(), text)
    }
}

/// Diagnostic for a traceability error, when it names a declared robot or requirement.
pub open spec fn trace_error_diag(
    err: Seq<char>,
    robots: Seq<RobotDecl>,
    reqs: Seq<RequiresCapabilityDecl>,
) -> Option<DiagView> {
    let hw = match strip_prefix_spec(err, "Robot '"@) {
        Some(rest) => match split_once_spec(rest, "' uses undeclared hardware '"@) {
            Some(parts) => match find_robot(robots, parts.0) {
                Some(r) => Some(dv(err, r.span, "error"@, "traceability"@, None)),
                None => None,
            },
            None => None,
        },
        None => None,
    };
    if hw is Some {
        hw
    } else {
        match strip_prefix_spec(err, "Unknown capability '"@) {
            Some(rest) => match strip_suffix_spec(rest, "'"@) {
                Some(cap) => match find_req(reqs, cap) {
                    Some(q) => Some(dv(err, q.span, "error"@, "capability"@, None)),
                    None => None,
                },
                None => None,
            },
            None => None,
        }
    }
}

/// Diagnostic for a traceability warning about an ungated actuator of a declared robot.
pub open spec fn trace_warning_diag(warn: Seq<char>, robots: Seq<RobotDecl>) -> Option<DiagView> {
    match strip_prefix_spec(warn, "Actuator '"@) {
        Some(rest) => match split_once_spec(rest, "' on robot '"@) {
            Some(parts) => match strip_suffix_spec(parts.1, "' has no safety gate"@) {
                Some(rname) => match find_robot(robots, rname) {
                    Some(r) => Some(
                        dv(warn, r.span, "warning"@, "traceability"@, Some("safety { max_speed = 1.0 m/s; }"@)),
                    ),
                    None => None,
                },
                None => None,
            },
            None => None,
        },
        None => None,
    }
}

/// Fix suggested for a minimum-hardware error.
pub open spec fn minimum_fix(err: Seq<char>, rows: Seq<MinRowView>) -> Option<Seq<char>> {
    let from_rows = match find_row_in(rows, err) {
        Some(row) => if row.suggested_fixes.len() > 0 {
            Some(row.suggested_fixes[0])
        } else {
            None
        },
        None => None,
    };
    if from_rows is Some {
        from_rows
    } else if has_infix(err, "obstacle_avoidance"@) {
        Some("Add Lidar sensor to hardware profile"@)
    } else if has_infix(err, "gps_navigation"@) {
        Some("Add GPS sensor to hardware profile"@)
    } else {
        None
    }
}

/// Diagnostic for a minimum-hardware error naming a requirement or a robot.
pub open spec fn minimum_error_diag(
    err: Seq<char>,
    reqs: Seq<RequiresCapabilityDecl>,
    robots: Seq<RobotDecl>,
    rows: Seq<MinRowView>,
) -> Option<DiagView> {
    let fix = minimum_fix(err, rows);
    match find_req_in(reqs, err) {
        Some(q) => Some(
            dv(
                err,
                q.span,
                severity_spec(q.severity),
                "minimum-hardware"@,
                if fix is Some {
                    fix
                } else {
                    capability_fix_spec(q.capability@)
                },
            ),
        ),
        None => match find_robot_in(robots, err) {
            Some(r) => Some(dv(err, r.span, "error"@, "minimum-hardware"@, fix)),
            None => None,
        },
    }
}

pub open spec fn somes(s: Seq<Option<DiagView>>) -> Seq<DiagView>
    decreases s.len(),
{
    if s.len() == 0 {
        seq![]
    } else {
        somes(s.drop_last()) + match s.last() {
            Some(d) => seq![d],
            None => seq![],
        }
    }
}

pub open spec fn failing_row_diag(row: CapRowView, reqs: Seq<RequiresCapabilityDecl>) -> Option<DiagView> {
    if row.status == "FAIL"@ {
        match find_req(reqs, row.capability) {
            Some(q) => Some(
                dv(
                    "Capability '"@ + row.capability + "' not satisfied by robot '"@ + row.provided_by + "'"@,
                    q.span,
                    "warning"@,
                    "capability"@,
                    capability_fix_spec(row.capability),
                ),
            ),
            None => None,
        }
    } else {
        None
    }
}

pub open spec fn unknown_req_diag(q: RequiresCapabilityDecl) -> Option<DiagView> {
    if lookup_spec(q.capability@) is None {
        Some(dv("Unknown capability '"@ + q.capability@ + "'"@, q.span, severity_spec(q.severity), "capability"@, None))
    } else {
        None
    }
}

/// Some robot declares secure comms, trust, or a signed topic.
pub open spec fn signed_comm_spec(p: Program) -> bool {
    exists|i: int|
        0 <= i < p.robots@.len() && {
            let r = #[trigger] p.robots@[i];
            r.has_secure_comm || r.has_trust || exists|j: int|
                0 <= j < r.topics@.len() && match #[trigger] r.topics@[j].secure {
                    Some(s) => s.signed || s.signed_required,
                    None => false,
                }
        }
}

pub open spec fn kill_switch_diag(k: KillSwitchDecl, p: Program) -> Option<DiagView> {
    if k.remote_signed && !signed_comm_spec(p) {
        Some(
            dv(
                "Kill switch '"@ + k.name@
                    + "' requires remote_signed but no signed secure comm or topic policy is declared"@,
                k.span,
                "error"@,
                "kill-switch"@,
                Some(SIGNED_COMM_FIX@),
            ),
        )
    } else {
        None
    }
}

pub open spec fn has_drive_actuator(r: RobotDecl) -> bool {
    exists|i: int| 0 <= i < r.actuators@.len() && has_infix(#[trigger] r.actuators@[i].actuator_type@, "Drive"@)
}

/// Kill-switch diagnostics of one robot, and the missing-handler hint.
pub open spec fn robot_kill_diags(r: RobotDecl, p: Program) -> Seq<DiagView> {
    somes(r.kill_switches@.map_values(|k: KillSwitchDecl| kill_switch_diag(k, p))) + if r.kill_switches@.len() == 0
        && p.kill_switches@.len() == 0 && has_drive_actuator(r) {
        seq![
            dv(
                "Robot '"@ + r.name@ + "' has actuators but no kill_switch handler"@,
                r.span,
                "info"@,
                "kill-switch"@,
                Some(KILL_SWITCH_STUB@),
            ),
        ]
    } else {
        seq![]
    }
}

pub open spec fn robots_kill_diags(robots: Seq<RobotDecl>, p: Program) -> Seq<DiagView>
    decreases robots.len(),
{
    if robots.len() == 0 {
        seq![]
    } else {
        robots_kill_diags(robots.drop_last(), p) + robot_kill_diags(robots.last(), p)
    }
}

pub open spec fn health_diags(p: Program) -> Seq<DiagView> {
    if p.health_checks@.len() > 0 && p.health_policies@.len() == 0 {
        p.health_checks@.map_values(
            |h: HealthCheckDecl|
                dv(
                    "Health check '"@ + h.name@ + "' has no matching health_policy"@,
                    h.span,
                    "info"@,
                    "health"@,
                    Some(HEALTH_POLICY_STUB@),
                ),
        )
    } else {
        seq![]
    }
}

pub open spec fn partial_diag(robot: Seq<char>, row: RowView, robots: Seq<RobotDecl>) -> Option<DiagView> {
    if row.status == "PARTIAL"@ {
        match find_robot(robots, robot) {
            Some(r) => Some(
                dv(
                    "Capability '"@ + row.capability + "' partially satisfied on robot '"@ + robot + "'"@,
                    r.span,
                    "warning"@,
                    "capability"@,
                    capability_fix_spec(row.capability),
                ),
            ),
            None => None,
        }
    } else {
        None
    }
}

pub open spec fn partial_diags(reports: Seq<ReportView>, robots: Seq<RobotDecl>) -> Seq<DiagView>
    decreases reports.len(),
{
    if reports.len() == 0 {
        seq![]
    } else {
        partial_diags(reports.drop_last(), robots) + somes(
            reports.last().rows.map_values(|row: RowView| partial_diag(reports.last().robot, row, robots)),
        )
    }
}

/// All verification diagnostics of a program, in reporting order.
pub open spec fn verification_diags_spec(p: Program) -> Seq<DiagView> {
    let robots = p.robots@;
    let reqs = p.requires_capabilities@;
    somes(capability_errors_spec(p).map_values(|e: Seq<char>| trace_error_diag(e, robots, reqs)))
        + somes(hardware_warnings_spec(p).map_values(|w: Seq<char>| trace_warning_diag(w, robots)))
        + somes(capability_rows_spec(reqs, robots).map_values(|row: CapRowView| failing_row_diag(row, reqs)))
        + somes(minimum_errors(p).map_values(|e: Seq<char>| minimum_error_diag(e, reqs, robots, minimum_rows(p))))
        + minimum_warnings(p).map_values(
        |w: Seq<char>| dv(w, Span { line: 1, column: 1 }, "warning"@, "minimum-hardware"@, None),
    ) + somes(reqs.map_values(|q: RequiresCapabilityDecl| unknown_req_diag(q))) + somes(
        p.kill_switches@.map_values(|k: KillSwitchDecl| kill_switch_diag(k, p)),
    ) + robots_kill_diags(robots, p) + health_diags(p) + partial_diags(reports_spec(p), robots)
}

pub open spec fn opt_diag(d: Option<VerificationDiagnostic>) -> Option<DiagView> {
    match d {
        Some(d) => Some(d@),
        None => None,
    }
}

pub proof fn lemma_somes_push(s: Seq<Option<DiagView>>, o: Option<DiagView>)
    ensures
        somes(s.push(o)) == somes(s) + match o {
            Some(d) => seq![d],
            None => seq![],
        },
{
    assert(s.push(o).drop_last() =~= s);
}

fn push_diag(v: &mut Vec<VerificationDiagnostic>, d: VerificationDiagnostic)
    ensures
        diag_views(final(v)@) == diag_views(old(v)@).push(d@),
{
    let ghost before = v@;
    v.push(d);
    assert(diag_views(v@) =~= diag_views(before).push(d@));
}

fn push_opt(v: &mut Vec<VerificationDiagnostic>, d: Option<VerificationDiagnostic>)
    ensures
        diag_views(final(v)@) == diag_views(old(v)@) + match opt_diag(d) {
            Some(x) => seq![x],
            None => seq![],
        },
{
    match d {
        Some(d) => {
            push_diag(v, d);
            assert(diag_views(v@) =~= diag_views(old(v)@) + seq![d@]);
        },
        None => {
            assert(diag_views(v@) =~= diag_views(old(v)@) + seq![]);
        },
    }
}

fn diag(message: String, span: Span, severity: &str, category: &str, suggested_fix: Option<String>) -> (r:
    VerificationDiagnostic)
    ensures
        r@ == dv(message@, span, severity@, category@, crate::robot::opt_view(suggested_fix)),
{
    VerificationDiagnostic {
        message,
        line: span.line,
        column: span.column,
        severity: owned(severity),
        category: owned(category),
        suggested_fix,
    }
}

fn capability_fix_for(capability: &str) -> (r: Option<String>)
    ensures
        crate::robot::opt_view(r) == capability_fix_spec(capability@),
{
    if str_eq(capability, "obstacle_avoidance") {
        Some(owned("sensor lidar: Lidar;"))
    } else if str_eq(capability, "gps_navigation") {
        Some(owned("sensor gps: GPS;"))
    } else if str_eq(capability, "emergency_stop") {
        Some(owned(KILL_SWITCH_STUB))
    } else {
        None
    }
}

fn severity_for(severity: RequiresCapabilitySeverity) -> (r: &'static str)
    ensures
        r@ == severity_spec(severity),
{
    match severity {
        RequiresCapabilitySeverity::Error => "error",
        RequiresCapabilitySeverity::Warning => "warning",
        RequiresCapabilitySeverity::Info => "info",
    }
}

fn robot_index(robots: &Vec<RobotDecl>, name: &str) -> (r: Option<usize>)
    ensures
        match r {
            Some(i) => i < robots@.len() && find_robot(robots@, name@) == Some(robots@[i as int]),
            None => find_robot(robots@, name@) is None,
        },
{
    let mut i: usize = 0;
    assert(robots@.skip(0) =~= robots@);
    while i < robots.len()
        invariant
            i <= robots@.len(),
            find_robot(robots@, name@) == find_robot(robots@.skip(i as int), name@),
        decreases robots@.len() - i,
    {
        assert(robots@.skip(i as int)[0] == robots@[i as int]);
        if str_eq(robots[i].name.as_str(), name) {
            return Some(i);
        }
        assert(robots@.skip(i as int).drop_first() =~= robots@.skip(i + 1));
        i = i + 1;
    }
    assert(robots@.skip(i as int).len() == 0);
    None
}

fn req_index(reqs: &Vec<RequiresCapabilityDecl>, cap: &str) -> (r: Option<usize>)
    ensures
        match r {
            Some(i) => i < reqs@.len() && find_req(reqs@, cap@) == Some(reqs@[i as int]),
            None => find_req(reqs@, cap@) is None,
        },
{
    let mut i: usize = 0;
    assert(reqs@.skip(0) =~= reqs@);
    while i < reqs.len()
        invariant
            i <= reqs@.len(),
            find_req(reqs@, cap@) == find_req(reqs@.skip(i as int), cap@),
        decreases reqs@.len() - i,
    {
        assert(reqs@.skip(i as int)[0] == reqs@[i as int]);
        if str_eq(reqs[i].capability.as_str(), cap) {
            return Some(i);
        }
        assert(reqs@.skip(i as int).drop_first() =~= reqs@.skip(i + 1));
        i = i + 1;
    }
    assert(reqs@.skip(i as int).len() == 0);
    None
}

fn req_index_in(reqs: &Vec<RequiresCapabilityDecl>, text: &str) -> (r: Option<usize>)
    ensures
        match r {
            Some(i) => i < reqs@.len() && find_req_in(reqs@, text@) == Some(reqs@[i as int]),
            None => find_req_in(reqs@, text@) is None,
        },
{
    let mut i: usize = 0;
    assert(reqs@.skip(0) =~= reqs@);
    while i < reqs.len()
        invariant
            i <= reqs@.len(),
            find_req_in(reqs@, text@) == find_req_in(reqs@.skip(i as int), text@),
        decreases reqs@.len() - i,
    {
        assert(reqs@.skip(i as int)[0] == reqs@[i as int]);
        if str_contains(text, reqs[i].capability.as_str()) {
            return Some(i);
        }
        assert(reqs@.skip(i as int).drop_first() =~= reqs@.skip(i + 1));
        i = i + 1;
    }
    assert(reqs@.skip(i as int).len() == 0);
    None
}

fn robot_index_in(robots: &Vec<RobotDecl>, text: &str) -> (r: Option<usize>)
    ensures
        match r {
            Some(i) => i < robots@.len() && find_robot_in(robots@, text@) == Some(robots@[i as int]),
            None => find_robot_in(robots@, text@) is None,
        },
{
    let mut i: usize = 0;
    assert(robots@.skip(0) =~= robots@);
    while i < robots.len()
        invariant
            i <= robots@.len(),
            find_robot_in(robots@, text@) == find_robot_in(robots@.skip(i as int), text@),
        decreases robots@.len() - i,
    {
        assert(robots@.skip(i as int)[0] == robots@[i as int]);
        if str_contains(text, robots[i].name.as_str()) {
            return Some(i);
        }
        assert(robots@.skip(i as int).drop_first() =~= robots@.skip(i + 1));
        i = i + 1;
    }
    assert(robots@.skip(i as int).len() == 0);
    None
}

fn row_index_in(rows: &Vec<MinimumCapabilityRow>, text: &str) -> (r: Option<usize>)
    ensures
        match r {
            Some(i) => i < rows@.len() && find_row_in(min_row_views(rows@), text@) == Some(rows@[i as int]@),
            None => find_row_in(min_row_views(rows@), text@) is None,
        },
{
    let ghost v = min_row_views(rows@);
    let mut i: usize = 0;
    assert(v.skip(0) =~= v);
    while i < rows.len()
        invariant
            i <= rows@.len(),
            v == min_row_views(rows@),
            find_row_in(v, text@) == find_row_in(v.skip(i as int), text@),
        decreases rows@.len() - i,
    {
        assert(v.skip(i as int)[0] == rows@[i as int]@);
        if str_contains(text, rows[i].capability.as_str()) {
            return Some(i);
        }
        assert(v.skip(i as int).drop_first() =~= v.skip(i + 1));
        i = i + 1;
    }
    assert(v.skip(i as int).len() == 0);
    None
}

fn map_traceability_error(err: &str, robots: &Vec<RobotDecl>, reqs: &Vec<RequiresCapabilityDecl>) -> (r:
    Option<VerificationDiagnostic>)
    ensures
        opt_diag(r) == trace_error_diag(err@, robots@, reqs@),
{
    if let Some(rest) = str_strip_prefix(err, "Robot '") {
        if let Some((name, tail)) = str_split_once(rest, "' uses undeclared hardware '") {
            proof { lemma_split_once(rest@, "' uses undeclared hardware '"@, name@, tail@); }
            if let Some(idx) = robot_index(robots, name) {
                let span = robots[idx].span;
                return Some(diag(owned(err), span, "error", "traceability", None));
            }
        }
    }
    if let Some(rest) = str_strip_prefix(err, "Unknown capability '") {
        if let Some(cap) = str_strip_suffix(rest, "'") {
            if let Some(idx) = req_index(reqs, cap) {
                let span = reqs[idx].span;
                return Some(diag(owned(err), span, "error", "capability", None));
            }
        }
    }
    None
}

fn map_traceability_warning(warn: &str, robots: &Vec<RobotDecl>) -> (r: Option<VerificationDiagnostic>)
    ensures
        opt_diag(r) == trace_warning_diag(warn@, robots@),
{
    if let Some(rest) = str_strip_prefix(warn, "Actuator '") {
        if let Some((actuator, tail)) = str_split_once(rest, "' on robot '") {
            proof { lemma_split_once(rest@, "' on robot '"@, actuator@, tail@); }
            if let Some(rname) = str_strip_suffix(tail, "' has no safety gate") {
                if let Some(idx) = robot_index(robots, rname) {
                    let span = robots[idx].span;
                    return Some(
                        diag(owned(warn), span, "warning", "traceability", Some(owned("safety { max_speed = 1.0 m/s; }"))),
                    );
                }
            }
        }
    }
    None
}

fn map_minimum_error(
    err: &str,
    reqs: &Vec<RequiresCapabilityDecl>,
    robots: &Vec<RobotDecl>,
    rows: &Vec<MinimumCapabilityRow>,
) -> (r: Option<VerificationDiagnostic>)
    ensures
        opt_diag(r) == minimum_error_diag(err@, reqs@, robots@, min_row_views(rows@)),
{
    let from_rows = match row_index_in(rows, err) {
        Some(i) => if rows[i].suggested_fixes.len() > 0 {
            Some(copy_string(&rows[i].suggested_fixes[0]))
        } else {
            None
        },
        None => None,
    };
    let fix_from_rows = if from_rows.is_some() {
        from_rows
    } else if str_contains(err, "obstacle_avoidance") {
        Some(owned("Add Lidar sensor to hardware profile"))
    } else if str_contains(err, "gps_navigation") {
        Some(owned("Add GPS sensor to hardware profile"))
    } else {
        None
    };
    assert(crate::robot::opt_view(fix_from_rows) == minimum_fix(err@, min_row_views(rows@)));
    match req_index_in(reqs, err) {
        Some(i) => {
            let req = &reqs[i];
            let fix = if fix_from_rows.is_some() {
                fix_from_rows
            } else {
                capability_fix_for(req.capability.as_str())
            };
            Some(diag(owned(err), req.span, severity_for(req.severity), "minimum-hardware", fix))
        },
        None => match robot_index_in(robots, err) {
            Some(i) => Some(diag(owned(err), robots[i].span, "error", "minimum-hardware", fix_from_rows)),
            None => None,
        },
    }
}

fn program_has_signed_comm(program: &Program) -> (r: bool)
    ensures
        r == signed_comm_spec(*program),
{
    let robots = &program.robots;
    let mut i: usize = 0;
    while i < robots.len()
        invariant
            i <= robots@.len(),
            robots == &program.robots,
            forall|k: int| 0 <= k < i ==> {
                let r = #[trigger] robots@[k];
                !(r.has_secure_comm || r.has_trust || exists|j: int|
                    0 <= j < r.topics@.len() && match #[trigger] r.topics@[j].secure {
                        Some(s) => s.signed || s.signed_required,
                        None => false,
                    })
            },
        decreases robots@.len() - i,
    {
        let robot = &robots[i];
        if robot.has_secure_comm || robot.has_trust {
            assert(robots@[i as int] == *robot);
            return true;
        }
        let mut j: usize = 0;
        while j < robot.topics.len()
            invariant
                j <= robot.topics@.len(),
                i < robots@.len(),
                robots == &program.robots,
                *robot == robots@[i as int],
                forall|k: int| 0 <= k < j ==> match #[trigger] robot.topics@[k].secure {
                    Some(s) => !(s.signed || s.signed_required),
                    None => true,
                },
            decreases robot.topics@.len() - j,
        {
            let signed = match robot.topics[j].secure {
                Some(s) => s.signed || s.signed_required,
                None => false,
            };
            if signed {
                assert(robots@[i as int] == *robot);
                assert(match robot.topics@[j as int].secure {
                    Some(s) => s.signed || s.signed_required,
                    None => false,
                });
                return true;
            }
            j = j + 1;
        }
        i = i + 1;
    }
    false
}

fn kill_switch_diagnostics(ks: &KillSwitchDecl, program: &Program) -> (r: Option<VerificationDiagnostic>)
    ensures
        opt_diag(r) == kill_switch_diag(*ks, *program),
{
    if ks.remote_signed && !program_has_signed_comm(program) {
        Some(
            diag(
                cat3(
                    "Kill switch '",
                    ks.name.as_str(),
                    "' requires remote_signed but no signed secure comm or topic policy is declared",
                ),
                ks.span,
                "error",
                "kill-switch",
                Some(owned(SIGNED_COMM_FIX)),
            ),
        )
    } else {
        None
    }
}

fn trace_error_part(errs: &Vec<String>, robots: &Vec<RobotDecl>, reqs: &Vec<RequiresCapabilityDecl>) -> (r: Vec<
    VerificationDiagnostic,
>)
    ensures
        diag_views(r@) == somes(views(errs@).map_values(|e: Seq<char>| trace_error_diag(e, robots@, reqs@))),
{
    let ghost l = views(errs@);
    let mut out: Vec<VerificationDiagnostic> = Vec::new();
    let mut i: usize = 0;
    assert(l.take(0).map_values(|e: Seq<char>| trace_error_diag(e, robots@, reqs@)) =~= seq![]);
    while i < errs.len()
        invariant
            i <= errs@.len(),
            l == views(errs@),
            diag_views(out@) == somes(l.take(i as int).map_values(|e: Seq<char>| trace_error_diag(e, robots@, reqs@))),
        decreases errs@.len() - i,
    {
        let d = map_traceability_error(errs[i].as_str(), robots, reqs);
        assert(l.take(i + 1).map_values(|e: Seq<char>| trace_error_diag(e, robots@, reqs@)) =~= l.take(i as int).map_values(
            |e: Seq<char>| trace_error_diag(e, robots@, reqs@)).push(opt_diag(d)));
        proof { lemma_somes_push(l.take(i as int).map_values(|e: Seq<char>| trace_error_diag(e, robots@, reqs@)), opt_diag(d)); }
        push_opt(&mut out, d);
        i = i + 1;
    }
    assert(l.take(l.len() as int) =~= l);
    out
}

fn trace_warning_part(warns: &Vec<String>, robots: &Vec<RobotDecl>) -> (r: Vec<VerificationDiagnostic>)
    ensures
        diag_views(r@) == somes(views(warns@).map_values(|w: Seq<char>| trace_warning_diag(w, robots@))),
{
    let ghost l = views(warns@);
    let mut out: Vec<VerificationDiagnostic> = Vec::new();
    let mut i: usize = 0;
    assert(l.take(0).map_values(|w: Seq<char>| trace_warning_diag(w, robots@)) =~= seq![]);
    while i < warns.len()
        invariant
            i <= warns@.len(),
            l == views(warns@),
            diag_views(out@) == somes(l.take(i as int).map_values(|w: Seq<char>| trace_warning_diag(w, robots@))),
        decreases warns@.len() - i,
    {
        let d = map_traceability_warning(warns[i].as_str(), robots);
        assert(l.take(i + 1).map_values(|w: Seq<char>| trace_warning_diag(w, robots@)) =~= l.take(i as int).map_values(
            |w: Seq<char>| trace_warning_diag(w, robots@)).push(opt_diag(d)));
        proof { lemma_somes_push(l.take(i as int).map_values(|w: Seq<char>| trace_warning_diag(w, robots@)), opt_diag(d)); }
        push_opt(&mut out, d);
        i = i + 1;
    }
    assert(l.take(l.len() as int) =~= l);
    out
}

fn failing_row_part(rows: &Vec<crate::traceability::CapabilityTraceRow>, reqs: &Vec<RequiresCapabilityDecl>) -> (r: Vec<
    VerificationDiagnostic,
>)
    ensures
        diag_views(r@) == somes(cap_row_views(rows@).map_values(|row: CapRowView| failing_row_diag(row, reqs@))),
{
    let ghost l = cap_row_views(rows@);
    let mut out: Vec<VerificationDiagnostic> = Vec::new();
    let mut i: usize = 0;
    assert(l.take(0).map_values(|row: CapRowView| failing_row_diag(row, reqs@)) =~= seq![]);
    while i < rows.len()
        invariant
            i <= rows@.len(),
            l == cap_row_views(rows@),
            diag_views(out@) == somes(l.take(i as int).map_values(|row: CapRowView| failing_row_diag(row, reqs@))),
        decreases rows@.len() - i,
    {
        let row = &rows[i];
        let d = if str_eq(row.status.as_str(), "FAIL") {
            match req_index(reqs, row.capability.as_str()) {
                Some(k) => Some(
                    diag(
                        cat5("Capability '", row.capability.as_str(), "' not satisfied by robot '", row.provided_by.as_str(), "'"),
                        reqs[k].span,
                        "warning",
                        "capability",
                        capability_fix_for(row.capability.as_str()),
                    ),
                ),
                None => None,
            }
        } else {
            None
        };
        assert(opt_diag(d) == failing_row_diag(l[i as int], reqs@));
        assert(l.take(i + 1).map_values(|row: CapRowView| failing_row_diag(row, reqs@)) =~= l.take(i as int).map_values(
            |row: CapRowView| failing_row_diag(row, reqs@)).push(opt_diag(d)));
        proof { lemma_somes_push(l.take(i as int).map_values(|row: CapRowView| failing_row_diag(row, reqs@)), opt_diag(d)); }
        push_opt(&mut out, d);
        i = i + 1;
    }
    assert(l.take(l.len() as int) =~= l);
    out
}

fn minimum_error_part(
    errs: &Vec<String>,
    reqs: &Vec<RequiresCapabilityDecl>,
    robots: &Vec<RobotDecl>,
    rows: &Vec<MinimumCapabilityRow>,
) -> (r: Vec<VerificationDiagnostic>)
    ensures
        diag_views(r@) == somes(views(errs@).map_values(|e: Seq<char>| minimum_error_diag(e, reqs@, robots@, min_row_views(rows@)))),
{
    let ghost l = views(errs@);
    let ghost mr = min_row_views(rows@);
    let mut out: Vec<VerificationDiagnostic> = Vec::new();
    let mut i: usize = 0;
    assert(l.take(0).map_values(|e: Seq<char>| minimum_error_diag(e, reqs@, robots@, mr)) =~= seq![]);
    while i < errs.len()
        invariant
            i <= errs@.len(),
            l == views(errs@),
            mr == min_row_views(rows@),
            diag_views(out@) == somes(l.take(i as int).map_values(|e: Seq<char>| minimum_error_diag(e, reqs@, robots@, mr))),
        decreases errs@.len() - i,
    {
        let d = map_minimum_error(errs[i].as_str(), reqs, robots, rows);
        assert(l.take(i + 1).map_values(|e: Seq<char>| minimum_error_diag(e, reqs@, robots@, mr)) =~= l.take(i as int).map_values(
            |e: Seq<char>| minimum_error_diag(e, reqs@, robots@, mr)).push(opt_diag(d)));
        proof { lemma_somes_push(l.take(i as int).map_values(|e: Seq<char>| minimum_error_diag(e, reqs@, robots@, mr)), opt_diag(d)); }
        push_opt(&mut out, d);
        i = i + 1;
    }
    assert(l.take(l.len() as int) =~= l);
    out
}

fn minimum_warning_part(warns: &Vec<String>) -> (r: Vec<VerificationDiagnostic>)
    ensures
        diag_views(r@) == views(warns@).map_values(
            |w: Seq<char>| dv(w, Span { line: 1, column: 1 }, "warning"@, "minimum-hardware"@, None),
        ),
{
    let ghost l = views(warns@);
    let mut out: Vec<VerificationDiagnostic> = Vec::new();
    let mut i: usize = 0;
    while i < warns.len()
        invariant
            i <= warns@.len(),
            l == views(warns@),
            diag_views(out@) == l.take(i as int).map_values(
                |w: Seq<char>| dv(w, Span { line: 1, column: 1 }, "warning"@, "minimum-hardware"@, None),
            ),
        decreases warns@.len() - i,
    {
        let d = diag(copy_string(&warns[i]), Span { line: 1, column: 1 }, "warning", "minimum-hardware", None);
        push_diag(&mut out, d);
        i = i + 1;
        assert(diag_views(out@) =~= l.take(i as int).map_values(
            |w: Seq<char>| dv(w, Span { line: 1, column: 1 }, "warning"@, "minimum-hardware"@, None),
        ));
    }
    assert(l.take(l.len() as int) =~= l);
    out
}

fn unknown_req_part(reqs: &Vec<RequiresCapabilityDecl>) -> (r: Vec<VerificationDiagnostic>)
    ensures
        diag_views(r@) == somes(reqs@.map_values(|q: RequiresCapabilityDecl| unknown_req_diag(q))),
{
    let mut out: Vec<VerificationDiagnostic> = Vec::new();
    let mut i: usize = 0;
    assert(reqs@.take(0).map_values(|q: RequiresCapabilityDecl| unknown_req_diag(q)) =~= seq![]);
    while i < reqs.len()
        invariant
            i <= reqs@.len(),
            diag_views(out@) == somes(reqs@.take(i as int).map_values(|q: RequiresCapabilityDecl| unknown_req_diag(q))),
        decreases reqs@.len() - i,
    {
        let req = &reqs[i];
        let d = if lookup_capability(req.capability.as_str()).is_none() {
            Some(diag(cat3("Unknown capability '", req.capability.as_str(), "'"), req.span, severity_for(req.severity), "capability", None))
        } else {
            None
        };
        assert(reqs@.take(i + 1).map_values(|q: RequiresCapabilityDecl| unknown_req_diag(q)) =~= reqs@.take(i as int).map_values(
            |q: RequiresCapabilityDecl| unknown_req_diag(q)).push(opt_diag(d)));
        proof { lemma_somes_push(reqs@.take(i as int).map_values(|q: RequiresCapabilityDecl| unknown_req_diag(q)), opt_diag(d)); }
        push_opt(&mut out, d);
        i = i + 1;
    }
    assert(reqs@.take(reqs@.len() as int) =~= reqs@);
    out
}

fn kill_switch_part(kss: &Vec<KillSwitchDecl>, program: &Program) -> (r: Vec<VerificationDiagnostic>)
    ensures
        diag_views(r@) == somes(kss@.map_values(|k: KillSwitchDecl| kill_switch_diag(k, *program))),
{
    let mut out: Vec<VerificationDiagnostic> = Vec::new();
    let mut i: usize = 0;
    assert(kss@.take(0).map_values(|k: KillSwitchDecl| kill_switch_diag(k, *program)) =~= seq![]);
    while i < kss.len()
        invariant
            i <= kss@.len(),
            diag_views(out@) == somes(kss@.take(i as int).map_values(|k: KillSwitchDecl| kill_switch_diag(k, *program))),
        decreases kss@.len() - i,
    {
        let d = kill_switch_diagnostics(&kss[i], program);
        assert(kss@.take(i + 1).map_values(|k: KillSwitchDecl| kill_switch_diag(k, *program)) =~= kss@.take(i as int).map_values(
            |k: KillSwitchDecl| kill_switch_diag(k, *program)).push(opt_diag(d)));
        proof { lemma_somes_push(kss@.take(i as int).map_values(|k: KillSwitchDecl| kill_switch_diag(k, *program)), opt_diag(d)); }
        push_opt(&mut out, d);
        i = i + 1;
    }
    assert(kss@.take(kss@.len() as int) =~= kss@);
    out
}

fn robot_kill_part(program: &Program) -> (r: Vec<VerificationDiagnostic>)
    ensures
        diag_views(r@) == robots_kill_diags(program.robots@, *program),
{
    let robots = &program.robots;
    let mut out: Vec<VerificationDiagnostic> = Vec::new();
    let mut i: usize = 0;
    while i < robots.len()
        invariant
            i <= robots@.len(),
            robots == &program.robots,
            diag_views(out@) == robots_kill_diags(robots@.take(i as int), *program),
        decreases robots@.len() - i,
    {
        let robot = &robots[i];
        assert(robots@.take(i + 1).drop_last() =~= robots@.take(i as int));
        assert(robots@.take(i + 1).last() == *robot);
        let mut part = kill_switch_part(&robot.kill_switches, program);
        if robot.kill_switches.len() == 0 && program.kill_switches.len() == 0 {
            let mut has_drive = false;
            let mut j: usize = 0;
            while j < robot.actuators.len()
                invariant
                    j <= robot.actuators@.len(),
                    has_drive == exists|k: int| 0 <= k < j && has_infix(#[trigger] robot.actuators@[k].actuator_type@, "Drive"@),
                decreases robot.actuators@.len() - j,
            {
                if str_contains(robot.actuators[j].actuator_type.as_str(), "Drive") {
                    has_drive = true;
                }
                j = j + 1;
            }
            if has_drive {
                push_diag(
                    &mut part,
                    diag(
                        cat3("Robot '", robot.name.as_str(), "' has actuators but no kill_switch handler"),
                        robot.span,
                        "info",
                        "kill-switch",
                        Some(owned(KILL_SWITCH_STUB)),
                    ),
                );
            }
        }
        let ghost o0 = diag_views(out@);
        let ghost p0 = diag_views(part@);
        out.append(&mut part);
        assert(diag_views(out@) =~= o0 + p0);
        assert(p0 =~= robot_kill_diags(*robot, *program));
        i = i + 1;
    }
    assert(robots@.take(robots@.len() as int) =~= robots@);
    out
}

fn health_part(program: &Program) -> (r: Vec<VerificationDiagnostic>)
    ensures
        diag_views(r@) == health_diags(*program),
{
    let mut out: Vec<VerificationDiagnostic> = Vec::new();
    if program.health_checks.len() > 0 && program.health_policies.len() == 0 {
        let hcs = &program.health_checks;
        let mut i: usize = 0;
        while i < hcs.len()
            invariant
                i <= hcs@.len(),
                hcs == &program.health_checks,
                diag_views(out@) == hcs@.take(i as int).map_values(
                    |h: HealthCheckDecl|
                        dv(
                            "Health check '"@ + h.name@ + "' has no matching health_policy"@,
                            h.span,
                            "info"@,
                            "health"@,
                            Some(HEALTH_POLICY_STUB@),
                        ),
                ),
            decreases hcs@.len() - i,
        {
            let hc = &hcs[i];
            push_diag(
                &mut out,
                diag(
                    cat3("Health check '", hc.name.as_str(), "' has no matching health_policy"),
                    hc.span,
                    "info",
                    "health",
                    Some(owned(HEALTH_POLICY_STUB)),
                ),
            );
            i = i + 1;
            assert(diag_views(out@) =~= hcs@.take(i as int).map_values(
                |h: HealthCheckDecl|
                    dv(
                        "Health check '"@ + h.name@ + "' has no matching health_policy"@,
                        h.span,
                        "info"@,
                        "health"@,
                        Some(HEALTH_POLICY_STUB@),
                    ),
            ));
        }
        assert(hcs@.take(hcs@.len() as int) =~= hcs@);
    } else {
        assert(diag_views(out@) =~= health_diags(*program));
    }
    out
}

fn partial_part(reports: &Vec<crate::robot::RobotCapabilityReport>, robots: &Vec<RobotDecl>) -> (r: Vec<
    VerificationDiagnostic,
>)
    ensures
        diag_views(r@) == partial_diags(report_views(reports@), robots@),
{
    let ghost reps = report_views(reports@);
    let mut out: Vec<VerificationDiagnostic> = Vec::new();
    let mut i: usize = 0;
    while i < reports.len()
        invariant
            i <= reports@.len(),
            reps == report_views(reports@),
            diag_views(out@) == partial_diags(reps.take(i as int), robots@),
        decreases reports@.len() - i,
    {
        let report = &reports[i];
        assert(reps.take(i + 1).drop_last() =~= reps.take(i as int));
        assert(reps.take(i + 1).last() == report@);
        let ghost rv = report@.rows;
        let ghost o0 = diag_views(out@);
        let mut j: usize = 0;
        assert(rv.take(0).map_values(|row: RowView| partial_diag(report@.robot, row, robots@)) =~= seq![]);
        while j < report.rows.len()
            invariant
                j <= report.rows@.len(),
                rv == report@.rows,
                diag_views(out@) == o0 + somes(rv.take(j as int).map_values(|row: RowView| partial_diag(report@.robot, row, robots@))),
            decreases report.rows@.len() - j,
        {
            let row = &report.rows[j];
            let d = if str_eq(row.status.as_str(), "PARTIAL") {
                match robot_index(robots, report.robot.as_str()) {
                    Some(k) => Some(
                        diag(
                            cat5("Capability '", row.capability.as_str(), "' partially satisfied on robot '", report.robot.as_str(), "'"),
                            robots[k].span,
                            "warning",
                            "capability",
                            capability_fix_for(row.capability.as_str()),
                        ),
                    ),
                    None => None,
                }
            } else {
                None
            };
            assert(rv[j as int] == row@);
            assert(opt_diag(d) == partial_diag(report@.robot, rv[j as int], robots@));
            assert(rv.take(j + 1).map_values(|row: RowView| partial_diag(report@.robot, row, robots@)) =~= rv.take(j as int).map_values(
                |row: RowView| partial_diag(report@.robot, row, robots@)).push(opt_diag(d)));
            proof { lemma_somes_push(rv.take(j as int).map_values(|row: RowView| partial_diag(report@.robot, row, robots@)), opt_diag(d)); }
            push_opt(&mut out, d);
            j = j + 1;
        }
        assert(rv.take(rv.len() as int) =~= rv);
        i = i + 1;
    }
    assert(reps.take(reps.len() as int) =~= reps);
    out
}

fn append_diags(out: &mut Vec<VerificationDiagnostic>, part: Vec<VerificationDiagnostic>)
    ensures
        diag_views(final(out)@) == diag_views(old(out)@) + diag_views(part@),
{
    let mut part = part;
    let ghost p0 = diag_views(part@);
    out.append(&mut part);
    assert(diag_views(out@) =~= diag_views(old(out)@) + p0);
}

/// Collect capability, traceability, minimum-hardware, health, and kill-switch diagnostics.
pub fn collect_verification_diagnostics(program: &Program) -> (r: Vec<VerificationDiagnostic>)
    ensures
        diag_views(r@) == verification_diags_spec(*program),
{
    let robots = &program.robots;
    let reqs = &program.requires_capabilities;
    let trace = capability_traceability(program);
    let mut diags = trace_error_part(&trace.errors, robots, reqs);
    append_diags(&mut diags, trace_warning_part(&trace.warnings, robots));
    append_diags(&mut diags, failing_row_part(&trace.capability_rows, reqs));
    let minimum = check_minimum_capabilities(program);
    append_diags(&mut diags, minimum_error_part(&minimum.errors, reqs, robots, &minimum.rows));
    append_diags(&mut diags, minimum_warning_part(&minimum.warnings));
    append_diags(&mut diags, unknown_req_part(reqs));
    append_diags(&mut diags, kill_switch_part(&program.kill_switches, program));
    append_diags(&mut diags, robot_kill_part(program));
    append_diags(&mut diags, health_part(program));
    let robot_reports = infer_robot_capabilities(program);
    proof { lemma_reports_view(*program, robot_reports@); }
    append_diags(&mut diags, partial_part(&robot_reports, robots));
    diags
}


/// An error about a kill switch.
pub open spec fn ks_error(d: DiagView) -> bool {
    d.category == "kill-switch"@ && d.severity == "error"@
}

pub open spec fn ks_error_count(ds: Seq<DiagView>) -> nat
    decreases ds.len(),
{
    if ds.len() == 0 {
        0
    } else {
        ks_error_count(ds.drop_last()) + (if ks_error(ds.last()) { 1nat } else { 0nat })
    }
}

/// Kill switches that ask for signed remote control.
pub open spec fn remote_signed_count(ks: Seq<KillSwitchDecl>) -> nat
    decreases ks.len(),
{
    if ks.len() == 0 {
        0
    } else {
        remote_signed_count(ks.drop_last()) + (if ks.last().remote_signed { 1nat } else { 0nat })
    }
}

pub open spec fn robots_remote_signed_count(rs: Seq<RobotDecl>) -> nat
    decreases rs.len(),
{
    if rs.len() == 0 {
        0
    } else {
        robots_remote_signed_count(rs.drop_last()) + remote_signed_count(rs.last().kill_switches@)
    }
}

proof fn lemma_ks_count_concat(a: Seq<DiagView>, b: Seq<DiagView>)
    ensures
        ks_error_count(a + b) == ks_error_count(a) + ks_error_count(b),
    decreases b.len(),
{
    if b.len() == 0 {
        assert(a + b =~= a);
    } else {
        lemma_ks_count_concat(a, b.drop_last());
        assert((a + b).drop_last() =~= a + b.drop_last());
    }
}

proof fn lemma_somes_no_ks(s: Seq<Option<DiagView>>)
    requires
        forall|i: int| 0 <= i < s.len() ==> (#[trigger] s[i] matches Some(d) ==> !ks_error(d)),
    ensures
        ks_error_count(somes(s)) == 0,
    decreases s.len(),
{
    if s.len() > 0 {
        let d = s.drop_last();
        assert forall|i: int| 0 <= i < d.len() implies (#[trigger] d[i] matches Some(x) ==> !ks_error(x)) by {
            assert(d[i] == s[i]);
        }
        lemma_somes_no_ks(d);
        let tail: Seq<DiagView> = match s.last() {
            Some(x) => seq![x],
            None => seq![],
        };
        assert(somes(s) == somes(d) + tail);
        lemma_ks_count_concat(somes(d), tail);
        assert(s[s.len() - 1] == s.last());
        lemma_ks_count_tail(tail);
        match s.last() {
            Some(x) => {
                assert(!ks_error(x));
            },
            None => {},
        }
    }
}

proof fn lemma_ks_count_tail(t: Seq<DiagView>)
    requires
        t.len() <= 1,
    ensures
        t.len() == 0 ==> ks_error_count(t) == 0,
        t.len() == 1 ==> ks_error_count(t) == (if ks_error(t[0]) { 1nat } else { 0nat }),
{
    if t.len() == 1 {
        assert(t.drop_last() =~= Seq::<DiagView>::empty());
        assert(ks_error_count(t.drop_last()) == 0);
    }
}

proof fn lemma_no_ks(s: Seq<DiagView>)
    requires
        forall|i: int| 0 <= i < s.len() ==> !ks_error(#[trigger] s[i]),
    ensures
        ks_error_count(s) == 0,
    decreases s.len(),
{
    if s.len() > 0 {
        let d = s.drop_last();
        assert forall|i: int| 0 <= i < d.len() implies !ks_error(#[trigger] d[i]) by {
            assert(d[i] == s[i]);
        }
        lemma_no_ks(d);
        assert(s[s.len() - 1] == s.last());
    }
}

proof fn lemma_kill_switch_count(ks: Seq<KillSwitchDecl>, p: Program)
    ensures
        ks_error_count(somes(ks.map_values(|k: KillSwitchDecl| kill_switch_diag(k, p)))) == (if signed_comm_spec(p) {
            0
        } else {
            remote_signed_count(ks)
        }),
    decreases ks.len(),
{
    reveal_strlit("kill-switch");
    reveal_strlit("error");
    if ks.len() > 0 {
        let d = ks.drop_last();
        lemma_kill_switch_count(d, p);
        let m = ks.map_values(|k: KillSwitchDecl| kill_switch_diag(k, p));
        assert(m.drop_last() =~= d.map_values(|k: KillSwitchDecl| kill_switch_diag(k, p)));
        let tail: Seq<DiagView> = match m.last() {
            Some(x) => seq![x],
            None => seq![],
        };
        assert(m =~= m.drop_last().push(m.last()));
        lemma_somes_push(m.drop_last(), m.last());
        assert(somes(m) == somes(m.drop_last()) + tail);
        lemma_ks_count_concat(somes(m.drop_last()), tail);
        assert(m.last() == kill_switch_diag(ks.last(), p));
        lemma_ks_count_tail(tail);
        assert(ks.drop_last().push(ks.last()) =~= ks);
    }
}

proof fn lemma_robots_kill_count(rs: Seq<RobotDecl>, p: Program)
    ensures
        ks_error_count(robots_kill_diags(rs, p)) == (if signed_comm_spec(p) {
            0
        } else {
            robots_remote_signed_count(rs)
        }),
    decreases rs.len(),
{
    reveal_strlit("info");
    reveal_strlit("error");
    if rs.len() > 0 {
        let r = rs.last();
        lemma_robots_kill_count(rs.drop_last(), p);
        lemma_kill_switch_count(r.kill_switches@, p);
        let own = somes(r.kill_switches@.map_values(|k: KillSwitchDecl| kill_switch_diag(k, p)));
        let hint: Seq<DiagView> = if r.kill_switches@.len() == 0 && p.kill_switches@.len() == 0 && has_drive_actuator(r) {
            seq![
                dv(
                    "Robot '"@ + r.name@ + "' has actuators but no kill_switch handler"@,
                    r.span,
                    "info"@,
                    "kill-switch"@,
                    Some(KILL_SWITCH_STUB@),
                ),
            ]
        } else {
            seq![]
        };
        assert(robot_kill_diags(r, p) == own + hint);
        assert("info"@ != "error"@) by {
            assert("info"@[0] != "error"@[0]);
        }
        assert forall|i: int| 0 <= i < hint.len() implies !ks_error(#[trigger] hint[i]) by {}
        lemma_no_ks(hint);
        lemma_ks_count_concat(own, hint);
        lemma_ks_count_concat(robots_kill_diags(rs.drop_last(), p), robot_kill_diags(r, p));
    }
}

proof fn lemma_category_literals()
    ensures
        "traceability"@ != "kill-switch"@,
        "capability"@ != "kill-switch"@,
        "minimum-hardware"@ != "kill-switch"@,
        "health"@ != "kill-switch"@,
{
    reveal_strlit("traceability");
    reveal_strlit("capability");
    reveal_strlit("minimum-hardware");
    reveal_strlit("health");
    reveal_strlit("kill-switch");
    assert("traceability"@[0] != "kill-switch"@[0]);
    assert("capability"@[0] != "kill-switch"@[0]);
    assert("minimum-hardware"@[0] != "kill-switch"@[0]);
    assert("health"@[0] != "kill-switch"@[0]);
}

proof fn lemma_partial_no_ks(reports: Seq<ReportView>, robots: Seq<RobotDecl>)
    ensures
        ks_error_count(partial_diags(reports, robots)) == 0,
    decreases reports.len(),
{
    lemma_category_literals();
    if reports.len() > 0 {
        lemma_partial_no_ks(reports.drop_last(), robots);
        let s = reports.last().rows.map_values(|row: RowView| partial_diag(reports.last().robot, row, robots));
        assert forall|i: int| 0 <= i < s.len() implies (#[trigger] s[i] matches Some(d) ==> !ks_error(d)) by {}
        lemma_somes_no_ks(s);
        lemma_ks_count_concat(partial_diags(reports.drop_last(), robots), somes(s));
    }
}

/// Kill-switch errors are raised only without signed communication: when some
/// robot declares secure comms, trust or a signed topic there are none, and
/// otherwise there is one for each program-level and robot-level kill switch
/// that asks for signed remote control.
pub proof fn law_kill_switch_errors_follow_signed_comm(p: Program)
    ensures
        ks_error_count(verification_diags_spec(p)) == (if signed_comm_spec(p) {
            0
        } else {
            remote_signed_count(p.kill_switches@) + robots_remote_signed_count(p.robots@)
        }),
{
    lemma_category_literals();
    let robots = p.robots@;
    let reqs = p.requires_capabilities@;
    let s1 = capability_errors_spec(p).map_values(|e: Seq<char>| trace_error_diag(e, robots, reqs));
    let s2 = hardware_warnings_spec(p).map_values(|w: Seq<char>| trace_warning_diag(w, robots));
    let s3 = capability_rows_spec(reqs, robots).map_values(|row: CapRowView| failing_row_diag(row, reqs));
    let s4 = minimum_errors(p).map_values(|e: Seq<char>| minimum_error_diag(e, reqs, robots, minimum_rows(p)));
    let s5 = minimum_warnings(p).map_values(
        |w: Seq<char>| dv(w, Span { line: 1, column: 1 }, "warning"@, "minimum-hardware"@, None),
    );
    let s6 = reqs.map_values(|q: RequiresCapabilityDecl| unknown_req_diag(q));
    let s7 = somes(p.kill_switches@.map_values(|k: KillSwitchDecl| kill_switch_diag(k, p)));
    let s8 = robots_kill_diags(robots, p);
    let s9 = health_diags(p);
    let s10 = partial_diags(reports_spec(p), robots);
    assert forall|i: int| 0 <= i < s1.len() implies (#[trigger] s1[i] matches Some(d) ==> !ks_error(d)) by {}
    assert forall|i: int| 0 <= i < s2.len() implies (#[trigger] s2[i] matches Some(d) ==> !ks_error(d)) by {}
    assert forall|i: int| 0 <= i < s3.len() implies (#[trigger] s3[i] matches Some(d) ==> !ks_error(d)) by {}
    assert forall|i: int| 0 <= i < s4.len() implies (#[trigger] s4[i] matches Some(d) ==> !ks_error(d)) by {}
    assert forall|i: int| 0 <= i < s5.len() implies !ks_error(#[trigger] s5[i]) by {}
    assert forall|i: int| 0 <= i < s6.len() implies (#[trigger] s6[i] matches Some(d) ==> !ks_error(d)) by {}
    assert forall|i: int| 0 <= i < s9.len() implies !ks_error(#[trigger] s9[i]) by {}
    lemma_somes_no_ks(s1);
    lemma_somes_no_ks(s2);
    lemma_somes_no_ks(s3);
    lemma_somes_no_ks(s4);
    lemma_no_ks(s5);
    lemma_somes_no_ks(s6);
    lemma_kill_switch_count(p.kill_switches@, p);
    lemma_robots_kill_count(robots, p);
    lemma_no_ks(s9);
    lemma_partial_no_ks(reports_spec(p), robots);
    let a1 = somes(s1);
    let a2 = a1 + somes(s2);
    let a3 = a2 + somes(s3);
    let a4 = a3 + somes(s4);
    let a5 = a4 + s5;
    let a6 = a5 + somes(s6);
    let a7 = a6 + s7;
    let a8 = a7 + s8;
    let a9 = a8 + s9;
    let a10 = a9 + s10;
    lemma_ks_count_concat(a1, somes(s2));
    lemma_ks_count_concat(a2, somes(s3));
    lemma_ks_count_concat(a3, somes(s4));
    lemma_ks_count_concat(a4, s5);
    lemma_ks_count_concat(a5, somes(s6));
    lemma_ks_count_concat(a6, s7);
    lemma_ks_count_concat(a7, s8);
    lemma_ks_count_concat(a8, s9);
    lemma_ks_count_concat(a9, s10);
    assert(verification_diags_spec(p) == a10);
}

/// No diagnostic of `s` has category `c`.
pub open spec fn lacks_category(s: Seq<DiagView>, c: Seq<char>) -> bool {
    forall|i: int| 0 <= i < s.len() ==> (#[trigger] s[i]).category != c
}

proof fn lemma_lacks_concat(a: Seq<DiagView>, b: Seq<DiagView>, c: Seq<char>)
    requires
        lacks_category(a, c),
        lacks_category(b, c),
    ensures
        lacks_category(a + b, c),
{
    assert forall|i: int| 0 <= i < (a + b).len() implies (#[trigger] (a + b)[i]).category != c by {
        if i < a.len() {
            assert((a + b)[i] == a[i]);
        } else {
            assert((a + b)[i] == b[i - a.len()]);
        }
    }
}

proof fn lemma_somes_lacks(s: Seq<Option<DiagView>>, c: Seq<char>)
    requires
        forall|i: int| 0 <= i < s.len() ==> (#[trigger] s[i] matches Some(d) ==> d.category != c),
    ensures
        lacks_category(somes(s), c),
    decreases s.len(),
{
    if s.len() > 0 {
        let d = s.drop_last();
        assert forall|i: int| 0 <= i < d.len() implies (#[trigger] d[i] matches Some(x) ==> x.category != c) by {
            assert(d[i] == s[i]);
        }
        lemma_somes_lacks(d, c);
        let tail: Seq<DiagView> = match s.last() {
            Some(x) => seq![x],
            None => seq![],
        };
        assert(s[s.len() - 1] == s.last());
        assert(somes(s) == somes(d) + tail);
        lemma_lacks_concat(somes(d), tail, c);
    }
}

proof fn lemma_health_literals()
    ensures
        "traceability"@ != "health"@,
        "capability"@ != "health"@,
        "minimum-hardware"@ != "health"@,
        "kill-switch"@ != "health"@,
{
    reveal_strlit("traceability");
    reveal_strlit("capability");
    reveal_strlit("minimum-hardware");
    reveal_strlit("kill-switch");
    reveal_strlit("health");
    assert("traceability"@[0] != "health"@[0]);
    assert("capability"@[0] != "health"@[0]);
    assert("minimum-hardware"@[0] != "health"@[0]);
    assert("kill-switch"@[0] != "health"@[0]);
}

proof fn lemma_robots_kill_lacks_health(rs: Seq<RobotDecl>, p: Program)
    ensures
        lacks_category(robots_kill_diags(rs, p), "health"@),
    decreases rs.len(),
{
    lemma_health_literals();
    if rs.len() > 0 {
        let r = rs.last();
        lemma_robots_kill_lacks_health(rs.drop_last(), p);
        let s = r.kill_switches@.map_values(|k: KillSwitchDecl| kill_switch_diag(k, p));
        assert forall|i: int| 0 <= i < s.len() implies (#[trigger] s[i] matches Some(d) ==> d.category != "health"@) by {}
        lemma_somes_lacks(s, "health"@);
        let own = somes(s);
        let rest = robot_kill_diags(r, p);
        assert forall|i: int| 0 <= i < rest.len() implies (#[trigger] rest[i]).category != "health"@ by {
            if i < own.len() {
                assert(rest[i] == own[i]);
            }
        }
        lemma_lacks_concat(robots_kill_diags(rs.drop_last(), p), rest, "health"@);
    }
}

proof fn lemma_partial_lacks_health(reports: Seq<ReportView>, robots: Seq<RobotDecl>)
    ensures
        lacks_category(partial_diags(reports, robots), "health"@),
    decreases reports.len(),
{
    lemma_health_literals();
    if reports.len() > 0 {
        lemma_partial_lacks_health(reports.drop_last(), robots);
        let s = reports.last().rows.map_values(|row: RowView| partial_diag(reports.last().robot, row, robots));
        assert forall|i: int| 0 <= i < s.len() implies (#[trigger] s[i] matches Some(d) ==> d.category != "health"@) by {}
        lemma_somes_lacks(s, "health"@);
        lemma_lacks_concat(partial_diags(reports.drop_last(), robots), somes(s), "health"@);
    }
}

/// Health checks without any health policy are flagged: when a program
/// declares health checks and no `health_policy`, its verification
/// diagnostics hold, for each health check, the info diagnostic "Health check
/// '<name>' has no matching health_policy" at the check's position, with the
/// health policy stub as its fix; and every diagnostic of category `health`
/// is one of these, so there is none when a health policy is declared or no
/// health check is.
pub proof fn law_health_checks_need_a_policy(p: Program)
    ensures
        p.health_checks@.len() > 0 && p.health_policies@.len() == 0 ==> forall|i: int|
            0 <= i < p.health_checks@.len() ==> verification_diags_spec(p).contains(
                DiagView {
                    message: "Health check '"@ + (#[trigger] p.health_checks@[i]).name@
                        + "' has no matching health_policy"@,
                    line: p.health_checks@[i].span.line,
                    column: p.health_checks@[i].span.column,
                    severity: "info"@,
                    category: "health"@,
                    suggested_fix: Some(HEALTH_POLICY_STUB@),
                },
            ),
        forall|k: int|
            0 <= k < verification_diags_spec(p).len() && (#[trigger] verification_diags_spec(p)[k]).category
                == "health"@ ==> p.health_checks@.len() > 0 && p.health_policies@.len() == 0 && exists|i: int|
                0 <= i < p.health_checks@.len() && verification_diags_spec(p)[k].message == "Health check '"@
                    + p.health_checks@[i].name@ + "' has no matching health_policy"@,
{
    lemma_health_literals();
    let robots = p.robots@;
    let reqs = p.requires_capabilities@;
    let c = "health"@;
    let s1 = capability_errors_spec(p).map_values(|e: Seq<char>| trace_error_diag(e, robots, reqs));
    let s2 = hardware_warnings_spec(p).map_values(|w: Seq<char>| trace_warning_diag(w, robots));
    let s3 = capability_rows_spec(reqs, robots).map_values(|row: CapRowView| failing_row_diag(row, reqs));
    let s4 = minimum_errors(p).map_values(|e: Seq<char>| minimum_error_diag(e, reqs, robots, minimum_rows(p)));
    let s5 = minimum_warnings(p).map_values(
        |w: Seq<char>| dv(w, Span { line: 1, column: 1 }, "warning"@, "minimum-hardware"@, None),
    );
    let s6 = reqs.map_values(|q: RequiresCapabilityDecl| unknown_req_diag(q));
    let s7 = p.kill_switches@.map_values(|k: KillSwitchDecl| kill_switch_diag(k, p));
    let s8 = robots_kill_diags(robots, p);
    let s9 = health_diags(p);
    let s10 = partial_diags(reports_spec(p), robots);
    assert forall|i: int| 0 <= i < s1.len() implies (#[trigger] s1[i] matches Some(d) ==> d.category != c) by {}
    assert forall|i: int| 0 <= i < s2.len() implies (#[trigger] s2[i] matches Some(d) ==> d.category != c) by {}
    assert forall|i: int| 0 <= i < s3.len() implies (#[trigger] s3[i] matches Some(d) ==> d.category != c) by {}
    assert forall|i: int| 0 <= i < s4.len() implies (#[trigger] s4[i] matches Some(d) ==> d.category != c) by {}
    assert forall|i: int| 0 <= i < s6.len() implies (#[trigger] s6[i] matches Some(d) ==> d.category != c) by {}
    assert forall|i: int| 0 <= i < s7.len() implies (#[trigger] s7[i] matches Some(d) ==> d.category != c) by {}
    lemma_somes_lacks(s1, c);
    lemma_somes_lacks(s2, c);
    lemma_somes_lacks(s3, c);
    lemma_somes_lacks(s4, c);
    assert(lacks_category(s5, c));
    lemma_somes_lacks(s6, c);
    lemma_somes_lacks(s7, c);
    lemma_robots_kill_lacks_health(robots, p);
    lemma_partial_lacks_health(reports_spec(p), robots);
    let a8 = somes(s1) + somes(s2) + somes(s3) + somes(s4) + s5 + somes(s6) + somes(s7) + s8;
    lemma_lacks_concat(somes(s1), somes(s2), c);
    lemma_lacks_concat(somes(s1) + somes(s2), somes(s3), c);
    lemma_lacks_concat(somes(s1) + somes(s2) + somes(s3), somes(s4), c);
    lemma_lacks_concat(somes(s1) + somes(s2) + somes(s3) + somes(s4), s5, c);
    lemma_lacks_concat(somes(s1) + somes(s2) + somes(s3) + somes(s4) + s5, somes(s6), c);
    lemma_lacks_concat(somes(s1) + somes(s2) + somes(s3) + somes(s4) + s5 + somes(s6), somes(s7), c);
    lemma_lacks_concat(somes(s1) + somes(s2) + somes(s3) + somes(s4) + s5 + somes(s6) + somes(s7), s8, c);
    let all = verification_diags_spec(p);
    assert(all == a8 + s9 + s10);
    assert forall|k: int| 0 <= k < all.len() && (#[trigger] all[k]).category == c implies p.health_checks@.len() > 0
        && p.health_policies@.len() == 0 && exists|i: int|
        0 <= i < p.health_checks@.len() && all[k].message == "Health check '"@ + p.health_checks@[i].name@
            + "' has no matching health_policy"@ by {
        if k < a8.len() {
            assert(all[k] == a8[k]);
        } else if k < a8.len() + s9.len() {
            assert(all[k] == s9[k - a8.len()]);
            assert(s9.len() > 0);
            let i = k - a8.len();
            assert(all[k].message == "Health check '"@ + p.health_checks@[i].name@ + "' has no matching health_policy"@);
        } else {
            assert(all[k] == s10[k - a8.len() - s9.len()]);
        }
    }
    if p.health_checks@.len() > 0 && p.health_policies@.len() == 0 {
        assert forall|i: int| 0 <= i < p.health_checks@.len() implies all.contains(
            DiagView {
                message: "Health check '"@ + (#[trigger] p.health_checks@[i]).name@ + "' has no matching health_policy"@,
                line: p.health_checks@[i].span.line,
                column: p.health_checks@[i].span.column,
                severity: "info"@,
                category: "health"@,
                suggested_fix: Some(HEALTH_POLICY_STUB@),
            },
        ) by {
            assert(all[a8.len() + i] == s9[i]);
        }
    }
}

} // verus!
