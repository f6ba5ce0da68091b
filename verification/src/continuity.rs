//! Span-aware continuity policy diagnostics for IDE hints and readiness checks.
use vstd::prelude::*;
use crate::ast::{ContinuityPolicyDecl, FleetDecl, PolicyBranch, Program, RecoveryPolicyDecl, RobotDecl, Span};
use crate::diagnostics::{diag_views, dv, DiagView, VerificationDiagnostic};
use crate::text::{
    ascii_lower_seq, cat3, has_infix, has_prefix, lemma_concat_contains, lower_compact, owned, str_contains, str_eq, strip_white_space, to_ascii_lower,
};

verus! {

/// Action text as compared by the continuity checks: ASCII lower case, no white space.
pub open spec fn normalize_spec(action: Seq<char>) -> Seq<char> {
    strip_white_space(ascii_lower_seq(action))
}

pub open spec fn high_risk_spec(action: Seq<char>) -> bool {
    let l = normalize_spec(action);
    has_infix(l, "hottakeover"@) || has_infix(l, "coldtakeover"@) || has_infix(l, "humantakeover"@) || has_infix(
        l,
        "operatortakeover"@,
    )
}

pub open spec fn robot_approval_spec(r: RobotDecl) -> bool {
    exists|j: int| 0 <= j < r.topics@.len() && #[trigger] r.topics@[j].message_type@ == "Approval"@
}

pub open spec fn approval_path_spec(p: Program) -> bool {
    exists|i: int| 0 <= i < p.robots@.len() && robot_approval_spec(#[trigger] p.robots@[i])
}

pub open spec fn handoff_action(a: Seq<char>) -> bool {
    let l = normalize_spec(a);
    has_infix(l, "reassign"@) || has_infix(l, "promote"@) || has_infix(l, "replace"@) || has_infix(l, "redistribute"@)
}

pub open spec fn resume_action(a: Seq<char>) -> bool {
    let l = normalize_spec(a);
    has_infix(l, "resume"@) || has_infix(l, "checkpoint"@)
}

pub open spec fn branches_any(branches: Seq<PolicyBranch>, pred: spec_fn(Seq<char>) -> bool) -> bool {
    exists|i: int, j: int|
        0 <= i < branches.len() && 0 <= j < branches[i].actions@.len() && pred(#[trigger] branches[i].actions@[j]@)
}

pub open spec fn recovery_handoff_spec(p: Program) -> bool {
    exists|i: int|
        0 <= i < p.recovery_policies@.len() && branches_any(
            #[trigger] p.recovery_policies@[i].branches@,
            |a: Seq<char>| handoff_action(a),
        )
}

pub open spec fn resume_or_checkpoint_spec(p: Program) -> bool {
    exists|i: int|
        0 <= i < p.continuity_policies@.len() && branches_any(
            #[trigger] p.continuity_policies@[i].branches@,
            |a: Seq<char>| resume_action(a),
        )
}

/// Total number of fleet members over all fleets.
pub open spec fn members_total(fleets: Seq<FleetDecl>) -> int
    decreases fleets.len(),
{
    if fleets.len() == 0 {
        0
    } else {
        members_total(fleets.drop_last()) + fleets.last().members@.len()
    }
}

pub open spec fn first_span<T>(s: Seq<T>, span_of: spec_fn(T) -> Span) -> Span {
    if s.len() > 0 {
        span_of(s[0])
    } else {
        Span { line: 1, column: 1 }
    }
}

pub const CONTINUITY_FIX: &'static str = "continuity_policy FleetContinuity {\n    on robot.failed {\n        resume from checkpoint;\n        reassign mission;\n    }\n}";

pub const MISSION_PLAN_FIX: &'static str = "mission_plan PatrolMission {\n    step navigate;\n    step execute;\n}";

pub const BRANCH_FIX: &'static str = "on robot.failed { resume from checkpoint; reassign mission; }";

pub const FLEET_FIX: &'static str = "Declare fleet <Name> { members; } or adjust trigger";

pub const APPROVAL_FIX: &'static str = "topic approval: Approval subscribe on \"/ops/approval\";";

/// Diagnostics for one `on` branch of a continuity policy.
pub open spec fn branch_diags(p: Program, name: Seq<char>, b: PolicyBranch) -> Seq<DiagView> {
    let trig = ascii_lower_seq(b.condition@);
    (if (has_infix(trig, "fleet"@) || has_infix(trig, "swarm"@)) && p.fleets@.len() == 0 {
        seq![
            dv(
                "continuity_policy '"@ + name + "' references fleet failures but no fleet is declared"@,
                b.span,
                "error"@,
                "continuity:fleet"@,
                Some(FLEET_FIX@),
            ),
        ]
    } else {
        seq![]
    }) + action_diags(p, b, b.actions@.map_values(|a: String| a@))
}

pub open spec fn action_diags(p: Program, b: PolicyBranch, actions: Seq<Seq<char>>) -> Seq<DiagView>
    decreases actions.len(),
{
    if actions.len() == 0 {
        seq![]
    } else {
        action_diags(p, b, actions.drop_last()) + if high_risk_spec(actions.last()) && !approval_path_spec(p) {
            seq![
                dv(
                    "High-risk continuity action '"@ + actions.last()
                        + "' should have an Approval topic or operator path"@,
                    b.span,
                    "warning"@,
                    "continuity:approval"@,
                    Some(APPROVAL_FIX@),
                ),
            ]
        } else {
            seq![]
        }
    }
}

pub open spec fn branches_diags(p: Program, name: Seq<char>, bs: Seq<PolicyBranch>) -> Seq<DiagView>
    decreases bs.len(),
{
    if bs.len() == 0 {
        seq![]
    } else {
        branches_diags(p, name, bs.drop_last()) + branch_diags(p, name, bs.last())
    }
}

pub open spec fn policy_diags(p: Program, c: ContinuityPolicyDecl) -> Seq<DiagView> {
    if c.branches@.len() == 0 {
        seq![
            dv(
                "continuity_policy '"@ + c.name@ + "' has no on branches"@,
                c.span,
                "warning"@,
                "continuity:policy"@,
                Some(BRANCH_FIX@),
            ),
        ]
    } else {
        branches_diags(p, c.name@, c.branches@)
    }
}

pub open spec fn policies_diags(p: Program, cs: Seq<ContinuityPolicyDecl>) -> Seq<DiagView>
    decreases cs.len(),
{
    if cs.len() == 0 {
        seq![]
    } else {
        policies_diags(p, cs.drop_last()) + policy_diags(p, cs.last())
    }
}

/// All continuity diagnostics of a program, in reporting order.
pub open spec fn continuity_diags_spec(p: Program) -> Seq<DiagView> {
    let has_continuity = p.continuity_policies@.len() > 0;
    let multi = members_total(p.fleets@) >= 2;
    (if multi && !has_continuity {
        seq![
            dv(
                "Fleet declared without continuity_policy for takeover and succession"@,
                first_span(p.fleets@, |f: FleetDecl| f.span),
                "warning"@,
                "continuity:policy"@,
                Some(CONTINUITY_FIX@),
            ),
        ]
    } else {
        seq![]
    }) + (if recovery_handoff_spec(p) && multi && !has_continuity {
        seq![
            dv(
                "Recovery reassigns mission but no continuity_policy defines takeover mode"@,
                first_span(p.recovery_policies@, |r: RecoveryPolicyDecl| r.span),
                "info"@,
                "continuity:handoff"@,
                Some(CONTINUITY_FIX@),
            ),
        ]
    } else {
        seq![]
    }) + (if resume_or_checkpoint_spec(p) && p.mission_plan_count == 0 {
        seq![
            dv(
                "continuity_policy resumes from checkpoint but no mission_plan is declared"@,
                first_span(p.continuity_policies@, |c: ContinuityPolicyDecl| c.span),
                "warning"@,
                "continuity:mission"@,
                Some(MISSION_PLAN_FIX@),
            ),
        ]
    } else {
        seq![]
    }) + policies_diags(p, p.continuity_policies@)
}

fn normalize_action(action: &str) -> (r: String)
    ensures
        r@ == normalize_spec(action@),
{
    lower_compact(action)
}

fn continuity_action_is_high_risk(action: &str) -> (r: bool)
    ensures
        r == high_risk_spec(action@),
{
    let lower = normalize_action(action);
    let l = lower.as_str();
    str_contains(l, "hottakeover") || str_contains(l, "coldtakeover") || str_contains(l, "humantakeover")
        || str_contains(l, "operatortakeover")
}

fn robot_has_approval_topic(robot: &RobotDecl) -> (r: bool)
    ensures
        r == robot_approval_spec(*robot),
{
    let mut j: usize = 0;
    while j < robot.topics.len()
        invariant
            j <= robot.topics@.len(),
            forall|k: int| 0 <= k < j ==> #[trigger] robot.topics@[k].message_type@ != "Approval"@,
        decreases robot.topics@.len() - j,
    {
        if str_eq(robot.topics[j].message_type.as_str(), "Approval") {
            return true;
        }
        j = j + 1;
    }
    false
}

fn program_has_approval_path(program: &Program) -> (r: bool)
    ensures
        r == approval_path_spec(*program),
{
    let mut i: usize = 0;
    while i < program.robots.len()
        invariant
            i <= program.robots@.len(),
            forall|k: int| 0 <= k < i ==> !robot_approval_spec(#[trigger] program.robots@[k]),
        decreases program.robots@.len() - i,
    {
        if robot_has_approval_topic(&program.robots[i]) {
            return true;
        }
        i = i + 1;
    }
    false
}

/// Whether some action of some branch is a handoff (`handoff == true`) or a resume action.
fn branches_have(branches: &Vec<PolicyBranch>, handoff: bool) -> (r: bool)
    ensures
        handoff ==> r == branches_any(branches@, |a: Seq<char>| handoff_action(a)),
        !handoff ==> r == branches_any(branches@, |a: Seq<char>| resume_action(a)),
{
    let ghost pred = if handoff {
        |a: Seq<char>| handoff_action(a)
    } else {
        |a: Seq<char>| resume_action(a)
    };
    let mut i: usize = 0;
    while i < branches.len()
        invariant
            i <= branches@.len(),
            pred == (if handoff {
                |a: Seq<char>| handoff_action(a)
            } else {
                |a: Seq<char>| resume_action(a)
            }),
            forall|x: int, y: int|
                0 <= x < i && 0 <= y < branches@[x].actions@.len() ==> !pred(#[trigger] branches@[x].actions@[y]@),
        decreases branches@.len() - i,
    {
        let actions = &branches[i].actions;
        let mut j: usize = 0;
        while j < actions.len()
            invariant
                i < branches@.len(),
                actions == &branches@[i as int].actions,
                j <= actions@.len(),
                pred == (if handoff {
                    |a: Seq<char>| handoff_action(a)
                } else {
                    |a: Seq<char>| resume_action(a)
                }),
                forall|x: int, y: int|
                    0 <= x < i && 0 <= y < branches@[x].actions@.len() ==> !pred(#[trigger] branches@[x].actions@[y]@),
                forall|y: int| 0 <= y < j ==> !pred(#[trigger] actions@[y]@),
            decreases actions@.len() - j,
        {
            let lower = normalize_action(actions[j].as_str());
            let l = lower.as_str();
            let hit = if handoff {
                str_contains(l, "reassign") || str_contains(l, "promote") || str_contains(l, "replace") || str_contains(
                    l,
                    "redistribute",
                )
            } else {
                str_contains(l, "resume") || str_contains(l, "checkpoint")
            };
            if hit {
                assert(pred(branches@[i as int].actions@[j as int]@));
                return true;
            }
            j = j + 1;
        }
        i = i + 1;
    }
    false
}

fn recovery_has_handoff_action(program: &Program) -> (r: bool)
    ensures
        r == recovery_handoff_spec(*program),
{
    let mut i: usize = 0;
    while i < program.recovery_policies.len()
        invariant
            i <= program.recovery_policies@.len(),
            forall|k: int|
                0 <= k < i ==> !branches_any(
                    #[trigger] program.recovery_policies@[k].branches@,
                    |a: Seq<char>| handoff_action(a),
                ),
        decreases program.recovery_policies@.len() - i,
    {
        if branches_have(&program.recovery_policies[i].branches, true) {
            return true;
        }
        i = i + 1;
    }
    false
}

fn continuity_has_resume_or_checkpoint_action(program: &Program) -> (r: bool)
    ensures
        r == resume_or_checkpoint_spec(*program),
{
    let mut i: usize = 0;
    while i < program.continuity_policies.len()
        invariant
            i <= program.continuity_policies@.len(),
            forall|k: int|
                0 <= k < i ==> !branches_any(
                    #[trigger] program.continuity_policies@[k].branches@,
                    |a: Seq<char>| resume_action(a),
                ),
        decreases program.continuity_policies@.len() - i,
    {
        if branches_have(&program.continuity_policies[i].branches, false) {
            return true;
        }
        i = i + 1;
    }
    false
}

fn fleet_member_count(program: &Program) -> (r: usize)
    requires
        members_total(program.fleets@) <= usize::MAX,
    ensures
        r == members_total(program.fleets@),
{
    let fleets = &program.fleets;
    let mut total: usize = 0;
    let mut i: usize = 0;
    while i < fleets.len()
        invariant
            i <= fleets@.len(),
            fleets == &program.fleets,
            members_total(fleets@) <= usize::MAX,
            total == members_total(fleets@.take(i as int)),
        decreases fleets@.len() - i,
    {
        assert(fleets@.take(i + 1).drop_last() =~= fleets@.take(i as int));
        proof { lemma_members_total_prefix(fleets@, i + 1); }
        total = total + fleets[i].members.len();
        i = i + 1;
    }
    assert(fleets@.take(fleets@.len() as int) =~= fleets@);
    total
}

proof fn lemma_members_total_prefix(fleets: Seq<FleetDecl>, n: int)
    requires
        0 <= n <= fleets.len(),
    ensures
        members_total(fleets.take(n)) <= members_total(fleets),
    decreases fleets.len(),
{
    if n < fleets.len() {
        assert(fleets.drop_last().take(n) =~= fleets.take(n));
        lemma_members_total_prefix(fleets.drop_last(), n);
    } else {
        assert(fleets.take(n) =~= fleets);
    }
}

fn push_diag(v: &mut Vec<VerificationDiagnostic>, d: VerificationDiagnostic)
    ensures
        diag_views(final(v)@) == diag_views(old(v)@).push(d@),
{
    let ghost before = v@;
    v.push(d);
    assert(diag_views(v@) =~= diag_views(before).push(d@));
}

fn make_diag(message: String, span: Span, severity: &str, category: &str, fix: &str) -> (r: VerificationDiagnostic)
    ensures
        r@ == dv(message@, span, severity@, category@, Some(fix@)),
{
    VerificationDiagnostic {
        message,
        line: span.line,
        column: span.column,
        severity: owned(severity),
        category: owned(category),
        suggested_fix: Some(owned(fix)),
    }
}

fn branch_diagnostics(program: &Program, name: &str, branch: &PolicyBranch, approval_path: bool, out: &mut Vec<VerificationDiagnostic>)
    requires
        approval_path == approval_path_spec(*program),
    ensures
        diag_views(final(out)@) == diag_views(old(out)@) + branch_diags(*program, name@, *branch),
{
    let ghost o0 = diag_views(out@);
    let trigger_lower = to_ascii_lower(branch.condition.as_str());
    let t = trigger_lower.as_str();
    if (str_contains(t, "fleet") || str_contains(t, "swarm")) && program.fleets.len() == 0 {
        push_diag(
            out,
            make_diag(
                cat3("continuity_policy '", name, "' references fleet failures but no fleet is declared"),
                branch.span,
                "error",
                "continuity:fleet",
                FLEET_FIX,
            ),
        );
    }
    let ghost o1 = diag_views(out@);
    let ghost acts = branch.actions@.map_values(|a: String| a@);
    let mut j: usize = 0;
    assert(acts.take(0) =~= seq![]);
    while j < branch.actions.len()
        invariant
            j <= branch.actions@.len(),
            approval_path == approval_path_spec(*program),
            acts == branch.actions@.map_values(|a: String| a@),
            diag_views(out@) == o1 + action_diags(*program, *branch, acts.take(j as int)),
        decreases branch.actions@.len() - j,
    {
        let action = branch.actions[j].as_str();
        assert(acts.take(j + 1).drop_last() =~= acts.take(j as int));
        assert(acts.take(j + 1).last() == action@);
        if continuity_action_is_high_risk(action) && !approval_path {
            push_diag(
                out,
                make_diag(
                    cat3("High-risk continuity action '", action, "' should have an Approval topic or operator path"),
                    branch.span,
                    "warning",
                    "continuity:approval",
                    APPROVAL_FIX,
                ),
            );
        }
        j = j + 1;
    }
    assert(acts.take(acts.len() as int) =~= acts);
    assert(diag_views(out@) =~= o0 + branch_diags(*program, name@, *branch));
}

/// Collect continuity-policy diagnostics for static analysis and IDE hints.
pub fn collect_continuity_diagnostics(program: &Program) -> (r: Vec<VerificationDiagnostic>)
    requires
        members_total(program.fleets@) <= usize::MAX,
    ensures
        diag_views(r@) == continuity_diags_spec(*program),
{
    let mut diags: Vec<VerificationDiagnostic> = Vec::new();
    let approval_path = program_has_approval_path(program);
    let has_continuity = program.continuity_policies.len() > 0;
    let multi_member_fleet = fleet_member_count(program) >= 2;
    if multi_member_fleet && !has_continuity {
        let span = if program.fleets.len() > 0 {
            program.fleets[0].span
        } else {
            Span { line: 1, column: 1 }
        };
        push_diag(
            &mut diags,
            make_diag(
                owned("Fleet declared without continuity_policy for takeover and succession"),
                span,
                "warning",
                "continuity:policy",
                CONTINUITY_FIX,
            ),
        );
    }
    let ghost d1 = diag_views(diags@);
    if recovery_has_handoff_action(program) && multi_member_fleet && !has_continuity {
        let span = if program.recovery_policies.len() > 0 {
            program.recovery_policies[0].span
        } else {
            Span { line: 1, column: 1 }
        };
        push_diag(
            &mut diags,
            make_diag(
                owned("Recovery reassigns mission but no continuity_policy defines takeover mode"),
                span,
                "info",
                "continuity:handoff",
                CONTINUITY_FIX,
            ),
        );
    }
    let ghost d2 = diag_views(diags@);
    if continuity_has_resume_or_checkpoint_action(program) && program.mission_plan_count == 0 {
        let span = if program.continuity_policies.len() > 0 {
            program.continuity_policies[0].span
        } else {
            Span { line: 1, column: 1 }
        };
        push_diag(
            &mut diags,
            make_diag(
                owned("continuity_policy resumes from checkpoint but no mission_plan is declared"),
                span,
                "warning",
                "continuity:mission",
                MISSION_PLAN_FIX,
            ),
        );
    }
    let ghost d3 = diag_views(diags@);
    let policies = &program.continuity_policies;
    let mut i: usize = 0;
    while i < policies.len()
        invariant
            i <= policies@.len(),
            policies == &program.continuity_policies,
            approval_path == approval_path_spec(*program),
            diag_views(diags@) == d3 + policies_diags(*program, policies@.take(i as int)),
        decreases policies@.len() - i,
    {
        let policy = &policies[i];
        assert(policies@.take(i + 1).drop_last() =~= policies@.take(i as int));
        assert(policies@.take(i + 1).last() == *policy);
        let ghost dp = diag_views(diags@);
        if policy.branches.len() == 0 {
            push_diag(
                &mut diags,
                make_diag(
                    cat3("continuity_policy '", policy.name.as_str(), "' has no on branches"),
                    policy.span,
                    "warning",
                    "continuity:policy",
                    BRANCH_FIX,
                ),
            );
            assert(diag_views(diags@) =~= dp + policy_diags(*program, *policy));
        } else {
            let mut k: usize = 0;
            while k < policy.branches.len()
                invariant
                    k <= policy.branches@.len(),
                    approval_path == approval_path_spec(*program),
                    diag_views(diags@) == dp + branches_diags(*program, policy.name@, policy.branches@.take(k as int)),
                decreases policy.branches@.len() - k,
            {
                assert(policy.branches@.take(k + 1).drop_last() =~= policy.branches@.take(k as int));
                assert(policy.branches@.take(k + 1).last() == policy.branches@[k as int]);
                branch_diagnostics(program, policy.name.as_str(), &policy.branches[k], approval_path, &mut diags);
                k = k + 1;
            }
            assert(policy.branches@.take(policy.branches@.len() as int) =~= policy.branches@);
        }
        i = i + 1;
    }
    assert(policies@.take(policies@.len() as int) =~= policies@);
    assert(diag_views(diags@) =~= continuity_diags_spec(*program));
    diags
}


/// Diagnostics raised by the policy branches: each message starts with `c`
/// (a `continuity_policy` message) or `H` (a high-risk action), and none is
/// about approval when the program has an approval path.
pub open spec fn branch_diag_shape(p: Program, d: DiagView) -> bool {
    &&& d.message.len() > 0
    &&& (d.message[0] == 'c' || d.message[0] == 'H')
    &&& (approval_path_spec(p) ==> d.category != "continuity:approval"@)
}

proof fn lemma_literals()
    ensures
        "continuity_policy '"@.len() > 0 && "continuity_policy '"@[0] == 'c',
        "High-risk continuity action '"@.len() > 0 && "High-risk continuity action '"@[0] == 'H',
        "continuity:fleet"@ != "continuity:approval"@,
        "continuity:policy"@ != "continuity:approval"@,
        "continuity:handoff"@ != "continuity:approval"@,
        "continuity:mission"@ != "continuity:approval"@,
        "Fleet declared without continuity_policy for takeover and succession"@[0] == 'F',
        "Recovery reassigns mission but no continuity_policy defines takeover mode"@.len() > 0,
        "Recovery reassigns mission but no continuity_policy defines takeover mode"@[0] == 'R',
        "continuity_policy resumes from checkpoint but no mission_plan is declared"@.len() > 0,
        "continuity_policy resumes from checkpoint but no mission_plan is declared"@[0] == 'c',
        "Fleet declared without continuity_policy"@.len() > 0 && "Fleet declared without continuity_policy"@[0] == 'F',
{
    reveal_strlit("continuity_policy '");
    reveal_strlit("High-risk continuity action '");
    reveal_strlit("continuity:fleet");
    reveal_strlit("continuity:policy");
    reveal_strlit("continuity:handoff");
    reveal_strlit("continuity:mission");
    reveal_strlit("continuity:approval");
    reveal_strlit("Fleet declared without continuity_policy for takeover and succession");
    reveal_strlit("Recovery reassigns mission but no continuity_policy defines takeover mode");
    reveal_strlit("continuity_policy resumes from checkpoint but no mission_plan is declared");
    reveal_strlit("Fleet declared without continuity_policy");
    assert("continuity:fleet"@[11] != "continuity:approval"@[11]);
    assert("continuity:policy"@[11] != "continuity:approval"@[11]);
    assert("continuity:handoff"@[11] != "continuity:approval"@[11]);
    assert("continuity:mission"@[11] != "continuity:approval"@[11]);
}

proof fn lemma_action_diags_shape(p: Program, b: PolicyBranch, acts: Seq<Seq<char>>)
    ensures
        forall|k: int| 0 <= k < action_diags(p, b, acts).len() ==> branch_diag_shape(p, #[trigger] action_diags(p, b, acts)[k]),
        approval_path_spec(p) ==> action_diags(p, b, acts).len() == 0,
    decreases acts.len(),
{
    lemma_literals();
    if acts.len() > 0 {
        lemma_action_diags_shape(p, b, acts.drop_last());
        let a = action_diags(p, b, acts.drop_last());
        let all = action_diags(p, b, acts);
        assert forall|k: int| 0 <= k < all.len() implies branch_diag_shape(p, #[trigger] all[k]) by {
            if k < a.len() {
                assert(all[k] == a[k]);
            }
        }
    }
}

proof fn lemma_branches_diags_shape(p: Program, name: Seq<char>, bs: Seq<PolicyBranch>)
    ensures
        forall|k: int|
            0 <= k < branches_diags(p, name, bs).len() ==> branch_diag_shape(p, #[trigger] branches_diags(p, name, bs)[k]),
    decreases bs.len(),
{
    lemma_literals();
    if bs.len() > 0 {
        let b = bs.last();
        lemma_branches_diags_shape(p, name, bs.drop_last());
        lemma_action_diags_shape(p, b, b.actions@.map_values(|a: String| a@));
        let a = branches_diags(p, name, bs.drop_last());
        let bd = branch_diags(p, name, b);
        let all = branches_diags(p, name, bs);
        let acts = action_diags(p, b, b.actions@.map_values(|a: String| a@));
        let trig = ascii_lower_seq(b.condition@);
        let fl = if (has_infix(trig, "fleet"@) || has_infix(trig, "swarm"@)) && p.fleets@.len() == 0 {
            seq![
                dv(
                    "continuity_policy '"@ + name + "' references fleet failures but no fleet is declared"@,
                    b.span,
                    "error"@,
                    "continuity:fleet"@,
                    Some(FLEET_FIX@),
                ),
            ]
        } else {
            seq![]
        };
        assert(bd == fl + acts);
        assert forall|k: int| 0 <= k < all.len() implies branch_diag_shape(p, #[trigger] all[k]) by {
            if k < a.len() {
                assert(all[k] == a[k]);
            } else if k < a.len() + fl.len() {
                assert(all[k] == fl[k - a.len()]);
            } else {
                assert(all[k] == acts[k - a.len() - fl.len()]);
            }
        }
    }
}

proof fn lemma_policies_diags_shape(p: Program, cs: Seq<ContinuityPolicyDecl>)
    ensures
        forall|k: int|
            0 <= k < policies_diags(p, cs).len() ==> branch_diag_shape(p, #[trigger] policies_diags(p, cs)[k]),
    decreases cs.len(),
{
    lemma_literals();
    if cs.len() > 0 {
        let c = cs.last();
        lemma_policies_diags_shape(p, cs.drop_last());
        lemma_branches_diags_shape(p, c.name@, c.branches@);
        let a = policies_diags(p, cs.drop_last());
        let b = policy_diags(p, c);
        let all = policies_diags(p, cs);
        assert forall|k: int| 0 <= k < all.len() implies branch_diag_shape(p, #[trigger] all[k]) by {
            if k < a.len() {
                assert(all[k] == a[k]);
            } else {
                assert(all[k] == b[k - a.len()]);
            }
        }
    }
}

/// With `m` fleet members in all: a fleet warning appears exactly when there
/// is no continuity policy and `m >= 2`; a program with no continuity policy
/// and fewer than two fleet members gets no continuity diagnostic; and when a
/// robot has an `Approval` topic no diagnostic asks for an approval path.
pub proof fn law_continuity_fleet_and_approval(p: Program)
    ensures
        (exists|k: int|
            0 <= k < continuity_diags_spec(p).len() && has_prefix(
                (#[trigger] continuity_diags_spec(p)[k]).message,
                "Fleet declared without continuity_policy"@,
            )) <==> (p.continuity_policies@.len() == 0 && members_total(p.fleets@) >= 2),
        p.continuity_policies@.len() == 0 && members_total(p.fleets@) < 2 ==> continuity_diags_spec(p).len() == 0,
        approval_path_spec(p) ==> forall|k: int|
            0 <= k < continuity_diags_spec(p).len() ==> (#[trigger] continuity_diags_spec(p)[k]).category
                != "continuity:approval"@,
{
    lemma_literals();
    lemma_policies_diags_shape(p, p.continuity_policies@);
    let d = continuity_diags_spec(p);
    let has_continuity = p.continuity_policies@.len() > 0;
    let multi = members_total(p.fleets@) >= 2;
    let s1: Seq<DiagView> = if multi && !has_continuity {
        seq![
            dv(
                "Fleet declared without continuity_policy for takeover and succession"@,
                first_span(p.fleets@, |f: FleetDecl| f.span),
                "warning"@,
                "continuity:policy"@,
                Some(CONTINUITY_FIX@),
            ),
        ]
    } else {
        seq![]
    };
    let s2: Seq<DiagView> = if recovery_handoff_spec(p) && multi && !has_continuity {
        seq![
            dv(
                "Recovery reassigns mission but no continuity_policy defines takeover mode"@,
                first_span(p.recovery_policies@, |r: RecoveryPolicyDecl| r.span),
                "info"@,
                "continuity:handoff"@,
                Some(CONTINUITY_FIX@),
            ),
        ]
    } else {
        seq![]
    };
    let s3: Seq<DiagView> = if resume_or_checkpoint_spec(p) && p.mission_plan_count == 0 {
        seq![
            dv(
                "continuity_policy resumes from checkpoint but no mission_plan is declared"@,
                first_span(p.continuity_policies@, |c: ContinuityPolicyDecl| c.span),
                "warning"@,
                "continuity:mission"@,
                Some(MISSION_PLAN_FIX@),
            ),
        ]
    } else {
        seq![]
    };
    let s4 = policies_diags(p, p.continuity_policies@);
    assert(d == s1 + s2 + s3 + s4);
    let fleet_msg = "Fleet declared without continuity_policy"@;
    assert forall|k: int| 0 <= k < d.len() && k >= s1.len() implies (#[trigger] d[k]).message.len() > 0
        && d[k].message[0] != 'F' && (approval_path_spec(p) ==> d[k].category != "continuity:approval"@) by {
        if k < s1.len() + s2.len() {
            assert(d[k] == s2[k - s1.len()]);
        } else if k < s1.len() + s2.len() + s3.len() {
            assert(d[k] == s3[k - s1.len() - s2.len()]);
        } else {
            assert(d[k] == s4[k - s1.len() - s2.len() - s3.len()]);
        }
    }
    if exists|k: int| 0 <= k < d.len() && has_prefix((#[trigger] d[k]).message, fleet_msg) {
        let k = choose|k: int| 0 <= k < d.len() && has_prefix((#[trigger] d[k]).message, fleet_msg);
        assert(d[k].message[0] == fleet_msg[0]);
        if k >= s1.len() {
            assert(d[k].message[0] != 'F');
        }
    }
    if multi && !has_continuity {
        reveal_strlit("Fleet declared without continuity_policy for takeover and succession");
        reveal_strlit("Fleet declared without continuity_policy");
        assert(d[0] == s1[0]);
        assert(d[0].message.subrange(0, fleet_msg.len() as int) =~= fleet_msg);
        assert(has_prefix(d[0].message, fleet_msg));
    }
    if !has_continuity {
        assert(s4.len() == 0);
        assert(!resume_or_checkpoint_spec(p));
    }
    if approval_path_spec(p) {
        assert forall|k: int| 0 <= k < d.len() implies (#[trigger] d[k]).category != "continuity:approval"@ by {
            if k < s1.len() {
                assert(d[k] == s1[k]);
            }
        }
    }
}

/// The warning raised for a high-risk action of a branch.
pub open spec fn approval_warning(b: PolicyBranch, action: Seq<char>) -> DiagView {
    DiagView {
        message: "High-risk continuity action '"@ + action + "' should have an Approval topic or operator path"@,
        line: b.span.line,
        column: b.span.column,
        severity: "warning"@,
        category: "continuity:approval"@,
        suggested_fix: Some(APPROVAL_FIX@),
    }
}

proof fn lemma_action_diags_contain(p: Program, b: PolicyBranch, acts: Seq<Seq<char>>, k: int)
    requires
        0 <= k < acts.len(),
        high_risk_spec(acts[k]),
        !approval_path_spec(p),
    ensures
        action_diags(p, b, acts).contains(approval_warning(b, acts[k])),
    decreases acts.len(),
{
    let d = acts.drop_last();
    let w = approval_warning(b, acts[k]);
    if k < acts.len() - 1 {
        assert(d[k] == acts[k]);
        lemma_action_diags_contain(p, b, d, k);
        let tail = if high_risk_spec(acts.last()) && !approval_path_spec(p) {
            seq![dv(
                "High-risk continuity action '"@ + acts.last() + "' should have an Approval topic or operator path"@,
                b.span,
                "warning"@,
                "continuity:approval"@,
                Some(APPROVAL_FIX@),
            )]
        } else {
            seq![]
        };
        lemma_concat_contains(action_diags(p, b, d), tail, w);
    } else {
        let tail = seq![w];
        assert(action_diags(p, b, acts) == action_diags(p, b, d) + tail);
        assert(tail[0] == w);
        lemma_concat_contains(action_diags(p, b, d), tail, w);
    }
}

proof fn lemma_branches_diags_contain(p: Program, name: Seq<char>, bs: Seq<PolicyBranch>, j: int, x: DiagView)
    requires
        0 <= j < bs.len(),
        branch_diags(p, name, bs[j]).contains(x),
    ensures
        branches_diags(p, name, bs).contains(x),
    decreases bs.len(),
{
    let d = bs.drop_last();
    if j < bs.len() - 1 {
        assert(d[j] == bs[j]);
        lemma_branches_diags_contain(p, name, d, j, x);
    }
    lemma_concat_contains(branches_diags(p, name, d), branch_diags(p, name, bs.last()), x);
}

proof fn lemma_policies_diags_contain(p: Program, cs: Seq<ContinuityPolicyDecl>, i: int, x: DiagView)
    requires
        0 <= i < cs.len(),
        policy_diags(p, cs[i]).contains(x),
    ensures
        policies_diags(p, cs).contains(x),
    decreases cs.len(),
{
    let d = cs.drop_last();
    if i < cs.len() - 1 {
        assert(d[i] == cs[i]);
        lemma_policies_diags_contain(p, d, i, x);
    }
    lemma_concat_contains(policies_diags(p, d), policy_diags(p, cs.last()), x);
}

/// Takeovers need an approval path: when no robot subscribes to an
/// `Approval` topic, every action of a continuity policy branch whose text,
/// lower-cased and with white space removed, mentions a hot, cold, human or
/// operator takeover is flagged with the warning "High-risk continuity action
/// '<action>' should have an Approval topic or operator path" at the branch.
pub proof fn law_takeover_actions_need_approval(p: Program, i: int, j: int, k: int)
    requires
        0 <= i < p.continuity_policies@.len(),
        0 <= j < p.continuity_policies@[i].branches@.len(),
        0 <= k < p.continuity_policies@[i].branches@[j].actions@.len(),
    ensures
        ({
            let a = p.continuity_policies@[i].branches@[j].actions@[k]@;
            let l = strip_white_space(ascii_lower_seq(a));
            &&& forall|r: int, t: int|
                0 <= r < p.robots@.len() && 0 <= t < p.robots@[r].topics@.len() ==> (#[trigger] p.robots@[r].topics@[t]).message_type@
                    != "Approval"@
            &&& has_infix(l, "hottakeover"@) || has_infix(l, "coldtakeover"@) || has_infix(l, "humantakeover"@)
                || has_infix(l, "operatortakeover"@)
        }) ==> continuity_diags_spec(p).contains(
            approval_warning(p.continuity_policies@[i].branches@[j], p.continuity_policies@[i].branches@[j].actions@[k]@),
        ),
{
    let c = p.continuity_policies@[i];
    let b = c.branches@[j];
    let a = b.actions@[k]@;
    let l = strip_white_space(ascii_lower_seq(a));
    if (forall|r: int, t: int|
        0 <= r < p.robots@.len() && 0 <= t < p.robots@[r].topics@.len() ==> (#[trigger] p.robots@[r].topics@[t]).message_type@
            != "Approval"@) && (has_infix(l, "hottakeover"@) || has_infix(l, "coldtakeover"@) || has_infix(
        l,
        "humantakeover"@,
    ) || has_infix(l, "operatortakeover"@)) {
        assert(!approval_path_spec(p)) by {
            if approval_path_spec(p) {
                let r = choose|r: int| 0 <= r < p.robots@.len() && robot_approval_spec(#[trigger] p.robots@[r]);
                let t = choose|t: int| 0 <= t < p.robots@[r].topics@.len() && #[trigger] p.robots@[r].topics@[t].message_type@ == "Approval"@;
                assert(p.robots@[r].topics@[t].message_type@ != "Approval"@);
            }
        }
        let acts = b.actions@.map_values(|s: String| s@);
        assert(acts[k] == a);
        assert(high_risk_spec(a));
        lemma_action_diags_contain(p, b, acts, k);
        let w = approval_warning(b, a);
        let head = if (has_infix(ascii_lower_seq(b.condition@), "fleet"@) || has_infix(ascii_lower_seq(b.condition@), "swarm"@))
            && p.fleets@.len() == 0 {
            seq![dv(
                "continuity_policy '"@ + c.name@ + "' references fleet failures but no fleet is declared"@,
                b.span,
                "error"@,
                "continuity:fleet"@,
                Some(FLEET_FIX@),
            )]
        } else {
            seq![]
        };
        assert(branch_diags(p, c.name@, b) == head + action_diags(p, b, acts));
        lemma_concat_contains(head, action_diags(p, b, acts), w);
        lemma_branches_diags_contain(p, c.name@, c.branches@, j, w);
        assert(policy_diags(p, c) == branches_diags(p, c.name@, c.branches@));
        lemma_policies_diags_contain(p, p.continuity_policies@, i, w);
        let all = continuity_diags_spec(p);
        let pre = all.subrange(0, all.len() - policies_diags(p, p.continuity_policies@).len());
        assert(all == pre + policies_diags(p, p.continuity_policies@));
        lemma_concat_contains(pre, policies_diags(p, p.continuity_policies@), w);
    }
}

/// `x` is the approval warning of a high-risk action of branch `j` of policy
/// `i` of `cs`, raised without an approval path.
pub open spec fn flagged_action(p: Program, cs: Seq<ContinuityPolicyDecl>, x: DiagView, i: int, j: int, k: int) -> bool {
    &&& 0 <= i < cs.len()
    &&& 0 <= j < cs[i].branches@.len()
    &&& 0 <= k < cs[i].branches@[j].actions@.len()
    &&& x == approval_warning(cs[i].branches@[j], cs[i].branches@[j].actions@[k]@)
    &&& high_risk_spec(cs[i].branches@[j].actions@[k]@)
    &&& !approval_path_spec(p)
}

proof fn lemma_action_diags_from(p: Program, b: PolicyBranch, acts: Seq<Seq<char>>, x: DiagView)
    requires
        action_diags(p, b, acts).contains(x),
    ensures
        exists|k: int|
            0 <= k < acts.len() && x == approval_warning(b, #[trigger] acts[k]) && high_risk_spec(acts[k])
                && !approval_path_spec(p),
    decreases acts.len(),
{
    let d = acts.drop_last();
    let tail = if high_risk_spec(acts.last()) && !approval_path_spec(p) {
        seq![approval_warning(b, acts.last())]
    } else {
        seq![]
    };
    assert(action_diags(p, b, acts) == action_diags(p, b, d) + tail);
    lemma_concat_contains(action_diags(p, b, d), tail, x);
    if action_diags(p, b, d).contains(x) {
        lemma_action_diags_from(p, b, d, x);
        let k = choose|k: int|
            0 <= k < d.len() && x == approval_warning(b, #[trigger] d[k]) && high_risk_spec(d[k]) && !approval_path_spec(p);
        assert(acts[k] == d[k]);
    } else {
        assert(tail[0] == x);
        assert(acts[acts.len() - 1] == acts.last());
    }
}

proof fn lemma_policies_diags_from(p: Program, cs: Seq<ContinuityPolicyDecl>, x: DiagView)
    requires
        policies_diags(p, cs).contains(x),
        x.category == "continuity:approval"@,
    ensures
        exists|i: int, j: int, k: int| #[trigger] flagged_action(p, cs, x, i, j, k),
    decreases cs.len(),
{
    lemma_literals();
    let d = cs.drop_last();
    let c = cs.last();
    let last = cs.len() - 1;
    assert(cs[last] == c);
    lemma_concat_contains(policies_diags(p, d), policy_diags(p, c), x);
    if policies_diags(p, d).contains(x) {
        lemma_policies_diags_from(p, d, x);
        let (i, j, k) = choose|i: int, j: int, k: int| #[trigger] flagged_action(p, d, x, i, j, k);
        assert(d[i] == cs[i]);
        assert(flagged_action(p, cs, x, i, j, k));
    } else {
        assert(c.branches@.len() > 0) by {
            if c.branches@.len() == 0 {
                assert(policy_diags(p, c)[0] == x);
            }
        }
        let (j, k) = lemma_branches_diags_from(p, c.name@, c.branches@, x);
        assert(flagged_action(p, cs, x, last, j, k));
    }
}

proof fn lemma_branches_diags_from(p: Program, name: Seq<char>, bs: Seq<PolicyBranch>, x: DiagView) -> (jk: (int, int))
    requires
        branches_diags(p, name, bs).contains(x),
        x.category == "continuity:approval"@,
    ensures
        0 <= jk.0 < bs.len(),
        0 <= jk.1 < bs[jk.0].actions@.len(),
        x == approval_warning(bs[jk.0], bs[jk.0].actions@[jk.1]@),
        high_risk_spec(bs[jk.0].actions@[jk.1]@),
        !approval_path_spec(p),
    decreases bs.len(),
{
    lemma_literals();
    let d = bs.drop_last();
    let b = bs.last();
    let last = bs.len() - 1;
    assert(bs[last] == b);
    lemma_concat_contains(branches_diags(p, name, d), branch_diags(p, name, b), x);
    if branches_diags(p, name, d).contains(x) {
        let (j, k) = lemma_branches_diags_from(p, name, d, x);
        assert(d[j] == bs[j]);
        (j, k)
    } else {
        let acts = b.actions@.map_values(|s: String| s@);
        let head = if (has_infix(ascii_lower_seq(b.condition@), "fleet"@) || has_infix(
            ascii_lower_seq(b.condition@),
            "swarm"@,
        )) && p.fleets@.len() == 0 {
            seq![dv(
                "continuity_policy '"@ + name + "' references fleet failures but no fleet is declared"@,
                b.span,
                "error"@,
                "continuity:fleet"@,
                Some(FLEET_FIX@),
            )]
        } else {
            seq![]
        };
        assert(branch_diags(p, name, b) == head + action_diags(p, b, acts));
        lemma_concat_contains(head, action_diags(p, b, acts), x);
        if head.contains(x) {
            assert(head[0] == x);
        }
        lemma_action_diags_from(p, b, acts, x);
        let k = choose|k: int|
            0 <= k < acts.len() && x == approval_warning(b, #[trigger] acts[k]) && high_risk_spec(acts[k])
                && !approval_path_spec(p);
        assert(acts[k] == b.actions@[k]@);
        (last, k)
    }
}

/// Every approval warning among the continuity diagnostics is that of a
/// takeover action, raised because no robot subscribes to an `Approval`
/// topic: it names an action of some continuity policy branch whose text,
/// lower-cased and with white space removed, mentions a hot, cold, human or
/// operator takeover.
pub proof fn law_approval_warnings_name_takeovers(p: Program, x: DiagView)
    requires
        continuity_diags_spec(p).contains(x),
        x.category == "continuity:approval"@,
    ensures
        forall|r: int, t: int|
            0 <= r < p.robots@.len() && 0 <= t < p.robots@[r].topics@.len() ==> (#[trigger] p.robots@[r].topics@[t]).message_type@
                != "Approval"@,
        exists|i: int, j: int, k: int|
            #![trigger p.continuity_policies@[i].branches@[j].actions@[k]]
            0 <= i < p.continuity_policies@.len() && 0 <= j < p.continuity_policies@[i].branches@.len() && 0 <= k
                < p.continuity_policies@[i].branches@[j].actions@.len() && x == approval_warning(
                p.continuity_policies@[i].branches@[j],
                p.continuity_policies@[i].branches@[j].actions@[k]@,
            ) && (has_infix(strip_white_space(ascii_lower_seq(p.continuity_policies@[i].branches@[j].actions@[k]@)), "hottakeover"@)
                || has_infix(strip_white_space(ascii_lower_seq(p.continuity_policies@[i].branches@[j].actions@[k]@)), "coldtakeover"@)
                || has_infix(strip_white_space(ascii_lower_seq(p.continuity_policies@[i].branches@[j].actions@[k]@)), "humantakeover"@)
                || has_infix(strip_white_space(ascii_lower_seq(p.continuity_policies@[i].branches@[j].actions@[k]@)), "operatortakeover"@)),
{
    lemma_literals();
    let all = continuity_diags_spec(p);
    let pol = policies_diags(p, p.continuity_policies@);
    let pre = all.subrange(0, all.len() - pol.len());
    assert(all == pre + pol);
    lemma_concat_contains(pre, pol, x);
    assert(!pre.contains(x)) by {
        if pre.contains(x) {
            let m = choose|m: int| 0 <= m < pre.len() && pre[m] == x;
            assert(pre[m].category != "continuity:approval"@);
        }
    }
    lemma_policies_diags_from(p, p.continuity_policies@, x);
    let (i, j, k) = choose|i: int, j: int, k: int| #[trigger] flagged_action(p, p.continuity_policies@, x, i, j, k);
    assert forall|r: int, t: int|
        0 <= r < p.robots@.len() && 0 <= t < p.robots@[r].topics@.len() implies (#[trigger] p.robots@[r].topics@[t]).message_type@
            != "Approval"@ by {
        if p.robots@[r].topics@[t].message_type@ == "Approval"@ {
            assert(robot_approval_spec(p.robots@[r]));
        }
    }
}

} // verus!
