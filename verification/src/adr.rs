//! Architecture decision records derived from the structure of a program.
use vstd::prelude::*;
use crate::ast::{DeployDecl, HealthPolicyDecl, KillSwitchDecl, MissionDecl, OperationalPolicyDecl, Program,
    RecoveryPolicyDecl, RobotDecl};
use crate::text::{
    cat2, cat3, cat4, cat5, copy_string, decimal, format_decimal, format_zero_padded, join, join_spec, owned,
    lemma_views_push, str_trim_end, trim_end_spec, views, zero_pad,
};

verus! {

/// Output format for ADR reports.
#[derive(Debug, Clone, Copy, PartialEq, Eq, Default, Structural)]
pub enum AdrFormat {
    #[default]
    Markdown,
    Json,
}

/// Single architecture decision record.
#[derive(Debug, Clone, PartialEq, Eq)]
pub struct AdrRecord {
    pub id: String,
    pub title: String,
    pub status: String,
    pub context: String,
    pub decision: String,
    pub consequences: String,
}

/// ADR generation report for a program.
#[derive(Debug, Clone, PartialEq, Eq)]
pub struct AdrReport {
    pub program: String,
    pub records: Vec<AdrRecord>,
}

/// The four texts of a record, before it is numbered.
#[verifier::ext_equal]
pub struct AdrText {
    pub title: Seq<char>,
    pub context: Seq<char>,
    pub decision: Seq<char>,
    pub consequences: Seq<char>,
}

/// Mathematical value of an [`AdrRecord`].
#[verifier::ext_equal]
pub struct AdrRecordView {
    pub id: Seq<char>,
    pub title: Seq<char>,
    pub status: Seq<char>,
    pub context: Seq<char>,
    pub decision: Seq<char>,
    pub consequences: Seq<char>,
}

impl View for AdrRecord {
    type V = AdrRecordView;

    open spec fn view(&self) -> AdrRecordView {
        AdrRecordView {
            id: self.id@,
            title: self.title@,
            status: self.status@,
            context: self.context@,
            decision: self.decision@,
            consequences: self.consequences@,
        }
    }
}

pub open spec fn record_views(v: Seq<AdrRecord>) -> Seq<AdrRecordView> {
    v.map_values(|r: AdrRecord| r@)
}

/// Mathematical value of an [`AdrReport`].
#[verifier::ext_equal]
pub struct AdrReportView {
    pub program: Seq<char>,
    pub records: Seq<AdrRecordView>,
}

impl View for AdrReport {
    type V = AdrReportView;

    open spec fn view(&self) -> AdrReportView {
        AdrReportView { program: self.program@, records: record_views(self.records@) }
    }
}

pub open spec fn adr_text(title: Seq<char>, context: Seq<char>, decision: Seq<char>, consequences: Seq<char>) -> AdrText {
    AdrText { title, context, decision, consequences }
}

/// The identifier of the `n`-th record: `ADR-` and the number with at least three digits.
pub open spec fn adr_id(n: nat) -> Seq<char> {
    "ADR-"@ + zero_pad(decimal(n), 3)
}

/// The record numbered `n` with the given texts.
pub open spec fn numbered(n: nat, t: AdrText) -> AdrRecordView {
    AdrRecordView {
        id: adr_id(n),
        title: t.title,
        status: "Accepted"@,
        context: t.context,
        decision: t.decision,
        consequences: t.consequences,
    }
}

/// The texts numbered from 1 in order.
pub open spec fn numbered_all(ts: Seq<AdrText>) -> Seq<AdrRecordView> {
    Seq::new(ts.len(), |i: int| numbered((i + 1) as nat, ts[i]))
}

pub open spec fn deploy_text(robot: Seq<char>, target: Seq<char>) -> AdrText {
    adr_text(
        "Deploy "@ + robot + " to "@ + target,
        "Robot '"@ + robot + "' must run on compatible hardware."@,
        "Deploy robot '"@ + robot + "' to hardware profile '"@ + target + "'."@,
        "Hardware compatibility verification gates rollout to this target."@,
    )
}

pub open spec fn target_texts(robot: Seq<char>, targets: Seq<Seq<char>>) -> Seq<AdrText> {
    targets.map_values(|t: Seq<char>| deploy_text(robot, t))
}

/// One record per deployment target, in declaration order.
pub open spec fn deploy_texts(ds: Seq<DeployDecl>) -> Seq<AdrText>
    decreases ds.len(),
{
    if ds.len() == 0 {
        seq![]
    } else {
        deploy_texts(ds.drop_last()) + target_texts(ds.last().robot_name@, views(ds.last().targets@))
    }
}

pub open spec fn capability_part(r: RobotDecl) -> Seq<AdrText> {
    if r.exposes_capabilities@.len() == 0 {
        seq![]
    } else {
        seq![adr_text(
            "Capability surface for "@ + r.name@,
            "Robot '"@ + r.name@ + "' advertises operational capabilities to missions and fleet peers."@,
            "Expose capabilities: "@ + join_spec(views(r.exposes_capabilities@), ", "@) + "."@,
            "Downstream missions must declare required capabilities against this surface."@,
        )]
    }
}

pub open spec fn speed_part(r: RobotDecl) -> Seq<AdrText> {
    match r.max_speed_label {
        Some(limit) => seq![adr_text(
            "Safety speed cap for "@ + r.name@,
            "Actuator commands for '"@ + r.name@ + "' must remain within safe velocity bounds."@,
            "Cap linear speed at "@ + limit@ + " m/s in robot safety block."@,
            "Verification and runtime safety checks enforce the declared cap."@,
        )],
        None => seq![],
    }
}

pub open spec fn mission_title(robot: Seq<char>, m: MissionDecl) -> Seq<char> {
    match m.name {
        Some(n) => "Mission "@ + n@ + " on "@ + robot,
        None => "Mission plan for "@ + robot,
    }
}

pub open spec fn mission_duration(m: MissionDecl) -> Seq<char> {
    match m.duration_label {
        Some(h) => "duration "@ + h@ + " h"@,
        None => "unspecified duration"@,
    }
}

pub open spec fn mission_capabilities(m: MissionDecl) -> Seq<char> {
    if m.required_capabilities@.len() == 0 {
        "no explicit capability requirements"@
    } else {
        "requires "@ + join_spec(views(m.required_capabilities@), ", "@)
    }
}

pub open spec fn mission_part(r: RobotDecl) -> Seq<AdrText> {
    match r.mission {
        Some(m) => seq![adr_text(
            mission_title(r.name@, m),
            "Robot '"@ + r.name@ + "' executes an operational mission with bounded runtime."@,
            "Mission defined with "@ + mission_duration(m) + "; "@ + mission_capabilities(m) + "."@,
            "Readiness and resource estimation use mission timing for go/no-go and budgeting."@,
        )],
        None => seq![],
    }
}

/// Capability surface, speed cap and mission records of one robot.
pub open spec fn robot_texts(r: RobotDecl) -> Seq<AdrText> {
    capability_part(r) + speed_part(r) + mission_part(r)
}

pub open spec fn robots_texts(rs: Seq<RobotDecl>) -> Seq<AdrText>
    decreases rs.len(),
{
    if rs.len() == 0 {
        seq![]
    } else {
        robots_texts(rs.drop_last()) + robot_texts(rs.last())
    }
}

pub open spec fn kill_switch_text(k: KillSwitchDecl) -> AdrText {
    adr_text(
        "Kill switch "@ + k.name@,
        "Operators require a deterministic emergency stop path."@,
        "Declare kill_switch '"@ + k.name@ + "' with critical priority handler."@,
        "Health and compliance profiles may require at least one kill switch."@,
    )
}

pub open spec fn health_policy_text(h: HealthPolicyDecl) -> AdrText {
    adr_text(
        "Health policy "@ + h.name@,
        "Component degradation must trigger predictable operating modes."@,
        "Use health_policy '"@ + h.name@ + "' to map health states to robot actions."@,
        "Readiness scoring and fleet health dashboards consume health_check results."@,
    )
}

pub open spec fn recovery_policy_text(r: RecoveryPolicyDecl) -> AdrText {
    adr_text(
        "Recovery policy "@ + r.name@,
        "Transient faults should be handled without unsafe actuator output."@,
        "Declare recovery_policy '"@ + r.name@ + "' with validated recovery actions."@,
        "Chaos experiments and assurance recovery planners exercise these branches."@,
    )
}

pub open spec fn operational_policy_text(o: OperationalPolicyDecl) -> AdrText {
    adr_text(
        "Operational policy "@ + o.name@,
        "Organization-wide operational constraints apply at verify time."@,
        "Program policy '"@ + o.name@ + "' declares "@ + decimal(o.rule_count as nat) + " verify-time rule(s)."@,
        "Use `spanda verify --policy "@ + o.name@ + "` to enforce the declared rule set."@,
    )
}

pub open spec fn assurance_part(count: usize) -> Seq<AdrText> {
    if count == 0 {
        seq![]
    } else {
        seq![adr_text(
            "Assurance evidence cases"@,
            "Safety and operational claims require traceable evidence artifacts."@,
            "Maintain "@ + decimal(count as nat) + " assurance_case declaration(s) with linked evidence."@,
            "Medical and defense compliance profiles require non-empty assurance cases."@,
        )]
    }
}

/// The record texts a program's declarations call for, in report order.
pub open spec fn program_texts(p: Program) -> Seq<AdrText> {
    deploy_texts(p.deployments@) + robots_texts(p.robots@) + p.kill_switches@.map_values(
        |k: KillSwitchDecl| kill_switch_text(k),
    ) + p.health_policies@.map_values(|h: HealthPolicyDecl| health_policy_text(h))
        + p.recovery_policies@.map_values(|r: RecoveryPolicyDecl| recovery_policy_text(r))
        + p.operational_policies@.map_values(|o: OperationalPolicyDecl| operational_policy_text(o))
        + assurance_part(p.assurance_case_count)
}

pub open spec fn baseline_text(label: Seq<char>) -> AdrText {
    adr_text(
        "Baseline architecture"@,
        "Program '"@ + label + "' contains no deploy or policy declarations yet."@,
        "Continue elaborating robots, safety rules, and deployment targets."@,
        "Re-run `spanda adr` after adding mission-critical declarations."@,
    )
}

/// All record texts of the report: those of the declarations, or the baseline record alone.
pub open spec fn adr_texts(p: Program, label: Seq<char>) -> Seq<AdrText> {
    if program_texts(p).len() == 0 {
        seq![baseline_text(label)]
    } else {
        program_texts(p)
    }
}

pub proof fn lemma_numbered_push(ts: Seq<AdrText>, t: AdrText)
    ensures
        numbered_all(ts.push(t)) == numbered_all(ts).push(numbered((ts.len() + 1) as nat, t)),
{
    assert(numbered_all(ts.push(t)) =~= numbered_all(ts).push(numbered((ts.len() + 1) as nat, t)));
}

fn push_record(records: &mut Vec<AdrRecord>, title: String, context: String, decision: String, consequences: String)
    requires
        old(records)@.len() < usize::MAX,
    ensures
        record_views(final(records)@) == record_views(old(records)@).push(
            numbered((old(records)@.len() + 1) as nat, adr_text(title@, context@, decision@, consequences@)),
        ),
{
    let counter = records.len() + 1;
    let id_digits = format_zero_padded(counter, 3);
    let id = cat2("ADR-", id_digits.as_str());
    let status = owned("Accepted");
    let ghost before = records@;
    records.push(AdrRecord { id, title, status, context, decision, consequences });
    assert(record_views(records@) =~= record_views(before).push(
        numbered((before.len() + 1) as nat, adr_text(title@, context@, decision@, consequences@)),
    ));
}

/// Push the next text, keeping the records equal to the numbered texts so far.
fn push_text(
    records: &mut Vec<AdrRecord>,
    Ghost(done): Ghost<Seq<AdrText>>,
    title: String,
    context: String,
    decision: String,
    consequences: String,
)
    requires
        record_views(old(records)@) == numbered_all(done),
        done.len() < usize::MAX,
    ensures
        record_views(final(records)@) == numbered_all(
            done.push(adr_text(title@, context@, decision@, consequences@)),
        ),
{
    proof {
        lemma_numbered_push(done, adr_text(title@, context@, decision@, consequences@));
        assert(old(records)@.len() == record_views(old(records)@).len());
    }
    push_record(records, title, context, decision, consequences);
}

/// Generate ADR records from program declarations.
///
/// Records are numbered `ADR-001`, `ADR-002`, .. in this order: one per
/// deployment target, then per robot its capability surface, speed cap and
/// mission, then one per kill switch, health policy, recovery policy and
/// operational policy, then one for the assurance cases. A program with
/// none of these gets a single baseline record.
pub fn generate_adrs(program: &Program, source_label: &str) -> (r: AdrReport)
    requires
        program_texts(*program).len() < usize::MAX,
    ensures
        r@ == (AdrReportView {
            program: source_label@,
            records: numbered_all(adr_texts(*program, source_label@)),
        }),
{
    let mut records: Vec<AdrRecord> = Vec::new();
    let ghost all = program_texts(*program);
    let ghost ds = program.deployments@;
    assert(record_views(records@) =~= numbered_all(seq![]));
    assert(deploy_texts(ds.take(0)) =~= seq![]);
    let mut i: usize = 0;
    while i < program.deployments.len()
        invariant
            0 <= i <= ds.len(),
            ds == program.deployments@,
            all == program_texts(*program),
            all.len() < usize::MAX,
            record_views(records@) == numbered_all(deploy_texts(ds.take(i as int))),
        decreases ds.len() - i,
    {
        let d = &program.deployments[i];
        let ghost robot = d.robot_name@;
        let ghost tv = views(d.targets@);
        proof {
            assert(ds.take(i + 1).drop_last() =~= ds.take(i as int));
            assert(deploy_texts(ds.take(i + 1)) == deploy_texts(ds.take(i as int)) + target_texts(robot, tv));
            assert(target_texts(robot, tv.take(0)) =~= seq![]);
            assert(deploy_texts(ds.take(i as int)) + target_texts(robot, tv.take(0)) =~= deploy_texts(
                ds.take(i as int),
            ));
            lemma_deploy_prefix_le(ds, i as int + 1);
            lemma_program_texts_parts(*program);
        }
        let mut j: usize = 0;
        while j < d.targets.len()
            invariant
                0 <= j <= tv.len(),
                0 <= i < ds.len(),
                ds == program.deployments@,
                *d == ds[i as int],
                robot == d.robot_name@,
                tv == views(d.targets@),
                deploy_texts(ds.take(i + 1)) == deploy_texts(ds.take(i as int)) + target_texts(robot, tv),
                deploy_texts(ds.take(i + 1)).len() <= all.len(),
                all.len() < usize::MAX,
                record_views(records@) == numbered_all(
                    deploy_texts(ds.take(i as int)) + target_texts(robot, tv.take(j as int)),
                ),
            decreases tv.len() - j,
        {
            let target = d.targets[j].as_str();
            let name = d.robot_name.as_str();
            let title = cat4("Deploy ", name, " to ", target);
            let context = cat3("Robot '", name, "' must run on compatible hardware.");
            let decision = cat5("Deploy robot '", name, "' to hardware profile '", target, "'.");
            let consequences = owned("Hardware compatibility verification gates rollout to this target.");
            proof {
                assert(target_texts(robot, tv.take(j + 1)) =~= target_texts(robot, tv.take(j as int)).push(
                    deploy_text(robot, tv[j as int]),
                ));
                assert(target_texts(robot, tv.take(j as int)).len() == j);
                assert(target_texts(robot, tv).len() == tv.len());
            }
            push_text(
                &mut records,
                Ghost(deploy_texts(ds.take(i as int)) + target_texts(robot, tv.take(j as int))),
                title,
                context,
                decision,
                consequences,
            );
            proof {
                assert((deploy_texts(ds.take(i as int)) + target_texts(robot, tv.take(j as int))).push(
                    deploy_text(robot, tv[j as int]),
                ) =~= deploy_texts(ds.take(i as int)) + target_texts(robot, tv.take(j + 1)));
            }
            j = j + 1;
        }
        assert(tv.take(j as int) =~= tv);
        i = i + 1;
    }
    assert(ds.take(ds.len() as int) =~= ds);
    proof {
        lemma_program_texts_parts(*program);
    }
    push_robot_records(program, &mut records);
    push_policy_records(program, &mut records);
    if records.len() == 0 {
        proof {
            assert(record_views(records@).len() == records@.len());
            assert(program_texts(*program).len() == 0);
            lemma_numbered_push(seq![], baseline_text(source_label@));
            assert(numbered_all(seq![]) =~= seq![]);
        }
        let title = owned("Baseline architecture");
        let context = cat3("Program '", source_label, "' contains no deploy or policy declarations yet.");
        let decision = owned("Continue elaborating robots, safety rules, and deployment targets.");
        let consequences = owned("Re-run `spanda adr` after adding mission-critical declarations.");
        push_text(&mut records, Ghost(Seq::<AdrText>::empty()), title, context, decision, consequences);
        assert(seq![].push(baseline_text(source_label@)) =~= seq![baseline_text(source_label@)]);
    }
    AdrReport { program: owned(source_label), records }
}

proof fn lemma_deploy_prefix_le(ds: Seq<DeployDecl>, k: int)
    requires
        0 <= k <= ds.len(),
    ensures
        deploy_texts(ds.take(k)).len() <= deploy_texts(ds).len(),
    decreases ds.len() - k,
{
    if k < ds.len() {
        lemma_deploy_prefix_le(ds, k + 1);
        assert(ds.take(k + 1).drop_last() =~= ds.take(k));
    } else {
        assert(ds.take(k) =~= ds);
    }
}

proof fn lemma_robots_prefix_le(rs: Seq<RobotDecl>, k: int)
    requires
        0 <= k <= rs.len(),
    ensures
        robots_texts(rs.take(k)).len() <= robots_texts(rs).len(),
    decreases rs.len() - k,
{
    if k < rs.len() {
        lemma_robots_prefix_le(rs, k + 1);
        assert(rs.take(k + 1).drop_last() =~= rs.take(k));
    } else {
        assert(rs.take(k) =~= rs);
    }
}

/// The lengths of the sections of [`program_texts`].
proof fn lemma_program_texts_parts(p: Program)
    ensures
        program_texts(p).len() == deploy_texts(p.deployments@).len() + robots_texts(p.robots@).len()
            + p.kill_switches@.len() + p.health_policies@.len() + p.recovery_policies@.len()
            + p.operational_policies@.len() + assurance_part(p.assurance_case_count).len(),
{
}

/// The program's texts up to the end of the robot section.
pub open spec fn through_robots(p: Program, k: int) -> Seq<AdrText> {
    deploy_texts(p.deployments@) + robots_texts(p.robots@.take(k))
}

fn push_robot_records(program: &Program, records: &mut Vec<AdrRecord>)
    requires
        program_texts(*program).len() < usize::MAX,
        record_views(old(records)@) == numbered_all(deploy_texts(program.deployments@)),
    ensures
        record_views(final(records)@) == numbered_all(through_robots(*program, program.robots@.len() as int)),
{
    let ghost rs = program.robots@;
    let ghost base = deploy_texts(program.deployments@);
    proof {
        lemma_program_texts_parts(*program);
        assert(rs.take(0) =~= seq![]);
        assert(base + robots_texts(rs.take(0)) =~= base);
    }
    let mut i: usize = 0;
    while i < program.robots.len()
        invariant
            0 <= i <= rs.len(),
            rs == program.robots@,
            base == deploy_texts(program.deployments@),
            base.len() + robots_texts(rs).len() < usize::MAX,
            record_views(records@) == numbered_all(base + robots_texts(rs.take(i as int))),
        decreases rs.len() - i,
    {
        let robot = &program.robots[i];
        let ghost r = rs[i as int];
        let ghost before = base + robots_texts(rs.take(i as int));
        proof {
            assert(rs.take(i + 1).drop_last() =~= rs.take(i as int));
            assert(robots_texts(rs.take(i + 1)) == robots_texts(rs.take(i as int)) + robot_texts(r));
            lemma_robots_prefix_le(rs, i + 1);
        }
        let name = robot.name.as_str();
        let ghost mut done = before;
        if robot.exposes_capabilities.len() > 0 {
            let title = cat2("Capability surface for ", name);
            let context = cat3("Robot '", name, "' advertises operational capabilities to missions and fleet peers.");
            let caps = join(&robot.exposes_capabilities, ", ");
            let decision = cat3("Expose capabilities: ", caps.as_str(), ".");
            let consequences = owned("Downstream missions must declare required capabilities against this surface.");
            let ghost t = adr_text(title@, context@, decision@, consequences@);
            push_text(records, Ghost(done), title, context, decision, consequences);
            proof {
                assert(done.push(t) =~= done + capability_part(r));
                done = done + capability_part(r);
            }
        } else {
            assert(done + capability_part(r) =~= done);
        }
        match &robot.max_speed_label {
            Some(limit) => {
                let title = cat2("Safety speed cap for ", name);
                let context = cat3("Actuator commands for '", name, "' must remain within safe velocity bounds.");
                let decision = cat3("Cap linear speed at ", limit.as_str(), " m/s in robot safety block.");
                let consequences = owned("Verification and runtime safety checks enforce the declared cap.");
                let ghost t = adr_text(title@, context@, decision@, consequences@);
                push_text(records, Ghost(done), title, context, decision, consequences);
                proof {
                    assert(done.push(t) =~= done + speed_part(r));
                    done = done + speed_part(r);
                }
            },
            None => {
                assert(done + speed_part(r) =~= done);
            },
        }
        match &robot.mission {
            Some(m) => {
                let title = match &m.name {
                    Some(n) => cat4("Mission ", n.as_str(), " on ", name),
                    None => cat2("Mission plan for ", name),
                };
                let duration = match &m.duration_label {
                    Some(h) => cat3("duration ", h.as_str(), " h"),
                    None => owned("unspecified duration"),
                };
                let capabilities = if m.required_capabilities.len() == 0 {
                    owned("no explicit capability requirements")
                } else {
                    let list = join(&m.required_capabilities, ", ");
                    cat2("requires ", list.as_str())
                };
                let context = cat3("Robot '", name, "' executes an operational mission with bounded runtime.");
                let decision = cat5("Mission defined with ", duration.as_str(), "; ", capabilities.as_str(), ".");
                let consequences = owned(
                    "Readiness and resource estimation use mission timing for go/no-go and budgeting.",
                );
                let ghost t = adr_text(title@, context@, decision@, consequences@);
                push_text(records, Ghost(done), title, context, decision, consequences);
                proof {
                    assert(done.push(t) =~= done + mission_part(r));
                    done = done + mission_part(r);
                }
            },
            None => {
                assert(done + mission_part(r) =~= done);
            },
        }
        assert(done =~= base + robots_texts(rs.take(i + 1)));
        i = i + 1;
    }
    assert(rs.take(rs.len() as int) =~= rs);
}

fn push_policy_records(program: &Program, records: &mut Vec<AdrRecord>)
    requires
        program_texts(*program).len() < usize::MAX,
        record_views(old(records)@) == numbered_all(through_robots(*program, program.robots@.len() as int)),
    ensures
        record_views(final(records)@) == numbered_all(program_texts(*program)),
{
    let ghost p = *program;
    proof {
        lemma_program_texts_parts(p);
        assert(p.robots@.take(p.robots@.len() as int) =~= p.robots@);
    }
    let ghost s0 = deploy_texts(p.deployments@) + robots_texts(p.robots@);
    let ghost ks = p.kill_switches@.map_values(|k: KillSwitchDecl| kill_switch_text(k));
    let ghost hs = p.health_policies@.map_values(|h: HealthPolicyDecl| health_policy_text(h));
    let ghost qs = p.recovery_policies@.map_values(|r: RecoveryPolicyDecl| recovery_policy_text(r));
    let ghost os = p.operational_policies@.map_values(|o: OperationalPolicyDecl| operational_policy_text(o));
    let ghost total = s0.len() + ks.len() + hs.len() + qs.len() + os.len() + assurance_part(p.assurance_case_count).len();
    assert(total == program_texts(p).len());
    let mut i: usize = 0;
    assert(s0 + ks.take(0) =~= s0);
    while i < program.kill_switches.len()
        invariant
            0 <= i <= ks.len(),
            p == *program,
            ks == p.kill_switches@.map_values(|k: KillSwitchDecl| kill_switch_text(k)),
            total < usize::MAX,
            total == s0.len() + ks.len() + hs.len() + qs.len() + os.len() + assurance_part(p.assurance_case_count).len(),
            record_views(records@) == numbered_all(s0 + ks.take(i as int)),
        decreases ks.len() - i,
    {
        let name = program.kill_switches[i].name.as_str();
        let title = cat2("Kill switch ", name);
        let context = owned("Operators require a deterministic emergency stop path.");
        let decision = cat3("Declare kill_switch '", name, "' with critical priority handler.");
        let consequences = owned("Health and compliance profiles may require at least one kill switch.");
        push_text(records, Ghost(s0 + ks.take(i as int)), title, context, decision, consequences);
        assert((s0 + ks.take(i as int)).push(ks[i as int]) =~= s0 + ks.take(i + 1));
        i = i + 1;
    }
    assert(ks.take(ks.len() as int) =~= ks);
    let ghost s1 = s0 + ks;
    assert(s1 + hs.take(0) =~= s1);
    let mut i: usize = 0;
    while i < program.health_policies.len()
        invariant
            0 <= i <= hs.len(),
            p == *program,
            hs == p.health_policies@.map_values(|h: HealthPolicyDecl| health_policy_text(h)),
            total < usize::MAX,
            total == s1.len() + hs.len() + qs.len() + os.len() + assurance_part(p.assurance_case_count).len(),
            record_views(records@) == numbered_all(s1 + hs.take(i as int)),
        decreases hs.len() - i,
    {
        let name = program.health_policies[i].name.as_str();
        let title = cat2("Health policy ", name);
        let context = owned("Component degradation must trigger predictable operating modes.");
        let decision = cat3("Use health_policy '", name, "' to map health states to robot actions.");
        let consequences = owned("Readiness scoring and fleet health dashboards consume health_check results.");
        push_text(records, Ghost(s1 + hs.take(i as int)), title, context, decision, consequences);
        assert((s1 + hs.take(i as int)).push(hs[i as int]) =~= s1 + hs.take(i + 1));
        i = i + 1;
    }
    assert(hs.take(hs.len() as int) =~= hs);
    let ghost s2 = s1 + hs;
    assert(s2 + qs.take(0) =~= s2);
    let mut i: usize = 0;
    while i < program.recovery_policies.len()
        invariant
            0 <= i <= qs.len(),
            p == *program,
            qs == p.recovery_policies@.map_values(|r: RecoveryPolicyDecl| recovery_policy_text(r)),
            total < usize::MAX,
            total == s2.len() + qs.len() + os.len() + assurance_part(p.assurance_case_count).len(),
            record_views(records@) == numbered_all(s2 + qs.take(i as int)),
        decreases qs.len() - i,
    {
        let name = program.recovery_policies[i].name.as_str();
        let title = cat2("Recovery policy ", name);
        let context = owned("Transient faults should be handled without unsafe actuator output.");
        let decision = cat3("Declare recovery_policy '", name, "' with validated recovery actions.");
        let consequences = owned("Chaos experiments and assurance recovery planners exercise these branches.");
        push_text(records, Ghost(s2 + qs.take(i as int)), title, context, decision, consequences);
        assert((s2 + qs.take(i as int)).push(qs[i as int]) =~= s2 + qs.take(i + 1));
        i = i + 1;
    }
    assert(qs.take(qs.len() as int) =~= qs);
    let ghost s3 = s2 + qs;
    assert(s3 + os.take(0) =~= s3);
    let mut i: usize = 0;
    while i < program.operational_policies.len()
        invariant
            0 <= i <= os.len(),
            p == *program,
            os == p.operational_policies@.map_values(|o: OperationalPolicyDecl| operational_policy_text(o)),
            total < usize::MAX,
            total == s3.len() + os.len() + assurance_part(p.assurance_case_count).len(),
            record_views(records@) == numbered_all(s3 + os.take(i as int)),
        decreases os.len() - i,
    {
        let policy = &program.operational_policies[i];
        let name = policy.name.as_str();
        let title = cat2("Operational policy ", name);
        let context = owned("Organization-wide operational constraints apply at verify time.");
        let count = format_decimal(policy.rule_count);
        let decision = cat5("Program policy '", name, "' declares ", count.as_str(), " verify-time rule(s).");
        let consequences = cat3("Use `spanda verify --policy ", name, "` to enforce the declared rule set.");
        push_text(records, Ghost(s3 + os.take(i as int)), title, context, decision, consequences);
        assert((s3 + os.take(i as int)).push(os[i as int]) =~= s3 + os.take(i + 1));
        i = i + 1;
    }
    assert(os.take(os.len() as int) =~= os);
    let ghost s4 = s3 + os;
    if program.assurance_case_count > 0 {
        let title = owned("Assurance evidence cases");
        let context = owned("Safety and operational claims require traceable evidence artifacts.");
        let count = format_decimal(program.assurance_case_count);
        let decision = cat3("Maintain ", count.as_str(), " assurance_case declaration(s) with linked evidence.");
        let consequences = owned("Medical and defense compliance profiles require non-empty assurance cases.");
        push_text(records, Ghost(s4), title, context, decision, consequences);
        assert(s4.push(assurance_part(p.assurance_case_count)[0]) =~= s4 + assurance_part(p.assurance_case_count));
    } else {
        assert(s4 + assurance_part(p.assurance_case_count) =~= s4);
    }
    assert(s4 + assurance_part(p.assurance_case_count) =~= program_texts(p));
}


/// The markdown lines of one record.
pub open spec fn record_lines(r: AdrRecordView) -> Seq<Seq<char>> {
    seq![
        "## "@ + r.id + " — "@ + r.title,
        "**Status:** "@ + r.status,
        ""@,
        "### Context"@,
        r.context,
        ""@,
        "### Decision"@,
        r.decision,
        ""@,
        "### Consequences"@,
        r.consequences,
        ""@,
    ]
}

pub open spec fn records_lines(rs: Seq<AdrRecordView>) -> Seq<Seq<char>>
    decreases rs.len(),
{
    if rs.len() == 0 {
        seq![]
    } else {
        records_lines(rs.drop_last()) + record_lines(rs.last())
    }
}

/// The markdown rendering of a report: a title line, a blank line, the lines
/// of each record, joined by newlines, with trailing white space removed.
pub open spec fn adr_markdown_spec(r: AdrReportView) -> Seq<char> {
    trim_end_spec(
        join_spec(seq!["# Architecture Decision Records — "@ + r.program, ""@] + records_lines(r.records), "\n"@),
    )
}

/// `Vec::push` of a line, seen through the views of the lines.
pub fn push_line(lines: &mut Vec<String>, line: String)
    ensures
        views(final(lines)@) == views(old(lines)@).push(line@),
{
    let ghost before = lines@;
    lines.push(line);
    proof {
        lemma_views_push(before, line);
    }
}

/// Render an ADR report as markdown.
pub fn format_adr_markdown(report: &AdrReport) -> (r: String)
    ensures
        r@ == adr_markdown_spec(report@),
{
    let mut lines: Vec<String> = Vec::new();
    push_line(&mut lines, cat2("# Architecture Decision Records — ", report.program.as_str()));
    push_line(&mut lines, owned(""));
    let ghost head = seq!["# Architecture Decision Records — "@ + report.program@, ""@];
    let ghost rv = record_views(report.records@);
    assert(views(lines@) =~= head + records_lines(rv.take(0)));
    let mut i: usize = 0;
    while i < report.records.len()
        invariant
            0 <= i <= rv.len(),
            rv == record_views(report.records@),
            head == seq!["# Architecture Decision Records — "@ + report.program@, ""@],
            views(lines@) == head + records_lines(rv.take(i as int)),
        decreases rv.len() - i,
    {
        let record = &report.records[i];
        let ghost before = views(lines@);
        push_line(&mut lines, cat4("## ", record.id.as_str(), " — ", record.title.as_str()));
        push_line(&mut lines, cat2("**Status:** ", record.status.as_str()));
        push_line(&mut lines, owned(""));
        push_line(&mut lines, owned("### Context"));
        push_line(&mut lines, copy_string(&record.context));
        push_line(&mut lines, owned(""));
        push_line(&mut lines, owned("### Decision"));
        push_line(&mut lines, copy_string(&record.decision));
        push_line(&mut lines, owned(""));
        push_line(&mut lines, owned("### Consequences"));
        push_line(&mut lines, copy_string(&record.consequences));
        push_line(&mut lines, owned(""));
        proof {
            assert(rv.take(i + 1).drop_last() =~= rv.take(i as int));
            assert(rv[i as int] == record@);
            assert(views(lines@) =~= before + record_lines(record@));
        }
        i = i + 1;
    }
    assert(rv.take(rv.len() as int) =~= rv);
    let joined = join(&lines, "\n");
    owned(str_trim_end(joined.as_str()))
}


/// Every ADR report holds at least one record, and its records are numbered
/// `ADR-001`, `ADR-002`, .. in order.
pub proof fn law_adr_report_numbered(p: Program, label: Seq<char>)
    ensures
        numbered_all(adr_texts(p, label)).len() >= 1,
        forall|i: int|
            0 <= i < numbered_all(adr_texts(p, label)).len() ==> (#[trigger] numbered_all(adr_texts(p, label))[i]).id
                == adr_id((i + 1) as nat) && numbered_all(adr_texts(p, label))[i].status == "Accepted"@,
{
}


pub open spec fn deploy_count(ds: Seq<DeployDecl>) -> nat
    decreases ds.len(),
{
    if ds.len() == 0 {
        0
    } else {
        deploy_count(ds.drop_last()) + ds.last().targets@.len()
    }
}

pub open spec fn one_if(c: bool) -> nat {
    if c {
        1
    } else {
        0
    }
}

/// Records one robot calls for: its capability surface, speed cap and mission, when present.
pub open spec fn robot_record_count(r: RobotDecl) -> nat {
    one_if(r.exposes_capabilities@.len() > 0) + one_if(r.max_speed_label is Some) + one_if(r.mission is Some)
}

pub open spec fn robots_record_count(rs: Seq<RobotDecl>) -> nat
    decreases rs.len(),
{
    if rs.len() == 0 {
        0
    } else {
        robots_record_count(rs.drop_last()) + robot_record_count(rs.last())
    }
}

/// Records the declarations of a program call for.
pub open spec fn declared_record_count(p: Program) -> nat {
    deploy_count(p.deployments@) + robots_record_count(p.robots@) + p.kill_switches@.len() + p.health_policies@.len()
        + p.recovery_policies@.len() + p.operational_policies@.len() + one_if(p.assurance_case_count > 0)
}

proof fn lemma_deploy_texts_len(ds: Seq<DeployDecl>)
    ensures
        deploy_texts(ds).len() == deploy_count(ds),
    decreases ds.len(),
{
    if ds.len() > 0 {
        lemma_deploy_texts_len(ds.drop_last());
    }
}

proof fn lemma_robots_texts_len(rs: Seq<RobotDecl>)
    ensures
        robots_texts(rs).len() == robots_record_count(rs),
    decreases rs.len(),
{
    if rs.len() > 0 {
        lemma_robots_texts_len(rs.drop_last());
    }
}

/// An ADR report has one record per deployment target, per robot capability
/// surface, speed cap and mission, per kill switch, health, recovery and
/// operational policy, and one for the assurance cases; a program with none
/// of these gets exactly one record, the baseline.
pub proof fn law_adr_record_count(p: Program, label: Seq<char>)
    ensures
        program_texts(p).len() == declared_record_count(p),
        numbered_all(adr_texts(p, label)).len() == (if declared_record_count(p) == 0 {
            1
        } else {
            declared_record_count(p)
        }),
        declared_record_count(p) == 0 ==> numbered_all(adr_texts(p, label))[0].title == "Baseline architecture"@,
{
    lemma_deploy_texts_len(p.deployments@);
    lemma_robots_texts_len(p.robots@);
    lemma_program_texts_parts(p);
}


pub open spec fn not_baseline_title(t: AdrText) -> bool {
    t.title.len() > 0 && t.title[0] != 'B'
}

proof fn lemma_deploy_titles(ds: Seq<DeployDecl>)
    ensures
        forall|k: int| 0 <= k < deploy_texts(ds).len() ==> not_baseline_title(#[trigger] deploy_texts(ds)[k]),
    decreases ds.len(),
{
    reveal_strlit("Deploy ");
    if ds.len() > 0 {
        lemma_deploy_titles(ds.drop_last());
        let a = deploy_texts(ds.drop_last());
        let b = target_texts(ds.last().robot_name@, views(ds.last().targets@));
        assert forall|k: int| 0 <= k < deploy_texts(ds).len() implies not_baseline_title(#[trigger] deploy_texts(ds)[k]) by {
            if k < a.len() {
                assert(deploy_texts(ds)[k] == a[k]);
            } else {
                assert(deploy_texts(ds)[k] == b[k - a.len()]);
                assert(b[k - a.len()].title[0] == 'D');
            }
        }
    }
}

proof fn lemma_robot_titles(rs: Seq<RobotDecl>)
    ensures
        forall|k: int| 0 <= k < robots_texts(rs).len() ==> not_baseline_title(#[trigger] robots_texts(rs)[k]),
    decreases rs.len(),
{
    reveal_strlit("Capability surface for ");
    reveal_strlit("Safety speed cap for ");
    reveal_strlit("Mission ");
    reveal_strlit("Mission plan for ");
    if rs.len() > 0 {
        let r = rs.last();
        lemma_robot_titles(rs.drop_last());
        let a = robots_texts(rs.drop_last());
        let b = robot_texts(r);
        assert forall|k: int| 0 <= k < b.len() implies not_baseline_title(#[trigger] b[k]) by {
            let c = capability_part(r);
            let sp = speed_part(r);
            let m = mission_part(r);
            if k < c.len() {
                assert(b[k] == c[k]);
                assert(c[k].title[0] == 'C');
            } else if k < c.len() + sp.len() {
                assert(b[k] == sp[k - c.len()]);
                assert(sp[k - c.len()].title[0] == 'S');
            } else {
                assert(b[k] == m[k - c.len() - sp.len()]);
                assert(m[k - c.len() - sp.len()].title[0] == 'M');
            }
        }
        assert forall|k: int| 0 <= k < robots_texts(rs).len() implies not_baseline_title(#[trigger] robots_texts(rs)[k]) by {
            if k < a.len() {
                assert(robots_texts(rs)[k] == a[k]);
            } else {
                assert(robots_texts(rs)[k] == b[k - a.len()]);
            }
        }
    }
}

/// The baseline record appears exactly when the program declares nothing that calls for a record.
pub proof fn law_adr_baseline_iff_no_declarations(p: Program, label: Seq<char>)
    ensures
        (declared_record_count(p) == 0) <==> (numbered_all(adr_texts(p, label)).len() == 1 && numbered_all(
            adr_texts(p, label),
        )[0].title == "Baseline architecture"@),
{
    law_adr_record_count(p, label);
    reveal_strlit("Baseline architecture");
    reveal_strlit("Kill switch ");
    reveal_strlit("Health policy ");
    reveal_strlit("Recovery policy ");
    reveal_strlit("Operational policy ");
    reveal_strlit("Assurance evidence cases");
    if declared_record_count(p) > 0 {
        lemma_deploy_titles(p.deployments@);
        lemma_robot_titles(p.robots@);
        let t = program_texts(p);
        let d = deploy_texts(p.deployments@);
        let r = robots_texts(p.robots@);
        let ks = p.kill_switches@.map_values(|k: KillSwitchDecl| kill_switch_text(k));
        let hs = p.health_policies@.map_values(|h: HealthPolicyDecl| health_policy_text(h));
        let qs = p.recovery_policies@.map_values(|x: RecoveryPolicyDecl| recovery_policy_text(x));
        let os = p.operational_policies@.map_values(|o: OperationalPolicyDecl| operational_policy_text(o));
        let asr = assurance_part(p.assurance_case_count);
        assert(t == d + r + ks + hs + qs + os + asr);
        let first = t[0];
        if d.len() > 0 {
            assert(first == d[0]);
        } else if r.len() > 0 {
            assert(first == r[0]);
        } else if ks.len() > 0 {
            assert(first == ks[0]);
            assert(first.title[0] == 'K');
        } else if hs.len() > 0 {
            assert(first == hs[0]);
            assert(first.title[0] == 'H');
        } else if qs.len() > 0 {
            assert(first == qs[0]);
            assert(first.title[0] == 'R');
        } else if os.len() > 0 {
            assert(first == os[0]);
            assert(first.title[0] == 'O');
        } else {
            assert(first == asr[0]);
            assert(first.title[0] == 'A');
        }
        assert(not_baseline_title(first));
        assert(numbered_all(adr_texts(p, label))[0].title == first.title);
        assert("Baseline architecture"@[0] == 'B');
    }
}

} // verus!
