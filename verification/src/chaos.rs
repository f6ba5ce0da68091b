//! Chaos experiments: which failures to inject into a program, and how the
//! recovery, readiness, health and safety signals for each injected failure
//! roll up into a pass/fail report.
//!
//! The signals themselves come from the recovery simulator and the readiness
//! and health engines; the library decides which injections run, combines
//! their signals and renders the report.
use vstd::prelude::*;
use crate::ast::{Program, RobotDecl, SensorDecl};
use crate::text::{
    ascii_lower_seq, cat2, cat3, cat4, copy_list, decimal, format_decimal, has_infix, is_white_space, join, join_spec,
    lemma_views_push, owned, push_char, push_str, replace_char, str_contains, str_eq, str_trim, str_trim_end,
    to_ascii_lower, trim_end_spec, trim_spec, trim_start_spec, views,
};

verus! {

/// Output format for chaos reports.
#[derive(Debug, Clone, Copy, PartialEq, Eq, Default, Structural)]
pub enum ChaosFormat {
    #[default]
    Text,
    Json,
}

/// Options for chaos experiments.
#[derive(Debug, Clone, Default)]
pub struct ChaosExperimentOptions {
    pub injections: Vec<String>,
}

/// Per-injection verification outcome.
#[derive(Debug, Clone, PartialEq, Eq)]
pub struct ChaosInjectionResult {
    pub injection: String,
    pub recovery_passed: bool,
    pub health_passed: bool,
    pub readiness_passed: bool,
    pub safety_passed: bool,
    pub passed: bool,
    pub details: Vec<String>,
}

/// Chaos experiment rollup for a program.
#[derive(Debug, Clone, PartialEq, Eq)]
pub struct ChaosReport {
    pub program: String,
    pub injections: Vec<ChaosInjectionResult>,
    pub passed: bool,
}

/// What the recovery simulator and the readiness and health engines report
/// for one injected failure kind.
///
/// The three notes are the parenthesised figures each engine contributes to
/// its detail line (such as `(plans=2, success_rate=100%)`).
#[derive(Debug, Clone, PartialEq, Eq, Default)]
pub struct InjectionSignals {
    /// The recovery simulation passed.
    pub recovery_passed: bool,
    /// The recovery simulation left the robot ready for its mission.
    pub recovery_ready: bool,
    /// The readiness evaluation found the mission ready.
    pub mission_ready: bool,
    /// The readiness evaluation raised a critical or high issue.
    pub readiness_has_errors: bool,
    /// The runtime health came out critical, unsafe or failed.
    pub health_failed: bool,
    /// Recovery results whose status is unsafe.
    pub unsafe_results: usize,
    /// Safe actions that were approved.
    pub approved_actions: usize,
    /// Safe actions proposed.
    pub total_actions: usize,
    pub recovery_note: String,
    pub readiness_note: String,
    pub health_note: String,
}

#[verifier::ext_equal]
pub struct SignalsView {
    pub recovery_passed: bool,
    pub recovery_ready: bool,
    pub mission_ready: bool,
    pub readiness_has_errors: bool,
    pub health_failed: bool,
    pub unsafe_results: usize,
    pub approved_actions: usize,
    pub total_actions: usize,
    pub recovery_note: Seq<char>,
    pub readiness_note: Seq<char>,
    pub health_note: Seq<char>,
}

impl View for InjectionSignals {
    type V = SignalsView;

    open spec fn view(&self) -> SignalsView {
        SignalsView {
            recovery_passed: self.recovery_passed,
            recovery_ready: self.recovery_ready,
            mission_ready: self.mission_ready,
            readiness_has_errors: self.readiness_has_errors,
            health_failed: self.health_failed,
            unsafe_results: self.unsafe_results,
            approved_actions: self.approved_actions,
            total_actions: self.total_actions,
            recovery_note: self.recovery_note@,
            readiness_note: self.readiness_note@,
            health_note: self.health_note@,
        }
    }
}

/// Mathematical value of a [`ChaosInjectionResult`].
#[verifier::ext_equal]
pub struct InjectionResultView {
    pub injection: Seq<char>,
    pub recovery_passed: bool,
    pub health_passed: bool,
    pub readiness_passed: bool,
    pub safety_passed: bool,
    pub passed: bool,
    pub details: Seq<Seq<char>>,
}

impl View for ChaosInjectionResult {
    type V = InjectionResultView;

    open spec fn view(&self) -> InjectionResultView {
        InjectionResultView {
            injection: self.injection@,
            recovery_passed: self.recovery_passed,
            health_passed: self.health_passed,
            readiness_passed: self.readiness_passed,
            safety_passed: self.safety_passed,
            passed: self.passed,
            details: views(self.details@),
        }
    }
}

pub open spec fn result_views(v: Seq<ChaosInjectionResult>) -> Seq<InjectionResultView> {
    v.map_values(|r: ChaosInjectionResult| r@)
}

/// Mathematical value of a [`ChaosReport`].
#[verifier::ext_equal]
pub struct ChaosReportView {
    pub program: Seq<char>,
    pub injections: Seq<InjectionResultView>,
    pub passed: bool,
}

impl View for ChaosReport {
    type V = ChaosReportView;

    open spec fn view(&self) -> ChaosReportView {
        ChaosReportView { program: self.program@, injections: result_views(self.injections@), passed: self.passed }
    }
}

/// A label trimmed, lower-cased, with `_` read as `-`.
pub open spec fn injection_key(raw: Seq<char>) -> Seq<char> {
    replace_char(ascii_lower_seq(trim_spec(raw)), '_', '-')
}

/// The failure kind a normalized label stands for.
pub open spec fn canonical_injection(n: Seq<char>) -> Option<Seq<char>> {
    if n == "gps"@ || n == "gps-failure"@ {
        Some("gps"@)
    } else if n == "camera"@ || n == "camera-failure"@ {
        Some("camera"@)
    } else if n == "lidar"@ || n == "lidar-failure"@ {
        Some("lidar"@)
    } else if n == "connectivity"@ || n == "connectivity-failure"@ || n == "network"@ || n == "network-failure"@ {
        Some("connectivity"@)
    } else if n == "provider"@ || n == "provider-failure"@ {
        Some("provider"@)
    } else if n == "package"@ || n == "package-failure"@ {
        Some("package"@)
    } else if n == "battery"@ || n == "battery-failure"@ {
        Some("battery"@)
    } else {
        None
    }
}

pub open spec fn normalize_spec(raw: Seq<char>) -> Option<Seq<char>> {
    canonical_injection(injection_key(raw))
}

/// `s` with every `_` replaced by `-`.
fn underscores_to_hyphens(s: &str) -> (r: String)
    ensures
        r@ == replace_char(s@, '_', '-'),
{
    let n = s.unicode_len();
    let mut out = String::new();
    let mut i: usize = 0;
    while i < n
        invariant
            i <= n,
            n == s@.len(),
            out@ == replace_char(s@.take(i as int), '_', '-'),
        decreases n - i,
    {
        let c = s.get_char(i);
        if c == '_' {
            push_char(&mut out, '-');
        } else {
            push_char(&mut out, c);
        }
        assert(replace_char(s@.take(i + 1), '_', '-') =~= replace_char(s@.take(i as int), '_', '-').push(
            if c == '_' { '-' } else { c },
        ));
        i = i + 1;
    }
    assert(s@.take(n as int) =~= s@);
    out
}

/// Normalize user-facing injection labels to internal failure kinds.
pub fn normalize_injection(raw: &str) -> (r: Option<&'static str>)
    ensures
        match r {
            Some(k) => normalize_spec(raw@) == Some(k@),
            None => normalize_spec(raw@) is None,
        },
{
    let lower = to_ascii_lower(str_trim(raw));
    let key = underscores_to_hyphens(lower.as_str());
    let n = key.as_str();
    assert(n@ == injection_key(raw@));
    if str_eq(n, "gps") || str_eq(n, "gps-failure") {
        Some("gps")
    } else if str_eq(n, "camera") || str_eq(n, "camera-failure") {
        Some("camera")
    } else if str_eq(n, "lidar") || str_eq(n, "lidar-failure") {
        Some("lidar")
    } else if str_eq(n, "connectivity") || str_eq(n, "connectivity-failure") || str_eq(n, "network") || str_eq(
        n,
        "network-failure",
    ) {
        Some("connectivity")
    } else if str_eq(n, "provider") || str_eq(n, "provider-failure") {
        Some("provider")
    } else if str_eq(n, "package") || str_eq(n, "package-failure") {
        Some("package")
    } else if str_eq(n, "battery") || str_eq(n, "battery-failure") {
        Some("battery")
    } else {
        None
    }
}

/// Some robot declares a sensor whose lower-cased type contains `needle`.
pub open spec fn program_has_sensor_spec(p: Program, needle: Seq<char>) -> bool {
    exists|i: int, j: int|
        0 <= i < p.robots@.len() && 0 <= j < p.robots@[i].sensors@.len() && has_infix(
            ascii_lower_seq(#[trigger] p.robots@[i].sensors@[j].sensor_type@),
            needle,
        )
}

/// The program declares a connectivity policy or requirement.
pub open spec fn program_has_connectivity_spec(p: Program) -> bool {
    p.connectivity_policy_count > 0 || p.requires_connectivity || exists|i: int|
        0 <= i < p.robots@.len() && #[trigger] p.robots@[i].requires_connectivity
}

/// The serialized program, lower-cased, contains `needle`.
pub open spec fn mentions_spec(json: Seq<char>, needle: Seq<char>) -> bool {
    has_infix(ascii_lower_seq(json), needle)
}

pub open spec fn label_if(c: bool, label: Seq<char>) -> Seq<Seq<char>> {
    if c {
        seq![label]
    } else {
        seq![]
    }
}

/// The injections a program suggests, in recommended run order.
pub open spec fn suggested_injections(p: Program, json: Seq<char>) -> Seq<Seq<char>> {
    label_if(program_has_sensor_spec(p, "gps"@) || mentions_spec(json, "gps"@), "gps-failure"@) + label_if(
        program_has_sensor_spec(p, "camera"@) || mentions_spec(json, "camera"@),
        "camera-failure"@,
    ) + label_if(program_has_sensor_spec(p, "lidar"@) || mentions_spec(json, "lidar"@), "lidar-failure"@)
        + label_if(program_has_connectivity_spec(p) || mentions_spec(json, "connect"@), "connectivity-failure"@)
        + label_if(mentions_spec(json, "provider"@), "provider-failure"@) + label_if(
        mentions_spec(json, "package"@),
        "package-failure"@,
    ) + label_if(mentions_spec(json, "battery"@), "battery-failure"@)
}

/// The suggested injections, or the GPS failure alone when nothing is suggested.
pub open spec fn default_injections_spec(p: Program, json: Seq<char>) -> Seq<Seq<char>> {
    if suggested_injections(p, json).len() == 0 {
        seq!["gps-failure"@]
    } else {
        suggested_injections(p, json)
    }
}

fn program_has_sensor(program: &Program, needle: &str) -> (r: bool)
    ensures
        r == program_has_sensor_spec(*program, needle@),
{
    let mut i: usize = 0;
    while i < program.robots.len()
        invariant
            0 <= i <= program.robots@.len(),
            forall|a: int, b: int|
                0 <= a < i && 0 <= b < program.robots@[a].sensors@.len() ==> !has_infix(
                    ascii_lower_seq(#[trigger] program.robots@[a].sensors@[b].sensor_type@),
                    needle@,
                ),
        decreases program.robots@.len() - i,
    {
        let robot: &RobotDecl = &program.robots[i];
        let mut j: usize = 0;
        while j < robot.sensors.len()
            invariant
                0 <= i < program.robots@.len(),
                *robot == program.robots@[i as int],
                0 <= j <= robot.sensors@.len(),
                forall|b: int|
                    0 <= b < j ==> !has_infix(
                        ascii_lower_seq(#[trigger] program.robots@[i as int].sensors@[b].sensor_type@),
                        needle@,
                    ),
            decreases robot.sensors@.len() - j,
        {
            let sensor: &SensorDecl = &robot.sensors[j];
            let lower = to_ascii_lower(sensor.sensor_type.as_str());
            if str_contains(lower.as_str(), needle) {
                assert(program.robots@[i as int].sensors@[j as int].sensor_type@ == sensor.sensor_type@);
                return true;
            }
            j = j + 1;
        }
        i = i + 1;
    }
    false
}

fn program_has_connectivity(program: &Program) -> (r: bool)
    ensures
        r == program_has_connectivity_spec(*program),
{
    if program.connectivity_policy_count > 0 || program.requires_connectivity {
        return true;
    }
    let mut i: usize = 0;
    while i < program.robots.len()
        invariant
            0 <= i <= program.robots@.len(),
            forall|a: int| 0 <= a < i ==> !(#[trigger] program.robots@[a].requires_connectivity),
        decreases program.robots@.len() - i,
    {
        if program.robots[i].requires_connectivity {
            return true;
        }
        i = i + 1;
    }
    false
}

fn push_label(kinds: &mut Vec<String>, label: &str)
    ensures
        views(final(kinds)@) == views(old(kinds)@).push(label@),
{
    let ghost before = kinds@;
    let s = owned(label);
    kinds.push(s);
    proof {
        lemma_views_push(before, s);
    }
}

fn push_label_if(kinds: &mut Vec<String>, c: bool, label: &str)
    ensures
        views(final(kinds)@) == views(old(kinds)@) + label_if(c, label@),
{
    if c {
        push_label(kinds, label);
        assert(views(old(kinds)@).push(label@) =~= views(old(kinds)@) + label_if(c, label@));
    } else {
        assert(views(old(kinds)@) =~= views(old(kinds)@) + label_if(c, label@));
    }
}

/// Infer default chaos injections from program structure.
///
/// `program_json` is the program in its JSON serialization; a label is
/// suggested when the lower-cased serialization mentions its subject.
pub fn default_injections(program: &Program, program_json: &str) -> (r: Vec<String>)
    ensures
        views(r@) == default_injections_spec(*program, program_json@),
{
    let ghost p = *program;
    let ghost json = program_json@;
    let lower = to_ascii_lower(program_json);
    let text = lower.as_str();
    let gps = program_has_sensor(program, "gps") || str_contains(text, "gps");
    assert(gps == (program_has_sensor_spec(p, "gps"@) || mentions_spec(json, "gps"@)));
    let camera = program_has_sensor(program, "camera") || str_contains(text, "camera");
    assert(camera == (program_has_sensor_spec(p, "camera"@) || mentions_spec(json, "camera"@)));
    let lidar = program_has_sensor(program, "lidar") || str_contains(text, "lidar");
    assert(lidar == (program_has_sensor_spec(p, "lidar"@) || mentions_spec(json, "lidar"@)));
    let connectivity = program_has_connectivity(program) || str_contains(text, "connect");
    assert(connectivity == (program_has_connectivity_spec(p) || mentions_spec(json, "connect"@)));
    let provider = str_contains(text, "provider");
    assert(provider == mentions_spec(json, "provider"@));
    let package = str_contains(text, "package");
    assert(package == mentions_spec(json, "package"@));
    let battery = str_contains(text, "battery");
    assert(battery == mentions_spec(json, "battery"@));
    let mut kinds: Vec<String> = Vec::new();
    assert(views(kinds@) =~= seq![]);
    push_label_if(&mut kinds, gps, "gps-failure");
    assert(views(kinds@) =~= label_if(gps, "gps-failure"@));
    push_label_if(&mut kinds, camera, "camera-failure");
    push_label_if(&mut kinds, lidar, "lidar-failure");
    push_label_if(&mut kinds, connectivity, "connectivity-failure");
    push_label_if(&mut kinds, provider, "provider-failure");
    push_label_if(&mut kinds, package, "package-failure");
    push_label_if(&mut kinds, battery, "battery-failure");
    proof {
        assert(views(kinds@) == label_if(gps, "gps-failure"@) + label_if(camera, "camera-failure"@) + label_if(
            lidar,
            "lidar-failure"@,
        ) + label_if(connectivity, "connectivity-failure"@) + label_if(provider, "provider-failure"@) + label_if(
            package,
            "package-failure"@,
        ) + label_if(battery, "battery-failure"@));
        assert(views(kinds@) == suggested_injections(p, json));
    }
    if kinds.len() == 0 {
        push_label(&mut kinds, "gps-failure");
        assert(views(kinds@) =~= seq!["gps-failure"@]);
    }
    kinds
}

/// The injections an experiment runs: the explicit list, or the defaults when it is empty.
pub open spec fn chaos_labels_spec(p: Program, json: Seq<char>, requested: Seq<Seq<char>>) -> Seq<Seq<char>> {
    if requested.len() == 0 {
        default_injections_spec(p, json)
    } else {
        requested
    }
}

/// The injection labels a chaos experiment runs, in order.
pub fn chaos_injection_labels(program: &Program, program_json: &str, options: &ChaosExperimentOptions) -> (r: Vec<
    String,
>)
    ensures
        views(r@) == chaos_labels_spec(*program, program_json@, views(options.injections@)),
{
    if options.injections.len() == 0 {
        default_injections(program, program_json)
    } else {
        copy_list(&options.injections)
    }
}

/// The runtime faults that simulate a failure kind.
pub open spec fn runtime_faults_spec(kind: Seq<char>) -> Seq<Seq<char>> {
    if kind == "gps"@ {
        seq!["gps.failed"@, "gps"@]
    } else if kind == "camera"@ {
        seq!["camera.failed"@, "camera"@]
    } else if kind == "lidar"@ {
        seq!["lidar.failed"@, "lidar"@]
    } else if kind == "connectivity"@ {
        seq!["network.disconnected"@, "connectivity"@]
    } else if kind == "provider"@ {
        seq!["provider.failed"@, "provider"@]
    } else if kind == "package"@ {
        seq!["package.failed"@, "package"@]
    } else if kind == "battery"@ {
        seq!["battery.low"@, "battery"@]
    } else {
        seq![kind + ".failed"@]
    }
}

fn pair(a: &str, b: &str) -> (r: Vec<String>)
    ensures
        views(r@) == seq![a@, b@],
{
    let mut v: Vec<String> = Vec::new();
    push_label(&mut v, a);
    push_label(&mut v, b);
    assert(views(v@) =~= seq![a@, b@]);
    v
}

/// The runtime faults the health engine is given for a failure kind.
pub fn runtime_faults(kind: &str) -> (r: Vec<String>)
    ensures
        views(r@) == runtime_faults_spec(kind@),
{
    if str_eq(kind, "gps") {
        pair("gps.failed", "gps")
    } else if str_eq(kind, "camera") {
        pair("camera.failed", "camera")
    } else if str_eq(kind, "lidar") {
        pair("lidar.failed", "lidar")
    } else if str_eq(kind, "connectivity") {
        pair("network.disconnected", "connectivity")
    } else if str_eq(kind, "provider") {
        pair("provider.failed", "provider")
    } else if str_eq(kind, "package") {
        pair("package.failed", "package")
    } else if str_eq(kind, "battery") {
        pair("battery.low", "battery")
    } else {
        let mut v: Vec<String> = Vec::new();
        let s = cat2(kind, ".failed");
        push_label(&mut v, s.as_str());
        assert(views(v@) =~= seq![kind@ + ".failed"@]);
        v
    }
}

pub open spec fn pass_label_spec(passed: bool) -> Seq<char> {
    if passed {
        "pass"@
    } else {
        "fail"@
    }
}

fn pass_label(passed: bool) -> (r: &'static str)
    ensures
        r@ == pass_label_spec(passed),
{
    if passed {
        "pass"
    } else {
        "fail"
    }
}

pub open spec fn readiness_passed_spec(s: SignalsView) -> bool {
    s.mission_ready || s.recovery_ready || !s.readiness_has_errors
}

pub open spec fn safety_passed_spec(s: SignalsView) -> bool {
    s.unsafe_results == 0 && s.approved_actions == s.total_actions
}

/// The four detail lines of an evaluated injection.
pub open spec fn signal_details(s: SignalsView) -> Seq<Seq<char>> {
    seq![
        "recovery: "@ + pass_label_spec(s.recovery_passed) + " "@ + s.recovery_note,
        "readiness: "@ + pass_label_spec(readiness_passed_spec(s)) + " "@ + s.readiness_note,
        "health: "@ + pass_label_spec(!s.health_failed) + " "@ + s.health_note,
        "safety: "@ + pass_label_spec(safety_passed_spec(s)) + " (unsafe_results="@ + decimal(s.unsafe_results as nat)
            + ", approved_actions="@ + decimal(s.approved_actions as nat) + "/"@ + decimal(s.total_actions as nat)
            + ")"@,
    ]
}

/// The outcome of an injection whose kind is known, from its engine signals.
pub open spec fn evaluated_spec(label: Seq<char>, s: SignalsView) -> InjectionResultView {
    let readiness = readiness_passed_spec(s);
    let health = !s.health_failed;
    let safety = safety_passed_spec(s);
    InjectionResultView {
        injection: label,
        recovery_passed: s.recovery_passed,
        health_passed: health,
        readiness_passed: readiness,
        safety_passed: safety,
        passed: s.recovery_passed && readiness && health && safety,
        details: signal_details(s),
    }
}

/// The outcome of an injection whose label names no failure kind.
pub open spec fn unknown_spec(label: Seq<char>) -> InjectionResultView {
    InjectionResultView {
        injection: label,
        recovery_passed: false,
        health_passed: false,
        readiness_passed: false,
        safety_passed: false,
        passed: false,
        details: seq!["unknown injection kind: "@ + label],
    }
}

/// Combine the engine signals for one injected failure into its outcome.
///
/// Readiness passes when the mission is ready, recovery leaves it ready, or
/// no critical or high issue remains; health passes unless the overall state
/// is critical, unsafe or failed; safety passes when no recovery result is
/// unsafe and every proposed safe action was approved.
pub fn evaluate_injection(label: &str, signals: &InjectionSignals) -> (r: ChaosInjectionResult)
    ensures
        r@ == evaluated_spec(label@, signals@),
        r.recovery_passed == signals.recovery_passed,
        r.readiness_passed == (signals.mission_ready || signals.recovery_ready || !signals.readiness_has_errors),
        r.health_passed == !signals.health_failed,
        r.safety_passed == (signals.unsafe_results == 0 && signals.approved_actions == signals.total_actions),
        r.passed == (r.recovery_passed && r.readiness_passed && r.health_passed && r.safety_passed),
{
    let recovery_passed = signals.recovery_passed;
    let readiness_passed = signals.mission_ready || signals.recovery_ready || !signals.readiness_has_errors;
    let health_passed = !signals.health_failed;
    let safety_passed = signals.unsafe_results == 0 && signals.approved_actions == signals.total_actions;
    let passed = recovery_passed && readiness_passed && health_passed && safety_passed;
    let mut details: Vec<String> = Vec::new();
    let d0 = cat4("recovery: ", pass_label(recovery_passed), " ", signals.recovery_note.as_str());
    push_label(&mut details, d0.as_str());
    let d1 = cat4("readiness: ", pass_label(readiness_passed), " ", signals.readiness_note.as_str());
    push_label(&mut details, d1.as_str());
    let d2 = cat4("health: ", pass_label(health_passed), " ", signals.health_note.as_str());
    push_label(&mut details, d2.as_str());
    let unsafe_count = format_decimal(signals.unsafe_results);
    let approved = format_decimal(signals.approved_actions);
    let total = format_decimal(signals.total_actions);
    let mut d3 = cat3("safety: ", pass_label(safety_passed), " (unsafe_results=");
    push_str(&mut d3, unsafe_count.as_str());
    push_str(&mut d3, ", approved_actions=");
    push_str(&mut d3, approved.as_str());
    push_str(&mut d3, "/");
    push_str(&mut d3, total.as_str());
    push_str(&mut d3, ")");
    push_label(&mut details, d3.as_str());
    assert(views(details@) =~= signal_details(signals@));
    ChaosInjectionResult {
        injection: owned(label),
        recovery_passed,
        health_passed,
        readiness_passed,
        safety_passed,
        passed,
        details,
    }
}

fn unknown_injection(label: &str) -> (r: ChaosInjectionResult)
    ensures
        r@ == unknown_spec(label@),
{
    let mut details: Vec<String> = Vec::new();
    let d = cat2("unknown injection kind: ", label);
    push_label(&mut details, d.as_str());
    assert(views(details@) =~= seq!["unknown injection kind: "@ + label@]);
    ChaosInjectionResult {
        injection: owned(label),
        recovery_passed: false,
        health_passed: false,
        readiness_passed: false,
        safety_passed: false,
        passed: false,
        details,
    }
}

pub open spec fn opt_signals_view(o: Option<InjectionSignals>) -> Option<SignalsView> {
    match o {
        Some(s) => Some(s@),
        None => None,
    }
}

/// The outcome of the `i`-th injection.
pub open spec fn outcome_spec(label: Seq<char>, signals: Option<SignalsView>) -> InjectionResultView {
    match normalize_spec(label) {
        Some(_) => evaluated_spec(label, signals->0),
        None => unknown_spec(label),
    }
}

pub open spec fn outcomes_spec(labels: Seq<Seq<char>>, signals: Seq<Option<SignalsView>>) -> Seq<InjectionResultView> {
    Seq::new(labels.len(), |i: int| outcome_spec(labels[i], signals[i]))
}

/// A report passes when it ran at least one injection and every injection passed.
pub open spec fn all_passed(rs: Seq<InjectionResultView>) -> bool {
    rs.len() > 0 && forall|i: int| 0 <= i < rs.len() ==> #[trigger] rs[i].passed
}

/// Roll the outcomes of the injections `labels` up into a report.
///
/// `signals[i]` holds what the engines reported for the failure kind of
/// `labels[i]`; it is read only when the label names a known kind, and an
/// unknown label gets an outcome that fails every check.
pub fn run_chaos_experiment(source_label: &str, labels: &Vec<String>, signals: &Vec<Option<InjectionSignals>>) -> (r:
    ChaosReport)
    requires
        signals@.len() == labels@.len(),
        forall|i: int|
            0 <= i < labels@.len() && (#[trigger] normalize_spec(labels@[i]@)) is Some ==> signals@[i] is Some,
    ensures
        r@ == (ChaosReportView {
            program: source_label@,
            injections: outcomes_spec(views(labels@), signals@.map_values(|o: Option<InjectionSignals>| opt_signals_view(o))),
            passed: all_passed(outcomes_spec(views(labels@), signals@.map_values(|o: Option<InjectionSignals>| opt_signals_view(o)))),
        }),
{
    let ghost lv = views(labels@);
    let ghost sv = signals@.map_values(|o: Option<InjectionSignals>| opt_signals_view(o));
    let mut results: Vec<ChaosInjectionResult> = Vec::new();
    let mut i: usize = 0;
    while i < labels.len()
        invariant
            0 <= i <= labels@.len(),
            signals@.len() == labels@.len(),
            lv == views(labels@),
            sv == signals@.map_values(|o: Option<InjectionSignals>| opt_signals_view(o)),
            forall|k: int|
                0 <= k < labels@.len() && (#[trigger] normalize_spec(labels@[k]@)) is Some ==> signals@[k] is Some,
            result_views(results@) == outcomes_spec(lv, sv).take(i as int),
        decreases labels@.len() - i,
    {
        let label = labels[i].as_str();
        let outcome = match normalize_injection(label) {
            Some(_) => {
                assert(normalize_spec(labels@[i as int]@) is Some);
                match &signals[i] {
                    Some(s) => evaluate_injection(label, s),
                    None => unknown_injection(label),
                }
            },
            None => unknown_injection(label),
        };
        let ghost before = results@;
        results.push(outcome);
        assert(result_views(results@) =~= outcomes_spec(lv, sv).take(i + 1)) by {
            assert(result_views(results@) =~= result_views(before).push(outcome@));
            assert(outcomes_spec(lv, sv)[i as int] == outcome@);
        }
        i = i + 1;
    }
    assert(outcomes_spec(lv, sv).take(labels@.len() as int) =~= outcomes_spec(lv, sv));
    let mut passed = results.len() > 0;
    let mut j: usize = 0;
    while j < results.len()
        invariant
            0 <= j <= results@.len(),
            passed == (results@.len() > 0 && forall|k: int| 0 <= k < j ==> #[trigger] results@[k].passed),
        decreases results@.len() - j,
    {
        passed = passed && results[j].passed;
        j = j + 1;
    }
    proof {
        let rv = result_views(results@);
        assert(rv == outcomes_spec(lv, sv));
        assert(forall|k: int| 0 <= k < rv.len() ==> rv[k].passed == #[trigger] results@[k].passed);
        if passed {
            assert forall|k: int| 0 <= k < rv.len() implies #[trigger] rv[k].passed by {
                assert(results@[k].passed);
            }
        }
        if all_passed(rv) {
            assert forall|k: int| 0 <= k < results@.len() implies #[trigger] results@[k].passed by {
                assert(rv[k].passed);
            }
        }
        assert(passed == all_passed(rv));
    }
    ChaosReport { program: owned(source_label), injections: results, passed }
}

/// The text lines of one injection outcome.
pub open spec fn result_lines(r: InjectionResultView) -> Seq<Seq<char>> {
    seq![
        "Injection: "@ + r.injection + " — "@ + (if r.passed { "PASS"@ } else { "FAIL"@ }),
        "  recovery="@ + pass_label_spec(r.recovery_passed) + " health="@ + pass_label_spec(r.health_passed)
            + " readiness="@ + pass_label_spec(r.readiness_passed) + " safety="@ + pass_label_spec(r.safety_passed),
    ] + r.details.map_values(|d: Seq<char>| "  - "@ + d) + seq![""@]
}

pub open spec fn results_lines(rs: Seq<InjectionResultView>) -> Seq<Seq<char>>
    decreases rs.len(),
{
    if rs.len() == 0 {
        seq![]
    } else {
        results_lines(rs.drop_last()) + result_lines(rs.last())
    }
}

/// The text rendering of a chaos report.
pub open spec fn chaos_text_spec(r: ChaosReportView) -> Seq<char> {
    trim_end_spec(
        join_spec(
            seq![
                "Chaos experiment: "@ + r.program,
                "Result: "@ + (if r.passed { "PASS"@ } else { "FAIL"@ }),
                ""@,
            ] + results_lines(r.injections),
            "\n"@,
        ),
    )
}

fn push_line(lines: &mut Vec<String>, line: String)
    ensures
        views(final(lines)@) == views(old(lines)@).push(line@),
{
    let ghost before = lines@;
    lines.push(line);
    proof {
        lemma_views_push(before, line);
    }
}

fn verdict(passed: bool) -> (r: &'static str)
    ensures
        r@ == (if passed { "PASS"@ } else { "FAIL"@ }),
{
    if passed {
        "PASS"
    } else {
        "FAIL"
    }
}

/// Render a chaos report as human-readable text.
pub fn format_chaos_text(report: &ChaosReport) -> (r: String)
    ensures
        r@ == chaos_text_spec(report@),
{
    let mut lines: Vec<String> = Vec::new();
    push_line(&mut lines, cat2("Chaos experiment: ", report.program.as_str()));
    push_line(&mut lines, cat2("Result: ", verdict(report.passed)));
    push_line(&mut lines, owned(""));
    let ghost head = seq![
        "Chaos experiment: "@ + report.program@,
        "Result: "@ + (if report.passed { "PASS"@ } else { "FAIL"@ }),
        ""@,
    ];
    let ghost rv = result_views(report.injections@);
    assert(views(lines@) =~= head + results_lines(rv.take(0)));
    let mut i: usize = 0;
    while i < report.injections.len()
        invariant
            0 <= i <= rv.len(),
            rv == result_views(report.injections@),
            head == seq![
                "Chaos experiment: "@ + report.program@,
                "Result: "@ + (if report.passed { "PASS"@ } else { "FAIL"@ }),
                ""@,
            ],
            views(lines@) == head + results_lines(rv.take(i as int)),
        decreases rv.len() - i,
    {
        let result = &report.injections[i];
        let ghost before = views(lines@);
        push_line(&mut lines, cat4("Injection: ", result.injection.as_str(), " — ", verdict(result.passed)));
        let mut flags = cat4("  recovery=", pass_label(result.recovery_passed), " health=", pass_label(result.health_passed));
        push_str(&mut flags, " readiness=");
        push_str(&mut flags, pass_label(result.readiness_passed));
        push_str(&mut flags, " safety=");
        push_str(&mut flags, pass_label(result.safety_passed));
        push_line(&mut lines, flags);
        let ghost mid = views(lines@);
        let ghost dv = views(result.details@);
        let mut j: usize = 0;
        while j < result.details.len()
            invariant
                0 <= j <= dv.len(),
                dv == views(result.details@),
                views(lines@) == mid + dv.take(j as int).map_values(|d: Seq<char>| "  - "@ + d),
            decreases dv.len() - j,
        {
            push_line(&mut lines, cat2("  - ", result.details[j].as_str()));
            assert(dv.take(j + 1).map_values(|d: Seq<char>| "  - "@ + d) =~= dv.take(j as int).map_values(
                |d: Seq<char>| "  - "@ + d,
            ).push("  - "@ + dv[j as int]));
            j = j + 1;
        }
        assert(dv.take(j as int) =~= dv);
        push_line(&mut lines, owned(""));
        proof {
            assert(rv.take(i + 1).drop_last() =~= rv.take(i as int));
            assert(rv[i as int] == result@);
            assert(views(lines@) =~= before + result_lines(result@));
        }
        i = i + 1;
    }
    assert(rv.take(rv.len() as int) =~= rv);
    let joined = join(&lines, "\n");
    owned(str_trim_end(joined.as_str()))
}


pub open spec fn lower_word(s: Seq<char>) -> bool {
    s.len() > 0 && forall|i: int| 0 <= i < s.len() ==> 'a' <= #[trigger] s[i] <= 'z'
}

proof fn lemma_lower_word_key(s: Seq<char>)
    requires
        lower_word(s),
    ensures
        injection_key(s) == s,
{
    assert(s[0] == s[0]);
    assert(trim_start_spec(s) == s);
    assert(s[s.len() - 1] == s.last());
    assert(trim_end_spec(s) == s);
    assert(ascii_lower_seq(s) =~= s);
    assert(replace_char(s, '_', '-') =~= s);
}

/// Each failure kind a label normalizes to normalizes to itself.
pub proof fn law_failure_kinds_are_canonical(raw: Seq<char>)
    ensures
        normalize_spec(raw) matches Some(k) ==> normalize_spec(k) == Some(k),
{
    reveal_strlit("gps");
    reveal_strlit("gps-failure");
    reveal_strlit("camera");
    reveal_strlit("camera-failure");
    reveal_strlit("lidar");
    reveal_strlit("lidar-failure");
    reveal_strlit("connectivity");
    reveal_strlit("connectivity-failure");
    reveal_strlit("network");
    reveal_strlit("network-failure");
    reveal_strlit("provider");
    reveal_strlit("provider-failure");
    reveal_strlit("package");
    reveal_strlit("package-failure");
    reveal_strlit("battery");
    reveal_strlit("battery-failure");
    if let Some(k) = normalize_spec(raw) {
        assert(lower_word(k));
        lemma_lower_word_key(k);
        assert(k.len() != "gps-failure"@.len() || k[3] != '-');
        assert(k.len() != "camera-failure"@.len() || k[6] != '-');
        assert(k.len() != "lidar-failure"@.len() || k[5] != '-');
        assert(k.len() != "connectivity-failure"@.len() || k[12] != '-');
        assert(k.len() != "network-failure"@.len() || k[7] != '-');
        assert(k.len() != "provider-failure"@.len() || k[8] != '-');
        assert(k.len() != "package-failure"@.len() || k[7] != '-');
        assert(k.len() != "battery-failure"@.len() || k[7] != '-');
    }
}


/// Position of a default injection label in the recommended run order.
pub open spec fn label_rank(l: Seq<char>) -> int {
    if l == "gps-failure"@ {
        0
    } else if l == "camera-failure"@ {
        1
    } else if l == "lidar-failure"@ {
        2
    } else if l == "connectivity-failure"@ {
        3
    } else if l == "provider-failure"@ {
        4
    } else if l == "package-failure"@ {
        5
    } else if l == "battery-failure"@ {
        6
    } else {
        7
    }
}

/// Labels strictly in recommended run order, each below `bound`.
pub open spec fn in_run_order(s: Seq<Seq<char>>, bound: int) -> bool {
    &&& forall|i: int| 0 <= i < s.len() ==> 0 <= label_rank(#[trigger] s[i]) < bound
    &&& forall|i: int, j: int| 0 <= i < j < s.len() ==> label_rank(#[trigger] s[i]) < label_rank(#[trigger] s[j])
}

proof fn lemma_run_order_extend(s: Seq<Seq<char>>, bound: int, c: bool, l: Seq<char>)
    requires
        in_run_order(s, bound),
        label_rank(l) == bound,
    ensures
        in_run_order(s + label_if(c, l), bound + 1),
{
    let t = s + label_if(c, l);
    assert forall|i: int| 0 <= i < t.len() implies 0 <= label_rank(#[trigger] t[i]) < bound + 1 by {
        if i < s.len() {
            assert(t[i] == s[i]);
        }
    }
    assert forall|i: int, j: int| 0 <= i < j < t.len() implies label_rank(#[trigger] t[i]) < label_rank(
        #[trigger] t[j],
    ) by {
        if j < s.len() {
            assert(t[i] == s[i] && t[j] == s[j]);
        } else {
            assert(t[i] == s[i]);
        }
    }
}

/// The default injections of a program are never empty, follow the
/// recommended run order (GPS, camera, lidar, connectivity, provider,
/// package, battery) and name no label twice; an experiment without explicit
/// injections runs them, and a report passes exactly when it ran at least
/// one injection and every one passed.
pub proof fn law_default_injections_ordered(p: Program, json: Seq<char>, rs: Seq<InjectionResultView>)
    ensures
        default_injections_spec(p, json).len() >= 1,
        in_run_order(default_injections_spec(p, json), 7),
        default_injections_spec(p, json).no_duplicates(),
        chaos_labels_spec(p, json, seq![]) == default_injections_spec(p, json),
        all_passed(rs) <==> (rs.len() > 0 && forall|i: int| 0 <= i < rs.len() ==> #[trigger] rs[i].passed),
{
    reveal_strlit("gps-failure");
    reveal_strlit("camera-failure");
    reveal_strlit("lidar-failure");
    reveal_strlit("connectivity-failure");
    reveal_strlit("provider-failure");
    reveal_strlit("package-failure");
    reveal_strlit("battery-failure");
    assert("camera-failure"@ != "gps-failure"@) by { assert("camera-failure"@[0] != "gps-failure"@[0]); }
    assert("lidar-failure"@ != "gps-failure"@) by { assert("lidar-failure"@[0] != "gps-failure"@[0]); }
    assert("lidar-failure"@ != "camera-failure"@) by { assert("lidar-failure"@[0] != "camera-failure"@[0]); }
    assert("connectivity-failure"@ != "gps-failure"@) by { assert("connectivity-failure"@[0] != "gps-failure"@[0]); }
    assert("connectivity-failure"@ != "camera-failure"@) by { assert("connectivity-failure"@[1] != "camera-failure"@[1]); }
    assert("connectivity-failure"@ != "lidar-failure"@) by { assert("connectivity-failure"@[0] != "lidar-failure"@[0]); }
    assert("provider-failure"@ != "gps-failure"@) by { assert("provider-failure"@[0] != "gps-failure"@[0]); }
    assert("provider-failure"@ != "camera-failure"@) by { assert("provider-failure"@[0] != "camera-failure"@[0]); }
    assert("provider-failure"@ != "lidar-failure"@) by { assert("provider-failure"@[0] != "lidar-failure"@[0]); }
    assert("provider-failure"@ != "connectivity-failure"@) by { assert("provider-failure"@[0] != "connectivity-failure"@[0]); }
    assert("package-failure"@ != "gps-failure"@) by { assert("package-failure"@[0] != "gps-failure"@[0]); }
    assert("package-failure"@ != "camera-failure"@) by { assert("package-failure"@[0] != "camera-failure"@[0]); }
    assert("package-failure"@ != "lidar-failure"@) by { assert("package-failure"@[0] != "lidar-failure"@[0]); }
    assert("package-failure"@ != "connectivity-failure"@) by { assert("package-failure"@[0] != "connectivity-failure"@[0]); }
    assert("package-failure"@ != "provider-failure"@) by { assert("package-failure"@[1] != "provider-failure"@[1]); }
    assert("battery-failure"@ != "gps-failure"@) by { assert("battery-failure"@[0] != "gps-failure"@[0]); }
    assert("battery-failure"@ != "camera-failure"@) by { assert("battery-failure"@[0] != "camera-failure"@[0]); }
    assert("battery-failure"@ != "lidar-failure"@) by { assert("battery-failure"@[0] != "lidar-failure"@[0]); }
    assert("battery-failure"@ != "connectivity-failure"@) by { assert("battery-failure"@[0] != "connectivity-failure"@[0]); }
    assert("battery-failure"@ != "provider-failure"@) by { assert("battery-failure"@[0] != "provider-failure"@[0]); }
    assert("battery-failure"@ != "package-failure"@) by { assert("battery-failure"@[0] != "package-failure"@[0]); }
    let s0: Seq<Seq<char>> = seq![];
    let c0 = program_has_sensor_spec(p, "gps"@) || mentions_spec(json, "gps"@);
    let c1 = program_has_sensor_spec(p, "camera"@) || mentions_spec(json, "camera"@);
    let c2 = program_has_sensor_spec(p, "lidar"@) || mentions_spec(json, "lidar"@);
    let c3 = program_has_connectivity_spec(p) || mentions_spec(json, "connect"@);
    let c4 = mentions_spec(json, "provider"@);
    let c5 = mentions_spec(json, "package"@);
    let c6 = mentions_spec(json, "battery"@);
    let s1 = s0 + label_if(c0, "gps-failure"@);
    let s2 = s1 + label_if(c1, "camera-failure"@);
    let s3 = s2 + label_if(c2, "lidar-failure"@);
    let s4 = s3 + label_if(c3, "connectivity-failure"@);
    let s5 = s4 + label_if(c4, "provider-failure"@);
    let s6 = s5 + label_if(c5, "package-failure"@);
    let s7 = s6 + label_if(c6, "battery-failure"@);
    lemma_run_order_extend(s0, 0, c0, "gps-failure"@);
    lemma_run_order_extend(s1, 1, c1, "camera-failure"@);
    lemma_run_order_extend(s2, 2, c2, "lidar-failure"@);
    lemma_run_order_extend(s3, 3, c3, "connectivity-failure"@);
    lemma_run_order_extend(s4, 4, c4, "provider-failure"@);
    lemma_run_order_extend(s5, 5, c5, "package-failure"@);
    lemma_run_order_extend(s6, 6, c6, "battery-failure"@);
    assert(s0 + label_if(c0, "gps-failure"@) =~= label_if(c0, "gps-failure"@));
    assert(s7 =~= suggested_injections(p, json));
    let d = default_injections_spec(p, json);
    if suggested_injections(p, json).len() == 0 {
        assert(in_run_order(d, 7));
    }
    assert(d.no_duplicates()) by {
        assert forall|i: int, j: int| 0 <= i < d.len() && 0 <= j < d.len() && i != j implies d[i] != d[j] by {
            if i < j {
                assert(label_rank(d[i]) < label_rank(d[j]));
            } else {
                assert(label_rank(d[j]) < label_rank(d[i]));
            }
        }
    }
}


/// A label made of lower-case ASCII letters and hyphens is its own key.
proof fn lemma_plain_label_key(s: Seq<char>)
    requires
        forall|i: int| 0 <= i < s.len() ==> ('a' <= #[trigger] s[i] <= 'z' || s[i] == '-'),
    ensures
        injection_key(s) == s,
{
    if s.len() > 0 {
        assert(!is_white_space(s[0]));
        assert(!is_white_space(s.last()));
    }
    assert(trim_start_spec(s) == s);
    assert(trim_end_spec(s) == s);
    assert(ascii_lower_seq(s) =~= s);
    assert(replace_char(s, '_', '-') =~= s);
}

proof fn lemma_ranked_label_normalizes(l: Seq<char>)
    requires
        label_rank(l) < 7,
    ensures
        normalize_spec(l) is Some,
{
    reveal_strlit("gps-failure");
    reveal_strlit("camera-failure");
    reveal_strlit("lidar-failure");
    reveal_strlit("connectivity-failure");
    reveal_strlit("provider-failure");
    reveal_strlit("package-failure");
    reveal_strlit("battery-failure");
    lemma_plain_label_key(l);
}

/// Every default injection label names a known failure kind.
pub proof fn law_default_injections_normalize(p: Program, json: Seq<char>)
    ensures
        forall|i: int|
            0 <= i < default_injections_spec(p, json).len() ==> normalize_spec(
                #[trigger] default_injections_spec(p, json)[i],
            ) is Some,
{
    law_default_injections_ordered(p, json, seq![]);
    let d = default_injections_spec(p, json);
    assert forall|i: int| 0 <= i < d.len() implies normalize_spec(#[trigger] d[i]) is Some by {
        assert(label_rank(d[i]) < 7);
        lemma_ranked_label_normalizes(d[i]);
    }
}

/// An injection of a known kind passes exactly when its recovery, readiness,
/// health and safety checks all pass. Recovery passes with the recovery
/// simulation; readiness when the mission is ready, recovery leaves it ready,
/// or no critical or high issue remains; health unless the runtime health
/// failed; safety when no recovery result is unsafe and every proposed safe
/// action was approved. So a failed health check always fails the injection.
pub proof fn law_injection_rollup(label: Seq<char>, s: SignalsView)
    ensures
        evaluated_spec(label, s).injection == label,
        evaluated_spec(label, s).recovery_passed == s.recovery_passed,
        evaluated_spec(label, s).readiness_passed == (s.mission_ready || s.recovery_ready || !s.readiness_has_errors),
        evaluated_spec(label, s).health_passed == !s.health_failed,
        evaluated_spec(label, s).safety_passed == (s.unsafe_results == 0 && s.approved_actions == s.total_actions),
        evaluated_spec(label, s).passed == (s.recovery_passed && (s.mission_ready || s.recovery_ready
            || !s.readiness_has_errors) && !s.health_failed && s.unsafe_results == 0 && s.approved_actions
            == s.total_actions),
        s.health_failed ==> !evaluated_spec(label, s).passed,
{
}

/// In a report every injection passes exactly when all four of its checks
/// pass, an injection of a known kind takes its checks from its own signals,
/// an unknown label fails every check, and the report passes exactly when it
/// ran at least one injection and all of them passed.
pub proof fn law_report_rollup(labels: Seq<Seq<char>>, signals: Seq<Option<SignalsView>>)
    requires
        signals.len() == labels.len(),
    ensures
        outcomes_spec(labels, signals).len() == labels.len(),
        forall|i: int|
            0 <= i < labels.len() ==> {
                let o = #[trigger] outcomes_spec(labels, signals)[i];
                &&& o.injection == labels[i]
                &&& o.passed == (o.recovery_passed && o.readiness_passed && o.health_passed && o.safety_passed)
                &&& (normalize_spec(labels[i]) is Some && signals[i] is Some) ==> {
                    let s = signals[i]->0;
                    &&& o.recovery_passed == s.recovery_passed
                    &&& o.readiness_passed == (s.mission_ready || s.recovery_ready || !s.readiness_has_errors)
                    &&& o.health_passed == !s.health_failed
                    &&& o.safety_passed == (s.unsafe_results == 0 && s.approved_actions == s.total_actions)
                }
                &&& normalize_spec(labels[i]) is None ==> !o.recovery_passed && !o.readiness_passed
                    && !o.health_passed && !o.safety_passed && !o.passed && o.details == seq![
                    "unknown injection kind: "@ + labels[i],
                ]
            },
        all_passed(outcomes_spec(labels, signals)) == (labels.len() > 0 && forall|i: int|
            0 <= i < labels.len() ==> (#[trigger] outcomes_spec(labels, signals)[i]).passed),
{
}

} // verus!
