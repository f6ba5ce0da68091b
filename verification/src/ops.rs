//! Operational decisions of the CLI and the Control Center: the runtime
//! certification gate, ROS 2 prerequisite checks, trace replay modes, and
//! scheduled drift scans.
//!
//! Each function takes the facts the caller gathered (environment values,
//! probe results, scan outcomes) and decides what is reported or done.
use vstd::prelude::*;
use std::collections::VecDeque;
use crate::text::{cat4, decimal, format_decimal, owned, push_str, str_eq, str_trim, trim_spec, views};

verus! {

/// Whether the deploy certification gate runs before execution: when it is
/// requested, or when the environment enables it.
pub fn enforce_runtime_certification(enforce: bool, enabled_from_env: bool) -> (r: bool)
    ensures
        r == (enforce || enabled_from_env),
{
    enforce || enabled_from_env
}

/// The assurance runtime that delegates recovery and continuity planning to
/// the assurance planners and validators.
#[derive(Debug, Default, Clone, Copy, PartialEq, Eq, Structural)]
pub struct AssuranceBackedRuntime;

/// Shared request body for program-scoped SDK operations.
#[derive(Debug, Clone, Default, PartialEq, Eq)]
pub struct ProgramRequest {
    /// Path to a `.sd` program or `.trace` file (relative to project root or absolute).
    pub file: Option<String>,
    pub target: Option<String>,
    pub include_runtime: bool,
    pub inject_health_faults: bool,
    pub traceability: bool,
    pub capabilities: bool,
}

/// One ROS 2 prerequisite and its state.
#[derive(Debug, Clone, PartialEq, Eq)]
pub struct Ros2CheckItem {
    pub name: String,
    pub ok: bool,
    pub detail: String,
}

/// Outcome of `spanda ros2 check`.
#[derive(Debug, Clone, PartialEq, Eq)]
pub struct Ros2CheckResponse {
    pub ok: bool,
    pub items: Vec<Ros2CheckItem>,
    pub hint: String,
}

#[verifier::ext_equal]
pub struct Ros2ItemView {
    pub name: Seq<char>,
    pub ok: bool,
    pub detail: Seq<char>,
}

impl View for Ros2CheckItem {
    type V = Ros2ItemView;

    open spec fn view(&self) -> Ros2ItemView {
        Ros2ItemView { name: self.name@, ok: self.ok, detail: self.detail@ }
    }
}

pub open spec fn ros2_item_views(v: Seq<Ros2CheckItem>) -> Seq<Ros2ItemView> {
    v.map_values(|i: Ros2CheckItem| i@)
}

pub open spec fn ros2_hint() -> Seq<char> {
    "See docs/ros2-golden-path.md — use `spanda ros2 check` before `spanda run` with ROS topics."@
}

/// The four checks, in order: the ROS distribution, `rclpy`, the Python
/// bridge script, and the live-transport switch.
pub open spec fn ros2_items_spec(
    distro: Seq<char>,
    rclpy_ok: bool,
    bridge: Seq<char>,
    bridge_ok: bool,
    live: bool,
) -> Seq<Ros2ItemView> {
    seq![
        Ros2ItemView {
            name: "ROS_DISTRO"@,
            ok: distro.len() > 0,
            detail: if distro.len() == 0 { "not set — source /opt/ros/<distro>/setup.bash"@ } else { distro },
        },
        Ros2ItemView {
            name: "rclpy"@,
            ok: rclpy_ok,
            detail: if rclpy_ok { "importable"@ } else { "missing — install ros-${ROS_DISTRO}-rclpy"@ },
        },
        Ros2ItemView { name: "python_bridge"@, ok: bridge_ok, detail: bridge },
        Ros2ItemView {
            name: "SPANDA_ROS2_LIVE"@,
            ok: live,
            detail: if live { "enabled"@ } else { "unset — export SPANDA_ROS2_LIVE=1 for live topics"@ },
        },
    ]
}

/// The live-transport switch is on when `SPANDA_ROS2_LIVE` is exactly `1`.
pub fn ros2_live_enabled(value: Option<&str>) -> (r: bool)
    ensures
        r == (match value {
            Some(v) => v@ == "1"@,
            None => false,
        }),
{
    match value {
        Some(v) => str_eq(v, "1"),
        None => false,
    }
}

fn ros2_item(name: &str, ok: bool, detail: String) -> (r: Ros2CheckItem)
    ensures
        r@ == (Ros2ItemView { name: name@, ok, detail: detail@ }),
{
    Ros2CheckItem { name: owned(name), ok, detail }
}

/// The ROS 2 check from what was probed: the prerequisites pass when the
/// distribution is set and `rclpy` imports; the bridge and the live switch
/// are reported only.
pub fn ros2_check_report(distro: &str, rclpy_ok: bool, bridge: &str, bridge_ok: bool, live: bool) -> (r:
    Ros2CheckResponse)
    ensures
        ros2_item_views(r.items@) == ros2_items_spec(distro@, rclpy_ok, bridge@, bridge_ok, live),
        r.ok == (distro@.len() > 0 && rclpy_ok),
        r.hint@ == ros2_hint(),
{
    let mut items: Vec<Ros2CheckItem> = Vec::new();
    let distro_set = distro.unicode_len() > 0;
    let d0 = if distro_set {
        owned(distro)
    } else {
        owned("not set — source /opt/ros/<distro>/setup.bash")
    };
    items.push(ros2_item("ROS_DISTRO", distro_set, d0));
    let d1 = if rclpy_ok {
        owned("importable")
    } else {
        owned("missing — install ros-${ROS_DISTRO}-rclpy")
    };
    items.push(ros2_item("rclpy", rclpy_ok, d1));
    items.push(ros2_item("python_bridge", bridge_ok, owned(bridge)));
    let d3 = if live {
        owned("enabled")
    } else {
        owned("unset — export SPANDA_ROS2_LIVE=1 for live topics")
    };
    items.push(ros2_item("SPANDA_ROS2_LIVE", live, d3));
    assert(ros2_item_views(items@) =~= ros2_items_spec(distro@, rclpy_ok, bridge@, bridge_ok, live));
    let ok = items[0].ok && items[1].ok;
    Ros2CheckResponse {
        ok,
        items,
        hint: owned("See docs/ros2-golden-path.md — use `spanda ros2 check` before `spanda run` with ROS topics."),
    }
}

pub open spec fn ros2_item_line(i: Ros2ItemView) -> Seq<char> {
    (if i.ok { "✓"@ } else { "✗"@ }) + " "@ + i.name + ": "@ + i.detail
}

/// The human-readable lines of a ROS 2 check: one per item, the verdict, the hint.
pub open spec fn ros2_text_spec(items: Seq<Ros2ItemView>, ok: bool, hint: Seq<char>) -> Seq<Seq<char>> {
    items.map_values(|i: Ros2ItemView| ros2_item_line(i)) + seq![
        if ok {
            "✓ ROS 2 live transport prerequisites look good"@
        } else {
            "✗ Fix ROS_DISTRO and rclpy before enabling SPANDA_ROS2_LIVE=1"@
        },
        hint,
    ]
}

/// Render a ROS 2 check as the lines printed for it.
pub fn format_ros2_check_text(response: &Ros2CheckResponse) -> (r: Vec<String>)
    ensures
        views(r@) == ros2_text_spec(ros2_item_views(response.items@), response.ok, response.hint@),
{
    let ghost iv = ros2_item_views(response.items@);
    let mut lines: Vec<String> = Vec::new();
    let mut i: usize = 0;
    while i < response.items.len()
        invariant
            0 <= i <= iv.len(),
            iv == ros2_item_views(response.items@),
            views(lines@) == iv.take(i as int).map_values(|x: Ros2ItemView| ros2_item_line(x)),
        decreases iv.len() - i,
    {
        let item = &response.items[i];
        let mark = if item.ok {
            "✓"
        } else {
            "✗"
        };
        let line = cat4(mark, " ", item.name.as_str(), ": ");
        let mut line = line;
        push_str(&mut line, item.detail.as_str());
        let ghost before = lines@;
        lines.push(line);
        proof {
            crate::text::lemma_views_push(before, line);
            assert(iv[i as int] == item@);
            assert(iv.take(i + 1).map_values(|x: Ros2ItemView| ros2_item_line(x)) =~= iv.take(i as int).map_values(
                |x: Ros2ItemView| ros2_item_line(x),
            ).push(ros2_item_line(iv[i as int])));
        }
        i = i + 1;
    }
    assert(iv.take(iv.len() as int) =~= iv);
    let verdict = if response.ok {
        owned("✓ ROS 2 live transport prerequisites look good")
    } else {
        owned("✗ Fix ROS_DISTRO and rclpy before enabling SPANDA_ROS2_LIVE=1")
    };
    let ghost before = lines@;
    lines.push(verdict);
    let ghost mid = lines@;
    lines.push(owned(response.hint.as_str()));
    proof {
        crate::text::lemma_views_push(before, verdict);
        assert(views(lines@) =~= views(mid).push(response.hint@));
        assert(views(lines@) =~= ros2_text_spec(iv, response.ok, response.hint@));
    }
    lines
}

/// What `spanda replay` does with a trace.
#[derive(Debug, Clone, Copy, PartialEq, Eq, Structural)]
pub enum ReplayMode {
    /// List the faults the trace records.
    Faults,
    /// Play the trace back against the robot state.
    Playback,
    /// Re-run the source and compare it with the trace.
    Deterministic,
    /// List the trace's frames.
    Listing,
}

/// The replay mode the flags select: faults first, then playback, then a
/// deterministic re-run; a plain listing otherwise.
pub fn replay_mode(show_faults: bool, playback: bool, deterministic: bool) -> (r: ReplayMode)
    ensures
        r == (if show_faults {
            ReplayMode::Faults
        } else if playback {
            ReplayMode::Playback
        } else if deterministic {
            ReplayMode::Deterministic
        } else {
            ReplayMode::Listing
        }),
{
    if show_faults {
        ReplayMode::Faults
    } else if playback {
        ReplayMode::Playback
    } else if deterministic {
        ReplayMode::Deterministic
    } else {
        ReplayMode::Listing
    }
}

/// What follows a deterministic re-run of a trace.
#[derive(Debug, Clone, Copy, PartialEq, Eq, Structural)]
pub enum DeterministicReplayOutcome {
    /// Print the verification as JSON and return normally.
    PrintJson,
    /// Report that the replay matched and return normally.
    ReportVerified,
    /// Report the mismatches and exit with status 1.
    ReportMismatchesAndExit,
}

/// The outcome of a deterministic replay from whether it matched and whether
/// JSON was asked for: JSON is printed whatever the result; otherwise a
/// mismatch ends the process with status 1.
pub fn deterministic_replay_outcome(ok: bool, as_json: bool) -> (r: DeterministicReplayOutcome)
    ensures
        r == (if as_json {
            DeterministicReplayOutcome::PrintJson
        } else if ok {
            DeterministicReplayOutcome::ReportVerified
        } else {
            DeterministicReplayOutcome::ReportMismatchesAndExit
        }),
{
    if as_json {
        DeterministicReplayOutcome::PrintJson
    } else if ok {
        DeterministicReplayOutcome::ReportVerified
    } else {
        DeterministicReplayOutcome::ReportMismatchesAndExit
    }
}

impl DeterministicReplayOutcome {
    /// The exit status the outcome ends the process with, if any.
    pub fn exit_status(&self) -> (r: Option<i32>)
        ensures
            r == (if *self == DeterministicReplayOutcome::ReportMismatchesAndExit {
                Some(1i32)
            } else {
                None::<i32>
            }),
    {
        match self {
            DeterministicReplayOutcome::ReportMismatchesAndExit => Some(1),
            _ => None,
        }
    }
}

/// Frames a listing shows in full.
pub const REPLAY_LISTING_LIMIT: usize = 20;

/// How many frames a listing of `frames` frames shows, and how many it summarises as more.
pub fn replay_listing_split(frames: usize) -> (r: (usize, usize))
    ensures
        frames <= 20 ==> r == (frames, 0usize),
        frames > 20 ==> r == (20usize, (frames - 20) as usize),
{
    if frames > REPLAY_LISTING_LIMIT {
        (REPLAY_LISTING_LIMIT, frames - REPLAY_LISTING_LIMIT)
    } else {
        (frames, 0)
    }
}

/// A configured value that is set and not blank.
pub open spec fn non_blank(v: Option<Seq<char>>) -> bool {
    match v {
        Some(s) => trim_spec(s).len() > 0,
        None => false,
    }
}

/// The drift baseline named by the request or, failing that, by the
/// environment; `None` leaves the choice to the latest configuration snapshot.
pub fn choose_baseline(explicit: Option<&str>, from_env: Option<&str>) -> (r: Option<String>)
    ensures
        non_blank(
            match explicit {
                Some(s) => Some(s@),
                None => None,
            },
        ) ==> r is Some && r->0@ == explicit->0@,
        !non_blank(
            match explicit {
                Some(s) => Some(s@),
                None => None,
            },
        ) && non_blank(
            match from_env {
                Some(s) => Some(s@),
                None => None,
            },
        ) ==> r is Some && r->0@ == from_env->0@,
        !non_blank(
            match explicit {
                Some(s) => Some(s@),
                None => None,
            },
        ) && !non_blank(
            match from_env {
                Some(s) => Some(s@),
                None => None,
            },
        ) ==> r is None,
{
    if let Some(id) = explicit {
        if str_trim(id).unicode_len() > 0 {
            return Some(owned(id));
        }
    }
    if let Some(id) = from_env {
        if str_trim(id).unicode_len() > 0 {
            return Some(owned(id));
        }
    }
    None
}

/// Severity of the alert a drift scan raises.
#[derive(Debug, Clone, Copy, PartialEq, Eq, Structural)]
pub enum DriftAlertLevel {
    Critical,
    Warning,
    Info,
}

pub open spec fn drift_alert_level_spec(has_high_finding: bool, passed: bool) -> DriftAlertLevel {
    if has_high_finding {
        DriftAlertLevel::Critical
    } else if !passed {
        DriftAlertLevel::Warning
    } else {
        DriftAlertLevel::Info
    }
}

/// The alert a scan raises: critical with a high-severity finding, a warning
/// when it failed otherwise; none when alerts are not dispatched, the scan
/// passed, or the level is informational.
pub fn drift_alert(dispatch: bool, passed: bool, has_high_finding: bool) -> (r: Option<DriftAlertLevel>)
    ensures
        r == (if dispatch && !passed && drift_alert_level_spec(has_high_finding, passed) != DriftAlertLevel::Info {
            Some(drift_alert_level_spec(has_high_finding, passed))
        } else {
            None
        }),
{
    if !dispatch || passed {
        return None;
    }
    let level = if has_high_finding {
        DriftAlertLevel::Critical
    } else if !passed {
        DriftAlertLevel::Warning
    } else {
        DriftAlertLevel::Info
    };
    if level == DriftAlertLevel::Info {
        None
    } else {
        Some(level)
    }
}

/// The message of a drift alert.
pub fn drift_alert_message(baseline: &str, findings: usize, dimensions: usize) -> (r: String)
    ensures
        r@ == "operational drift detected (baseline "@ + baseline@ + "): "@ + decimal(findings as nat)
            + " findings across "@ + decimal(dimensions as nat) + " dimensions"@,
{
    let f = format_decimal(findings);
    let d = format_decimal(dimensions);
    let mut r = cat4("operational drift detected (baseline ", baseline, "): ", f.as_str());
    push_str(&mut r, " findings across ");
    push_str(&mut r, d.as_str());
    push_str(&mut r, " dimensions");
    r
}

/// The scans kept after one more is recorded: the oldest is dropped once
/// `max` or more are kept.
pub open spec fn ring_push<T>(s: Seq<T>, max: usize, x: T) -> Seq<T> {
    if s.len() >= max && s.len() > 0 {
        s.drop_first().push(x)
    } else {
        s.push(x)
    }
}

/// Ring buffer of recent drift scan results.
#[derive(Debug, Clone)]
pub struct DriftScanStore<T> {
    pub scans: VecDeque<T>,
    pub max_entries: usize,
}

impl<T> DriftScanStore<T> {
    pub fn new(max_entries: usize) -> (r: Self)
        ensures
            r.scans@ == Seq::<T>::empty(),
            r.max_entries == max_entries,
    {
        DriftScanStore { scans: VecDeque::new(), max_entries }
    }

    /// Record a scan, dropping the oldest when the store is full.
    pub fn push(&mut self, record: T)
        ensures
            final(self).scans@ == ring_push(old(self).scans@, old(self).max_entries, record),
            final(self).max_entries == old(self).max_entries,
    {
        let ghost before = self.scans@;
        if self.scans.len() >= self.max_entries {
            self.scans.pop_front();
        }
        self.scans.push_back(record);
        proof {
            if before.len() > 0 && before.len() >= self.max_entries {
                assert(before.subrange(1, before.len() as int) =~= before.drop_first());
            }
        }
    }

    /// Copies of the kept scans, oldest first.
    pub fn list(&self) -> (r: Vec<T>)
        where
            T: Clone,
        ensures
            r@.len() == self.scans@.len(),
            forall|i: int| 0 <= i < r@.len() ==> cloned(self.scans@[i], #[trigger] r@[i]),
    {
        let mut out: Vec<T> = Vec::new();
        let mut i: usize = 0;
        while i < self.scans.len()
            invariant
                0 <= i <= self.scans@.len(),
                out@.len() == i,
                forall|k: int| 0 <= k < i ==> cloned(self.scans@[k], #[trigger] out@[k]),
            decreases self.scans@.len() - i,
        {
            out.push(self.scans[i].clone());
            i = i + 1;
        }
        out
    }
}

/// A store never keeps more than its limit (or one scan, when the limit is
/// zero), and the latest recorded scan is always the last one kept.
pub proof fn law_drift_store_bounded<T>(s: Seq<T>, max: usize, x: T)
    requires
        s.len() <= (if max == 0 { 1 } else { max as int }),
    ensures
        ring_push(s, max, x).len() <= (if max == 0 { 1 } else { max as int }),
        ring_push(s, max, x).last() == x,
        ring_push(s, max, x).drop_last() == (if s.len() >= max && s.len() > 0 {
            s.drop_first()
        } else {
            s
        }),
{
    if s.len() >= max && s.len() > 0 {
        assert(s.drop_first().push(x).drop_last() =~= s.drop_first());
    } else {
        assert(s.push(x).drop_last() =~= s);
    }
}

} // verus!
