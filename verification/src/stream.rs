//! Decisions of the Control Center telemetry WebSocket stream
//! (`/v1/stream/telemetry`): which requests upgrade to the stream, how client
//! commands move the stream offsets, when frames may be sent under the
//! pending-frame limit, and when backpressure is announced.
//!
//! The socket, the clock and the stores the frames come from are driven by
//! the caller, which performs the actions these functions decide.
use vstd::prelude::*;
use crate::text::{ascii_lower_seq, has_infix, str_contains, str_eq, to_ascii_lower};

verus! {

/// The request path of the telemetry stream.
pub const TELEMETRY_STREAM_PATH: &'static str = "/v1/stream/telemetry";

pub open spec fn is_upgrade_spec(raw: Seq<char>, path: Seq<char>) -> bool {
    path == "/v1/stream/telemetry"@ && has_infix(ascii_lower_seq(raw), "upgrade: websocket"@) && has_infix(
        ascii_lower_seq(raw),
        "connection:"@,
    )
}

/// True when the parsed HTTP request is a WebSocket upgrade for telemetry streaming.
pub fn is_telemetry_stream_upgrade(raw: &str, path: &str) -> (r: bool)
    ensures
        r == is_upgrade_spec(raw@, path@),
{
    if !str_eq(path, "/v1/stream/telemetry") {
        return false;
    }
    let lower = to_ascii_lower(raw);
    str_contains(lower.as_str(), "upgrade: websocket") && str_contains(lower.as_str(), "connection:")
}

/// How far each feed of the stream has been sent.
#[derive(Debug, Clone, Copy, Default, PartialEq, Eq, Structural)]
pub struct StreamOffsets {
    pub telemetry: usize,
    pub traces: usize,
    pub alerts: usize,
}

/// A command a client sends over the stream.
#[derive(Debug, Clone, Copy, PartialEq, Eq, Structural)]
pub enum ClientCommand {
    /// Continue each feed from the given offsets.
    Resume(StreamOffsets),
    Ping,
}

/// The command a client message of the given `type` stands for; the offsets
/// are those the message carries (zero where it carries none).
pub fn client_command(kind: &str, telemetry_offset: usize, trace_offset: usize, alert_offset: usize) -> (r: Option<
    ClientCommand,
>)
    ensures
        kind@ == "resume"@ ==> r == Some(
            ClientCommand::Resume(
                StreamOffsets { telemetry: telemetry_offset, traces: trace_offset, alerts: alert_offset },
            ),
        ),
        kind@ == "ping"@ ==> r == Some(ClientCommand::Ping),
        kind@ != "resume"@ && kind@ != "ping"@ ==> r is None,
{
    proof {
        reveal_strlit("resume");
        reveal_strlit("ping");
        assert("ping"@[0] != "resume"@[0]);
    }
    if str_eq(kind, "resume") {
        Some(
            ClientCommand::Resume(
                StreamOffsets { telemetry: telemetry_offset, traces: trace_offset, alerts: alert_offset },
            ),
        )
    } else if str_eq(kind, "ping") {
        Some(ClientCommand::Ping)
    } else {
        None
    }
}

/// Limits of a stream.
#[derive(Debug, Clone, Copy, PartialEq, Eq, Structural)]
pub struct StreamConfig {
    pub max_pending_frames: usize,
    pub heartbeat_interval_ms: u64,
    pub poll_interval_ms: u64,
}

/// How a client asks to pick up a stream where it left off.
pub const RECONNECT_HINT: &'static str = "send {\"type\":\"resume\",\"telemetry_offset\":N,\"trace_offset\":N,\"alert_offset\":N}";

/// What the hello frame of the telemetry stream promises a client.
#[derive(Debug, Clone, PartialEq, Eq)]
pub struct HelloContract {
    pub resume_supported: bool,
    pub max_pending_frames: usize,
    pub heartbeat_interval_ms: u64,
    pub reconnect: String,
}

/// The promise of the hello frame: resuming is supported, with the
/// configured pending-frame limit and heartbeat interval.
pub fn hello_contract(config: &StreamConfig) -> (r: HelloContract)
    ensures
        r.resume_supported,
        r.max_pending_frames == config.max_pending_frames,
        r.heartbeat_interval_ms == config.heartbeat_interval_ms,
        r.reconnect@ == RECONNECT_HINT@,
{
    HelloContract {
        resume_supported: true,
        max_pending_frames: config.max_pending_frames,
        heartbeat_interval_ms: config.heartbeat_interval_ms,
        reconnect: RECONNECT_HINT.to_owned(),
    }
}

impl StreamConfig {
    /// The configured limits, each defaulting when it is not set
    /// (64 pending frames, a heartbeat every 15 s, a poll every 250 ms).
    pub fn from_settings(
        max_pending_frames: Option<usize>,
        heartbeat_interval_ms: Option<u64>,
        poll_interval_ms: Option<u64>,
    ) -> (r: Self)
        ensures
            r.max_pending_frames == (match max_pending_frames {
                Some(v) => v,
                None => 64,
            }),
            r.heartbeat_interval_ms == (match heartbeat_interval_ms {
                Some(v) => v,
                None => 15_000,
            }),
            r.poll_interval_ms == (match poll_interval_ms {
                Some(v) => v,
                None => 250,
            }),
    {
        StreamConfig {
            max_pending_frames: match max_pending_frames {
                Some(v) => v,
                None => 64,
            },
            heartbeat_interval_ms: match heartbeat_interval_ms {
                Some(v) => v,
                None => 15_000,
            },
            poll_interval_ms: match poll_interval_ms {
                Some(v) => v,
                None => 250,
            },
        }
    }
}

/// The feeds a stream relays.
#[derive(Debug, Clone, Copy, PartialEq, Eq, Structural)]
pub enum StreamFeed {
    Telemetry,
    Traces,
    Alerts,
}

/// What a client command is answered with.
#[derive(Debug, Clone, Copy, PartialEq, Eq, Structural)]
pub enum StreamReply {
    /// The stream continues from these offsets.
    Resumed(StreamOffsets),
    Pong,
}

/// What the stream does in a tick, after the commands and the heartbeat.
#[derive(Debug, Clone, Copy, PartialEq, Eq, Structural)]
pub enum FlowStep {
    /// Too many frames are pending: wait a poll interval, then relieve one
    /// frame, and send nothing else this tick. `announce_pause` is set when the
    /// pause starts with this tick.
    Throttle { announce_pause: bool },
    /// Relay the feeds. `announce_resume` is set when a pause ends with this tick.
    Proceed { announce_resume: bool },
}

/// Sending state of one stream.
#[derive(Debug, Clone, Copy, PartialEq, Eq, Structural)]
pub struct StreamState {
    pub pending_frames: usize,
    pub backpressure_active: bool,
    pub offsets: StreamOffsets,
}

pub open spec fn feed_offset(o: StreamOffsets, feed: StreamFeed) -> usize {
    match feed {
        StreamFeed::Telemetry => o.telemetry,
        StreamFeed::Traces => o.traces,
        StreamFeed::Alerts => o.alerts,
    }
}

pub open spec fn with_feed_offset(o: StreamOffsets, feed: StreamFeed, v: usize) -> StreamOffsets {
    match feed {
        StreamFeed::Telemetry => StreamOffsets { telemetry: v, ..o },
        StreamFeed::Traces => StreamOffsets { traces: v, ..o },
        StreamFeed::Alerts => StreamOffsets { alerts: v, ..o },
    }
}

/// A frame offered to the stream: sent and counted when fewer than `max`
/// frames are pending, dropped otherwise.
pub open spec fn admit_spec(s: StreamState, max: usize) -> (StreamState, bool) {
    if s.pending_frames < max {
        (StreamState { pending_frames: (s.pending_frames + 1) as usize, ..s }, true)
    } else {
        (s, false)
    }
}

/// A client command applied: a resume moves every feed to the requested offsets.
pub open spec fn command_spec(s: StreamState, c: ClientCommand) -> (StreamState, StreamReply) {
    match c {
        ClientCommand::Resume(o) => (StreamState { offsets: o, ..s }, StreamReply::Resumed(o)),
        ClientCommand::Ping => (s, StreamReply::Pong),
    }
}

/// The flow decision of a tick: throttle while `max` or more frames are
/// pending, announcing the pause when it starts and the resume when it ends.
pub open spec fn flow_spec(s: StreamState, max: usize) -> (StreamState, FlowStep) {
    if s.pending_frames >= max {
        (StreamState { backpressure_active: true, ..s }, FlowStep::Throttle { announce_pause: !s.backpressure_active })
    } else {
        (
            StreamState { backpressure_active: false, ..s },
            FlowStep::Proceed { announce_resume: s.backpressure_active },
        )
    }
}

/// One pending frame taken as delivered after a throttled wait.
pub open spec fn relieve_spec(s: StreamState) -> StreamState {
    StreamState { pending_frames: if s.pending_frames == 0 { 0 } else { (s.pending_frames - 1) as usize }, ..s }
}

/// A feed that holds `available` entries: the entries past its offset are
/// relayed and the offset moves to the end.
pub open spec fn catch_up_spec(s: StreamState, feed: StreamFeed, available: usize) -> (StreamState, Option<
    (usize, usize),
>) {
    if available > feed_offset(s.offsets, feed) {
        (
            StreamState { offsets: with_feed_offset(s.offsets, feed, available), ..s },
            Some((feed_offset(s.offsets, feed), available)),
        )
    } else {
        (s, None)
    }
}

impl StreamState {
    /// A fresh stream: nothing pending, no backpressure, every feed at its start.
    pub fn new() -> (r: Self)
        ensures
            r == (StreamState {
                pending_frames: 0,
                backpressure_active: false,
                offsets: StreamOffsets { telemetry: 0, traces: 0, alerts: 0 },
            }),
    {
        StreamState {
            pending_frames: 0,
            backpressure_active: false,
            offsets: StreamOffsets { telemetry: 0, traces: 0, alerts: 0 },
        }
    }

    /// Whether a frame may be sent now; when it may, it is counted as pending.
    /// A frame that may not be sent is dropped.
    pub fn admit_frame(&mut self, max_pending_frames: usize) -> (sent: bool)
        ensures
            (*final(self), sent) == admit_spec(*old(self), max_pending_frames),
    {
        if self.pending_frames >= max_pending_frames {
            false
        } else {
            self.pending_frames = self.pending_frames + 1;
            true
        }
    }

    /// Apply a client command.
    pub fn apply_command(&mut self, command: ClientCommand) -> (reply: StreamReply)
        ensures
            (*final(self), reply) == command_spec(*old(self), command),
    {
        match command {
            ClientCommand::Resume(offsets) => {
                self.offsets = offsets;
                StreamReply::Resumed(offsets)
            },
            ClientCommand::Ping => StreamReply::Pong,
        }
    }

    /// Decide whether this tick throttles or relays, and whether a change of
    /// backpressure is announced.
    pub fn flow_control(&mut self, max_pending_frames: usize) -> (step: FlowStep)
        ensures
            (*final(self), step) == flow_spec(*old(self), max_pending_frames),
    {
        if self.pending_frames >= max_pending_frames {
            let announce = !self.backpressure_active;
            self.backpressure_active = true;
            FlowStep::Throttle { announce_pause: announce }
        } else {
            let announce = self.backpressure_active;
            self.backpressure_active = false;
            FlowStep::Proceed { announce_resume: announce }
        }
    }

    /// One pending frame is taken as delivered after a throttled wait.
    pub fn relieve(&mut self)
        ensures
            *final(self) == relieve_spec(*old(self)),
    {
        if self.pending_frames > 0 {
            self.pending_frames = self.pending_frames - 1;
        }
    }

    /// The range of a feed's entries still to relay, given how many it holds
    /// now; the feed's offset moves to the end of what it holds.
    pub fn catch_up(&mut self, feed: StreamFeed, available: usize) -> (range: Option<(usize, usize)>)
        ensures
            (*final(self), range) == catch_up_spec(*old(self), feed, available),
    {
        let current = match feed {
            StreamFeed::Telemetry => self.offsets.telemetry,
            StreamFeed::Traces => self.offsets.traces,
            StreamFeed::Alerts => self.offsets.alerts,
        };
        if available > current {
            match feed {
                StreamFeed::Telemetry => self.offsets.telemetry = available,
                StreamFeed::Traces => self.offsets.traces = available,
                StreamFeed::Alerts => self.offsets.alerts = available,
            }
            Some((current, available))
        } else {
            None
        }
    }
}

/// Once the pending frames are within the limit, no step of the stream takes them above it.
pub proof fn law_pending_frames_within_limit(
    s: StreamState,
    max: usize,
    c: ClientCommand,
    feed: StreamFeed,
    available: usize,
)
    requires
        s.pending_frames <= max,
    ensures
        admit_spec(s, max).0.pending_frames <= max,
        command_spec(s, c).0.pending_frames <= max,
        flow_spec(s, max).0.pending_frames <= max,
        relieve_spec(s).pending_frames <= max,
        catch_up_spec(s, feed, available).0.pending_frames <= max,
{
}

/// A pause is announced once: a tick that throttles again after a throttled
/// tick does not announce it again, and the tick that ends it announces the resume.
pub proof fn law_backpressure_announced_once(s: StreamState, max: usize)
    ensures
        flow_spec(s, max).1 matches FlowStep::Throttle { .. } ==> flow_spec(flow_spec(s, max).0, max).1 == (
        FlowStep::Throttle { announce_pause: false }),
        flow_spec(s, max).1 matches FlowStep::Throttle { .. } ==> flow_spec(relieve_spec(flow_spec(s, max).0), max).1
            != (FlowStep::Proceed { announce_resume: false }),
{
}

/// Catching a feed up twice against the same count relays nothing the second time,
/// and after catching up the feed's offset is at least the count.
pub proof fn law_catch_up_idempotent(s: StreamState, feed: StreamFeed, available: usize)
    ensures
        catch_up_spec(catch_up_spec(s, feed, available).0, feed, available).1 is None,
        feed_offset(catch_up_spec(s, feed, available).0.offsets, feed) >= available,
{
}

} // verus!
