//! Choice of the AI provider backend, and how a live model completion is read
//! as a motion decision.
//!
//! The environment is read and the model is called by the caller; the speeds
//! of the resulting action proposal are computed there too.
use vstd::prelude::*;
use crate::text::{ascii_lower_seq, cat2, has_infix, str_contains, str_eq, to_ascii_lower, views};

verus! {

/// Whether live providers are used: `SPANDA_LIVE_AI` is not `0` and
/// `OPENAI_API_KEY` is set to a non-empty value.
pub open spec fn live_ai_enabled_spec(live_flag: Option<Seq<char>>, api_key: Option<Seq<char>>) -> bool {
    live_flag != Some("0"@) && match api_key {
        Some(k) => k.len() > 0,
        None => false,
    }
}

/// Return true when live AI providers should be used instead of mock-only
/// mode, given the values of `SPANDA_LIVE_AI` and `OPENAI_API_KEY`.
pub fn live_ai_enabled(live_flag: Option<&str>, api_key: Option<&str>) -> (r: bool)
    ensures
        r == live_ai_enabled_spec(
            match live_flag {
                Some(f) => Some(f@),
                None => None,
            },
            match api_key {
                Some(k) => Some(k@),
                None => None,
            },
        ),
{
    let live_off = match live_flag {
        Some(f) => str_eq(f, "0"),
        None => false,
    };
    let has_key = match api_key {
        Some(k) => k.unicode_len() > 0,
        None => false,
    };
    !live_off && has_key
}

/// The backend a provider name resolves to.
#[derive(Debug, Clone, Copy, PartialEq, Eq, Structural)]
pub enum AiProviderKind {
    /// The live OpenAI backend.
    OpenAi,
    /// The deterministic mock backend.
    Mock,
}

/// The live OpenAI provider.
#[derive(Debug, Clone, Copy, Default, PartialEq, Eq, Structural)]
pub struct OpenAiProvider;

/// Select a runtime AI provider for the configured provider name: OpenAI
/// (in any letter case) when live providers are enabled, the mock otherwise.
pub fn resolve_ai_provider(provider: &str, live_enabled: bool) -> (r: AiProviderKind)
    ensures
        r == (if ascii_lower_seq(provider@) == "openai"@ && live_enabled {
            AiProviderKind::OpenAi
        } else {
            AiProviderKind::Mock
        }),
{
    let lower = to_ascii_lower(provider);
    if str_eq(lower.as_str(), "openai") && live_enabled {
        AiProviderKind::OpenAi
    } else {
        AiProviderKind::Mock
    }
}

/// How a completion is acted on.
#[derive(Debug, Clone, Copy, PartialEq, Eq, Structural)]
pub enum CompletionDecision {
    Stop,
    AvoidObstacle,
    Forward,
}

pub open spec fn completion_decision_spec(text: Seq<char>, obstacle_near: bool) -> CompletionDecision {
    let lower = ascii_lower_seq(text);
    if has_infix(lower, "stop"@) || has_infix(lower, "halt"@) || has_infix(lower, "wait"@) {
        CompletionDecision::Stop
    } else if has_infix(lower, "turn"@) || has_infix(lower, "avoid"@) || obstacle_near {
        CompletionDecision::AvoidObstacle
    } else {
        CompletionDecision::Forward
    }
}

/// Read a completion: a stop word stops; a turn or avoid word, or an
/// obstacle nearer than the avoidance distance, avoids; anything else goes forward.
pub fn completion_decision(text: &str, obstacle_near: bool) -> (r: CompletionDecision)
    ensures
        r == completion_decision_spec(text@, obstacle_near),
{
    let lower = to_ascii_lower(text);
    let l = lower.as_str();
    if str_contains(l, "stop") || str_contains(l, "halt") || str_contains(l, "wait") {
        CompletionDecision::Stop
    } else if str_contains(l, "turn") || str_contains(l, "avoid") || obstacle_near {
        CompletionDecision::AvoidObstacle
    } else {
        CompletionDecision::Forward
    }
}

pub open spec fn decision_name(d: CompletionDecision) -> Seq<char> {
    match d {
        CompletionDecision::Stop => "stop"@,
        CompletionDecision::AvoidObstacle => "avoid_obstacle"@,
        CompletionDecision::Forward => "forward"@,
    }
}

fn decision_text(d: CompletionDecision) -> (r: &'static str)
    ensures
        r@ == decision_name(d),
{
    match d {
        CompletionDecision::Stop => "stop",
        CompletionDecision::AvoidObstacle => "avoid_obstacle",
        CompletionDecision::Forward => "forward",
    }
}

/// The explanation lines an action proposal from a completion carries.
pub open spec fn completion_notes_spec(
    model: Seq<char>,
    provider: Seq<char>,
    text: Seq<char>,
    d: CompletionDecision,
) -> Seq<Seq<char>> {
    seq![
        "model="@ + model,
        "provider="@ + provider,
        "completion="@ + text,
        "decision="@ + decision_name(d),
    ]
}

/// The explanation lines of an action proposal made from a completion.
pub fn completion_notes(model: &str, provider: &str, text: &str, d: CompletionDecision) -> (r: Vec<String>)
    ensures
        views(r@) == completion_notes_spec(model@, provider@, text@, d),
{
    let mut v: Vec<String> = Vec::new();
    v.push(cat2("model=", model));
    v.push(cat2("provider=", provider));
    v.push(cat2("completion=", text));
    v.push(cat2("decision=", decision_text(d)));
    assert(views(v@) =~= completion_notes_spec(model@, provider@, text@, d));
    v
}

} // verus!
