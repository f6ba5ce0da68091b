//! Platform event types shared across Spanda subsystems.
use vstd::prelude::*;
use crate::text::{cat2, owned};

verus! {

/// Namespaced platform event type (e.g. `ReadinessChanged`).
#[derive(Debug, Clone, PartialEq, Eq)]
pub struct PlatformEventType(pub String);

impl PlatformEventType {
    pub fn new(name: &str) -> (r: Self)
        ensures
            r.0@ == name@,
    {
        PlatformEventType(owned(name))
    }

    pub fn as_str(&self) -> (r: &str)
        ensures
            r@ == self.0@,
    {
        self.0.as_str()
    }
}

/// The fully qualified name of an event type: `spanda.events.` and the type's name.
pub fn namespaced_type(event_type: &PlatformEventType) -> (r: String)
    ensures
        r@ == "spanda.events."@ + event_type.0@,
{
    cat2("spanda.events.", event_type.as_str())
}

} // verus!
