//! Communication declaration types shared by the Spanda AST.
use vstd::prelude::*;
use crate::ast::Span;
use crate::text::str_eq;

verus! {

#[derive(Debug, Clone, Copy, PartialEq, Eq, Hash, Structural)]
pub enum TransportKind {
    Local,
    Ros2,
    Mqtt,
    Dds,
    Websocket,
    Sim,
}

/// Canonical identifier of a transport.
pub open spec fn transport_name(k: TransportKind) -> Seq<char> {
    match k {
        TransportKind::Local => "local"@,
        TransportKind::Ros2 => "ros2"@,
        TransportKind::Mqtt => "mqtt"@,
        TransportKind::Dds => "dds"@,
        TransportKind::Websocket => "websocket"@,
        TransportKind::Sim => "sim"@,
    }
}

/// Transport named by an identifier, including the link-layer aliases.
pub open spec fn transport_from_ident(s: Seq<char>) -> Option<TransportKind> {
    if s == "local"@ {
        Some(TransportKind::Local)
    } else if s == "ros2"@ {
        Some(TransportKind::Ros2)
    } else if s == "mqtt"@ {
        Some(TransportKind::Mqtt)
    } else if s == "dds"@ {
        Some(TransportKind::Dds)
    } else if s == "websocket"@ {
        Some(TransportKind::Websocket)
    } else if s == "sim"@ {
        Some(TransportKind::Sim)
    } else if s == "ble"@ || s == "bluetooth"@ {
        Some(TransportKind::Mqtt)
    } else if s == "wifi"@ {
        Some(TransportKind::Local)
    } else if s == "cellular"@ {
        Some(TransportKind::Mqtt)
    } else {
        None
    }
}

impl TransportKind {
    pub fn from_ident(s: &str) -> (r: Option<Self>)
        ensures
            r == transport_from_ident(s@),
    {
        if str_eq(s, "local") {
            Some(Self::Local)
        } else if str_eq(s, "ros2") {
            Some(Self::Ros2)
        } else if str_eq(s, "mqtt") {
            Some(Self::Mqtt)
        } else if str_eq(s, "dds") {
            Some(Self::Dds)
        } else if str_eq(s, "websocket") {
            Some(Self::Websocket)
        } else if str_eq(s, "sim") {
            Some(Self::Sim)
        } else if str_eq(s, "ble") || str_eq(s, "bluetooth") {
            Some(Self::Mqtt)
        } else if str_eq(s, "wifi") {
            Some(Self::Local)
        } else if str_eq(s, "cellular") {
            Some(Self::Mqtt)
        } else {
            None
        }
    }

    pub fn as_str(self) -> (r: &'static str)
        ensures
            r@ == transport_name(self),
    {
        match self {
            Self::Local => "local",
            Self::Ros2 => "ros2",
            Self::Mqtt => "mqtt",
            Self::Dds => "dds",
            Self::Websocket => "websocket",
            Self::Sim => "sim",
        }
    }

    pub fn supports_encryption(self) -> (r: bool)
        ensures
            r == !(self == TransportKind::Local || self == TransportKind::Sim),
    {
        !matches!(self, Self::Local | Self::Sim)
    }
}

/// Parsing the canonical identifier of a transport gives the transport back.
pub proof fn law_transport_round_trip(k: TransportKind)
    ensures
        transport_from_ident(transport_name(k)) == Some(k),
{
    reveal_strlit("local");
    reveal_strlit("ros2");
    reveal_strlit("mqtt");
    reveal_strlit("dds");
    reveal_strlit("websocket");
    reveal_strlit("sim");
    assert("ros2"@ != "local"@) by { assert("ros2"@[0] != "local"@[0]); }
    assert("mqtt"@ != "local"@) by { assert("mqtt"@[0] != "local"@[0]); }
    assert("mqtt"@ != "ros2"@) by { assert("mqtt"@[0] != "ros2"@[0]); }
    assert("dds"@ != "local"@) by { assert("dds"@[0] != "local"@[0]); }
    assert("dds"@ != "ros2"@) by { assert("dds"@[0] != "ros2"@[0]); }
    assert("dds"@ != "mqtt"@) by { assert("dds"@[0] != "mqtt"@[0]); }
    assert("websocket"@ != "local"@) by { assert("websocket"@[0] != "local"@[0]); }
    assert("websocket"@ != "ros2"@) by { assert("websocket"@[0] != "ros2"@[0]); }
    assert("websocket"@ != "mqtt"@) by { assert("websocket"@[0] != "mqtt"@[0]); }
    assert("websocket"@ != "dds"@) by { assert("websocket"@[0] != "dds"@[0]); }
    assert("sim"@ != "local"@) by { assert("sim"@[0] != "local"@[0]); }
    assert("sim"@ != "ros2"@) by { assert("sim"@[0] != "ros2"@[0]); }
    assert("sim"@ != "mqtt"@) by { assert("sim"@[0] != "mqtt"@[0]); }
    assert("sim"@ != "dds"@) by { assert("sim"@[0] != "dds"@[0]); }
    assert("sim"@ != "websocket"@) by { assert("sim"@[0] != "websocket"@[0]); }
}

/// Every identifier a transport is parsed from names it canonically or is one of the
/// link-layer aliases `ble`, `bluetooth`, `wifi`, `cellular`.
pub proof fn law_transport_ident_is_canonical_or_alias(s: Seq<char>)
    ensures
        transport_from_ident(s) matches Some(k) ==> s == transport_name(k) || s == "ble"@ || s == "bluetooth"@
            || s == "wifi"@ || s == "cellular"@,
{
}

#[derive(Debug, Clone, Copy, PartialEq, Eq, Structural)]
pub enum QosReliability {
    Reliable,
    BestEffort,
}

#[derive(Debug, Clone, Copy, PartialEq, Eq, Default, Structural)]
pub enum TopicRole {
    #[default]
    Publish,
    Subscribe,
    Both,
}

/// A named, typed field of a message declaration.
#[derive(Debug, Clone, PartialEq, Eq)]
pub struct FieldDecl {
    pub name: String,
    pub field_type: String,
}

#[derive(Debug, Clone, PartialEq, Eq)]
pub enum MessageDecl {
    MessageDecl { name: String, fields: Vec<FieldDecl>, version: Option<u32>, span: Span },
}

#[derive(Debug, Clone, PartialEq, Eq)]
pub struct MessageSchema {
    pub name: String,
    pub fields: Vec<(String, String)>,
    pub version: Option<u32>,
}

#[derive(Debug, Clone, PartialEq, Eq)]
pub enum BusDecl {
    BusDecl {
        name: String,
        transport: TransportKind,
        transport_name: Option<String>,
        broker_url: Option<String>,
        encryption: Option<String>,
        authentication: Option<String>,
        integrity: Option<String>,
        span: Span,
    },
}

#[derive(Debug, Clone, PartialEq, Eq)]
pub enum PeerRobotDecl {
    PeerRobotDecl { name: String, span: Span },
}

#[derive(Debug, Clone, PartialEq, Eq)]
pub enum DeviceDecl {
    DeviceDecl { name: String, device_type: String, span: Span },
}

#[derive(Debug, Clone, PartialEq, Eq)]
pub enum AgentChannelDecl {
    AgentChannelDecl { from_agent: String, to_agent: String, message_type: String, span: Span },
}

#[derive(Debug, Clone, PartialEq, Eq)]
pub enum TwinSyncDecl {
    TwinSyncDecl { telemetry: bool, replay: bool, faults: bool, events: bool, span: Span },
}

#[derive(Debug, Clone, Copy, PartialEq, Eq, Structural)]
pub enum DiscoverTarget {
    Robots,
    Agents,
    Devices,
}

#[derive(Debug, Clone, PartialEq, Eq)]
pub struct DiscoverFilter {
    pub capability: Option<String>,
}

#[derive(Debug, Clone, PartialEq, Eq)]
pub struct TypedServiceFields {
    pub request_type: String,
    pub response_type: String,
}

#[derive(Debug, Clone, PartialEq, Eq)]
pub struct TypedActionFields {
    pub request_type: String,
    pub feedback_type: String,
    pub result_type: String,
}

} // verus!
