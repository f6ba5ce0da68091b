//! Program-level robotics platform declaration types for the Spanda AST.
use vstd::prelude::*;
use crate::ast::Span;
use crate::text::str_eq;

verus! {

/// Known safety certification standards referenced by program metadata.
#[derive(Debug, Clone, Copy, PartialEq, Eq, Hash, Structural)]
pub enum CertificationStandard {
    Iso13849,
    Iec61508,
    Iso26262,
}

pub open spec fn standard_name(s: CertificationStandard) -> Seq<char> {
    match s {
        CertificationStandard::Iso13849 => "ISO13849"@,
        CertificationStandard::Iec61508 => "IEC61508"@,
        CertificationStandard::Iso26262 => "ISO26262"@,
    }
}

pub open spec fn standard_from_name(n: Seq<char>) -> Option<CertificationStandard> {
    if n == "ISO13849"@ {
        Some(CertificationStandard::Iso13849)
    } else if n == "IEC61508"@ {
        Some(CertificationStandard::Iec61508)
    } else if n == "ISO26262"@ {
        Some(CertificationStandard::Iso26262)
    } else {
        None
    }
}

impl CertificationStandard {
    pub fn as_str(self) -> (r: &'static str)
        ensures
            r@ == standard_name(self),
    {
        match self {
            Self::Iso13849 => "ISO13849",
            Self::Iec61508 => "IEC61508",
            Self::Iso26262 => "ISO26262",
        }
    }

    pub fn parse_ident(name: &str) -> (r: Option<Self>)
        ensures
            r == standard_from_name(name@),
    {
        if str_eq(name, "ISO13849") {
            Some(Self::Iso13849)
        } else if str_eq(name, "IEC61508") {
            Some(Self::Iec61508)
        } else if str_eq(name, "ISO26262") {
            Some(Self::Iso26262)
        } else {
            None
        }
    }

    pub fn all() -> (r: Vec<Self>)
        ensures
            r@ == seq![Self::Iso13849, Self::Iec61508, Self::Iso26262],
    {
        let r = vec![Self::Iso13849, Self::Iec61508, Self::Iso26262];
        assert(r@ =~= seq![Self::Iso13849, Self::Iec61508, Self::Iso26262]);
        r
    }
}

/// A standard's name parses back to the standard.
pub proof fn law_standard_round_trip(s: CertificationStandard)
    ensures
        standard_from_name(standard_name(s)) == Some(s),
{
    reveal_strlit("ISO13849");
    reveal_strlit("IEC61508");
    reveal_strlit("ISO26262");
    assert("IEC61508"@ != "ISO13849"@) by { assert("IEC61508"@[1] != "ISO13849"@[1]); }
    assert("ISO26262"@ != "ISO13849"@) by { assert("ISO26262"@[3] != "ISO13849"@[3]); }
    assert("ISO26262"@ != "IEC61508"@) by { assert("ISO26262"@[1] != "IEC61508"@[1]); }
}

/// A name that parses is the standard's own name.
pub proof fn law_standard_parse_exact(n: Seq<char>)
    ensures
        standard_from_name(n) matches Some(s) ==> standard_name(s) == n,
{
}

/// Program-level certification metadata (`certify ISO13849;` or block with level).
#[derive(Debug, Clone, PartialEq, Eq)]
pub enum CertifyDecl {
    CertifyDecl { standard: CertificationStandard, level: Option<String>, span: Span },
}

/// Program-level fleet grouping of robot names.
#[derive(Debug, Clone, PartialEq, Eq)]
pub enum FleetDecl {
    FleetDecl { name: String, members: Vec<String>, span: Span },
}

/// Swarm coordination policy applied to a declared fleet group.
#[derive(Debug, Clone, Copy, PartialEq, Eq, Structural)]
pub enum SwarmPolicy {
    RoundRobin,
    Broadcast,
    LeaderFollow,
}

pub open spec fn swarm_name(p: SwarmPolicy) -> Seq<char> {
    match p {
        SwarmPolicy::RoundRobin => "round_robin"@,
        SwarmPolicy::Broadcast => "broadcast"@,
        SwarmPolicy::LeaderFollow => "leader_follow"@,
    }
}

pub open spec fn swarm_from_name(n: Seq<char>) -> Option<SwarmPolicy> {
    if n == "round_robin"@ {
        Some(SwarmPolicy::RoundRobin)
    } else if n == "broadcast"@ {
        Some(SwarmPolicy::Broadcast)
    } else if n == "leader_follow"@ {
        Some(SwarmPolicy::LeaderFollow)
    } else {
        None
    }
}

impl SwarmPolicy {
    pub fn as_str(self) -> (r: &'static str)
        ensures
            r@ == swarm_name(self),
    {
        match self {
            Self::RoundRobin => "round_robin",
            Self::Broadcast => "broadcast",
            Self::LeaderFollow => "leader_follow",
        }
    }

    pub fn parse_ident(name: &str) -> (r: Option<Self>)
        ensures
            r == swarm_from_name(name@),
    {
        if str_eq(name, "round_robin") {
            Some(Self::RoundRobin)
        } else if str_eq(name, "broadcast") {
            Some(Self::Broadcast)
        } else if str_eq(name, "leader_follow") {
            Some(Self::LeaderFollow)
        } else {
            None
        }
    }
}

/// A swarm policy's name parses back to the policy.
pub proof fn law_swarm_round_trip(p: SwarmPolicy)
    ensures
        swarm_from_name(swarm_name(p)) == Some(p),
{
    reveal_strlit("round_robin");
    reveal_strlit("broadcast");
    reveal_strlit("leader_follow");
    assert("broadcast"@ != "round_robin"@) by { assert("broadcast"@[0] != "round_robin"@[0]); }
    assert("leader_follow"@ != "round_robin"@) by { assert("leader_follow"@[0] != "round_robin"@[0]); }
    assert("leader_follow"@ != "broadcast"@) by { assert("leader_follow"@[0] != "broadcast"@[0]); }
}

/// A name that parses is the policy's own name.
pub proof fn law_swarm_parse_exact(n: Seq<char>)
    ensures
        swarm_from_name(n) matches Some(p) ==> swarm_name(p) == n,
{
}

/// Program-level swarm coordinator binding a fleet to a coordination policy.
#[derive(Debug, Clone, PartialEq, Eq)]
pub enum SwarmDecl {
    SwarmDecl { name: String, fleet_name: String, policy: SwarmPolicy, span: Span },
}

} // verus!
