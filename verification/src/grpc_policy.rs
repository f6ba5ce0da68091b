//! gRPC protobuf semver and compatibility policy for Control Center.
use vstd::prelude::*;
use crate::text::{has_prefix, str_starts_with, str_trim, trim_spec};

verus! {

/// Protobuf package name (`package` directive in `.proto`).
pub const PROTO_PACKAGE: &'static str = "spanda.v1";

/// Semver for the published `control_center.proto` contract (independent of crate version).
pub const PROTO_SEMVER: &'static str = "1.0.4";

/// Relative path to the proto file from the API crate root.
pub const PROTO_FILE: &'static str = "proto/spanda/v1/control_center.proto";

/// gRPC server reflection is not enabled; clients must pin the published proto file.
pub const REFLECTION_ENABLED: bool = false;

/// The pieces of `s` between newlines (a trailing `\r` stays with its piece).
pub open spec fn split_lines(s: Seq<char>) -> Seq<Seq<char>>
    decreases s.len(),
{
    if s.len() == 0 {
        seq![seq![]]
    } else if s.last() == '\n' {
        split_lines(s.drop_last()).push(seq![])
    } else {
        let r = split_lines(s.drop_last());
        r.update(r.len() - 1, r.last().push(s.last()))
    }
}

/// A line that declares an RPC method: `rpc ` after leading white space.
pub open spec fn is_rpc_line(line: Seq<char>) -> bool {
    has_prefix(trim_spec(line), "rpc "@)
}

pub open spec fn count_rpc_lines(lines: Seq<Seq<char>>) -> nat
    decreases lines.len(),
{
    if lines.len() == 0 {
        0
    } else {
        count_rpc_lines(lines.drop_last()) + (if is_rpc_line(lines.last()) { 1nat } else { 0nat })
    }
}

proof fn lemma_split_lines_len(s: Seq<char>)
    ensures
        1 <= split_lines(s).len() <= s.len() + 1,
    decreases s.len(),
{
    if s.len() > 0 {
        lemma_split_lines_len(s.drop_last());
    }
}

proof fn lemma_count_le(lines: Seq<Seq<char>>)
    ensures
        count_rpc_lines(lines) <= lines.len(),
    decreases lines.len(),
{
    if lines.len() > 0 {
        lemma_count_le(lines.drop_last());
    }
}

/// Count the `rpc` methods declared in a proto file: the lines whose text,
/// with surrounding white space removed, starts with `rpc `.
pub fn control_center_rpc_count(proto: &str) -> (r: usize)
    ensures
        r == count_rpc_lines(split_lines(proto@)),
{
    let n = proto.unicode_len();
    let mut count: usize = 0;
    let mut current = String::new();
    let mut i: usize = 0;
    while i < n
        invariant
            i <= n,
            n == proto@.len(),
            split_lines(proto@.take(i as int)).len() >= 1,
            current@ == split_lines(proto@.take(i as int)).last(),
            count == count_rpc_lines(split_lines(proto@.take(i as int)).drop_last()),
            count + current@.len() <= i,
        decreases n - i,
    {
        let c = proto.get_char(i);
        let ghost before = proto@.take(i as int);
        assert(proto@.take(i + 1).drop_last() =~= before);
        proof {
            lemma_split_lines_len(before);
        }
        if c == '\n' {
            let trimmed = str_trim(current.as_str());
            if str_starts_with(trimmed, "rpc ") {
                count = count + 1;
            }
            current = String::new();
            proof {
                let l = split_lines(before);
                assert(split_lines(proto@.take(i + 1)) == l.push(seq![]));
                assert(l.push(seq![]).drop_last() =~= l);
                assert(l =~= l.drop_last().push(l.last()));
            }
        } else {
            crate::text::push_char(&mut current, c);
            proof {
                let l = split_lines(before);
                let u = l.update(l.len() - 1, l.last().push(c));
                assert(split_lines(proto@.take(i + 1)) == u);
                assert(u.drop_last() =~= l.drop_last());
            }
        }
        i = i + 1;
    }
    assert(proto@.take(n as int) =~= proto@);
    let trimmed = str_trim(current.as_str());
    proof {
        let l = split_lines(proto@);
        assert(l =~= l.drop_last().push(l.last()));
        lemma_split_lines_len(proto@);
        lemma_count_le(l.drop_last());
    }
    if str_starts_with(trimmed, "rpc ") {
        proof {
            crate::text::lemma_trim_len(current@);
            reveal_strlit("rpc ");
        }
        count = count + 1;
    }
    count
}

} // verus!
