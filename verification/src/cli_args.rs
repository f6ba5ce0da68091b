//! Argument handling shared by the analysis commands of the CLI
//! (`chaos`, `integrity`, `explain`, `readiness`).
use vstd::prelude::*;
use crate::text::{has_prefix, list_contains, owned, str_eq, str_starts_with, str_trim, trim_spec, views};

verus! {

/// The pieces of `s` between occurrences of `sep`.
pub open spec fn split_char(s: Seq<char>, sep: char) -> Seq<Seq<char>>
    decreases s.len(),
{
    if s.len() == 0 {
        seq![seq![]]
    } else if s.last() == sep {
        split_char(s.drop_last(), sep).push(seq![])
    } else {
        let r = split_char(s.drop_last(), sep);
        r.update(r.len() - 1, r.last().push(s.last()))
    }
}

proof fn lemma_split_char_nonempty(s: Seq<char>, sep: char)
    ensures
        split_char(s, sep).len() >= 1,
    decreases s.len(),
{
    if s.len() > 0 {
        lemma_split_char_nonempty(s.drop_last(), sep);
    }
}

/// The pieces trimmed, with the blank ones left out.
pub open spec fn trimmed_nonblank(pieces: Seq<Seq<char>>) -> Seq<Seq<char>>
    decreases pieces.len(),
{
    if pieces.len() == 0 {
        seq![]
    } else if trim_spec(pieces.last()).len() > 0 {
        trimmed_nonblank(pieces.drop_last()).push(trim_spec(pieces.last()))
    } else {
        trimmed_nonblank(pieces.drop_last())
    }
}

/// The comma-separated entries of a list, trimmed, blank ones left out.
pub fn split_list(value: &str) -> (r: Vec<String>)
    ensures
        views(r@) == trimmed_nonblank(split_char(value@, ',')),
{
    let n = value.unicode_len();
    let mut out: Vec<String> = Vec::new();
    let mut current = String::new();
    let mut i: usize = 0;
    while i < n
        invariant
            i <= n,
            n == value@.len(),
            split_char(value@.take(i as int), ',').len() >= 1,
            current@ == split_char(value@.take(i as int), ',').last(),
            views(out@) == trimmed_nonblank(split_char(value@.take(i as int), ',').drop_last()),
        decreases n - i,
    {
        let c = value.get_char(i);
        let ghost before = value@.take(i as int);
        assert(value@.take(i + 1).drop_last() =~= before);
        proof {
            lemma_split_char_nonempty(before, ',');
        }
        if c == ',' {
            let piece = str_trim(current.as_str());
            let ghost out_before = out@;
            if piece.unicode_len() > 0 {
                let s = owned(piece);
                out.push(s);
                proof {
                    crate::text::lemma_views_push(out_before, s);
                }
            }
            current = String::new();
            proof {
                let l = split_char(before, ',');
                assert(split_char(value@.take(i + 1), ',') == l.push(seq![]));
                assert(l.push(seq![]).drop_last() =~= l);
                assert(l.drop_last().push(l.last()) =~= l);
                assert(trimmed_nonblank(l) == (if trim_spec(l.last()).len() > 0 {
                    trimmed_nonblank(l.drop_last()).push(trim_spec(l.last()))
                } else {
                    trimmed_nonblank(l.drop_last())
                }));
            }
        } else {
            crate::text::push_char(&mut current, c);
            proof {
                let l = split_char(before, ',');
                let u = l.update(l.len() - 1, l.last().push(c));
                assert(split_char(value@.take(i + 1), ',') == u);
                assert(u.drop_last() =~= l.drop_last());
            }
        }
        i = i + 1;
    }
    assert(value@.take(n as int) =~= value@);
    let piece = str_trim(current.as_str());
    let ghost out_before = out@;
    proof {
        lemma_split_char_nonempty(value@, ',');
        let l = split_char(value@, ',');
        assert(l.drop_last().push(l.last()) =~= l);
    }
    if piece.unicode_len() > 0 {
        let s = owned(piece);
        out.push(s);
        proof {
            crate::text::lemma_views_push(out_before, s);
        }
    }
    out
}

/// The value after the first occurrence of `flag` that has one.
pub open spec fn flag_value_spec(args: Seq<Seq<char>>, flag: Seq<char>) -> Option<Seq<char>>
    decreases args.len(),
{
    if args.len() < 2 {
        None
    } else if args[0] == flag {
        Some(args[1])
    } else {
        flag_value_spec(args.drop_first(), flag)
    }
}

/// The value following `flag` (`--baseline <file>`, `--inject <list>`, ..).
pub fn flag_value(args: &Vec<String>, flag: &str) -> (r: Option<String>)
    ensures
        match r {
            Some(v) => flag_value_spec(views(args@), flag@) == Some(v@),
            None => flag_value_spec(views(args@), flag@) is None,
        },
{
    let ghost av = views(args@);
    let mut i: usize = 0;
    assert(av.skip(0) =~= av);
    while i < args.len() && i + 1 < args.len()
        invariant
            av == views(args@),
            i <= args@.len(),
            flag_value_spec(av, flag@) == flag_value_spec(av.skip(i as int), flag@),
        decreases args@.len() - i,
    {
        assert(av.skip(i as int)[0] == args@[i as int]@);
        assert(av.skip(i as int)[1] == args@[i + 1]@);
        if str_eq(args[i].as_str(), flag) {
            return Some(owned(args[i + 1].as_str()));
        }
        assert(av.skip(i as int).drop_first() =~= av.skip(i + 1));
        i = i + 1;
    }
    None
}

/// Whether `--json` is among the arguments.
pub fn json_flag(args: &Vec<String>) -> (r: bool)
    ensures
        r == views(args@).contains("--json"@),
{
    list_contains(args, "--json")
}

/// The first argument that is not an option.
pub open spec fn first_positional(args: Seq<Seq<char>>) -> Option<Seq<char>>
    decreases args.len(),
{
    if args.len() == 0 {
        None
    } else if !has_prefix(args[0], "-"@) {
        Some(args[0])
    } else {
        first_positional(args.drop_first())
    }
}

/// The file argument of `explain`: the first argument that is not an option.
pub fn file_arg(args: &Vec<String>) -> (r: Option<String>)
    ensures
        match r {
            Some(v) => first_positional(views(args@)) == Some(v@),
            None => first_positional(views(args@)) is None,
        },
{
    let ghost av = views(args@);
    let mut i: usize = 0;
    assert(av.skip(0) =~= av);
    while i < args.len()
        invariant
            av == views(args@),
            i <= args@.len(),
            first_positional(av) == first_positional(av.skip(i as int)),
        decreases args@.len() - i,
    {
        assert(av.skip(i as int)[0] == args@[i as int]@);
        if !str_starts_with(args[i].as_str(), "-") {
            return Some(owned(args[i].as_str()));
        }
        assert(av.skip(i as int).drop_first() =~= av.skip(i + 1));
        i = i + 1;
    }
    assert(av.skip(i as int) =~= seq![]);
    None
}

/// The first positional argument when the options in `with_value` take the
/// next argument as their value.
pub open spec fn positional_skipping(args: Seq<Seq<char>>, i: int, with_value: Seq<Seq<char>>) -> Option<Seq<char>>
    decreases args.len() + 1 - i,
{
    if i < 0 || i >= args.len() {
        None
    } else if with_value.contains(args[i]) {
        positional_skipping(args, i + 2, with_value)
    } else if !has_prefix(args[i], "-"@) {
        Some(args[i])
    } else {
        positional_skipping(args, i + 1, with_value)
    }
}

/// The file argument of a command whose options `with_value` take a value
/// (`chaos`: `--inject`; `integrity`: `--baseline`, `--agent`).
pub fn file_arg_skipping(args: &Vec<String>, with_value: &Vec<String>) -> (r: Option<String>)
    ensures
        match r {
            Some(v) => positional_skipping(views(args@), 0, views(with_value@)) == Some(v@),
            None => positional_skipping(views(args@), 0, views(with_value@)) is None,
        },
{
    let ghost av = views(args@);
    let ghost wv = views(with_value@);
    let mut i: usize = 0;
    while i < args.len()
        invariant
            av == views(args@),
            wv == views(with_value@),
            i <= args@.len(),
            positional_skipping(av, 0, wv) == positional_skipping(av, i as int, wv),
        decreases args@.len() - i,
    {
        let a = args[i].as_str();
        assert(av[i as int] == a@);
        if list_contains(with_value, a) {
            if i + 1 < args.len() {
                i = i + 2;
            } else {
                assert(positional_skipping(av, i + 2, wv) == positional_skipping(av, args@.len() as int, wv));
                i = args.len();
            }
        } else if !str_starts_with(a, "-") {
            return Some(owned(a));
        } else {
            i = i + 1;
        }
    }
    None
}

/// The injections `--inject` lists, or none when it is absent.
pub fn parse_injections(args: &Vec<String>) -> (r: Vec<String>)
    ensures
        views(r@) == (match flag_value_spec(views(args@), "--inject"@) {
            Some(v) => trimmed_nonblank(split_char(v, ',')),
            None => seq![],
        }),
{
    match flag_value(args, "--inject") {
        Some(v) => split_list(v.as_str()),
        None => {
            let r: Vec<String> = Vec::new();
            assert(views(r@) =~= seq![]);
            r
        },
    }
}

/// Report formats of the readiness and assurance commands.
#[derive(Debug, Clone, Copy, PartialEq, Eq, Structural)]
pub enum ReportFormat {
    Text,
    Json,
    Markdown,
    Html,
}

pub open spec fn report_format_spec(args: Seq<Seq<char>>) -> ReportFormat {
    if args.contains("--json"@) {
        ReportFormat::Json
    } else if args.contains("--markdown"@) {
        ReportFormat::Markdown
    } else if args.contains("--html"@) {
        ReportFormat::Html
    } else {
        ReportFormat::Text
    }
}

/// The report format: `--json`, else `--markdown`, else `--html`, else text.
pub fn parse_report_format(args: &Vec<String>) -> (r: ReportFormat)
    ensures
        r == report_format_spec(views(args@)),
{
    if list_contains(args, "--json") {
        ReportFormat::Json
    } else if list_contains(args, "--markdown") {
        ReportFormat::Markdown
    } else if list_contains(args, "--html") {
        ReportFormat::Html
    } else {
        ReportFormat::Text
    }
}

/// Arguments of `spanda readiness`.
#[derive(Debug, Clone, PartialEq, Eq)]
pub struct ReadinessArgs {
    pub format: ReportFormat,
    pub file: String,
    pub target: Option<String>,
    pub include_runtime: bool,
    pub inject_health_faults: bool,
    pub simulate: bool,
    pub strict: bool,
    pub agent_json: bool,
}

pub struct ReadinessScan {
    pub target: Option<Seq<char>>,
    pub include_runtime: bool,
    pub inject_health_faults: bool,
    pub simulate: bool,
    pub strict: bool,
    pub agent_json: bool,
    pub file: Option<Seq<char>>,
}

pub open spec fn readiness_scan(args: Seq<Seq<char>>, i: int, acc: ReadinessScan) -> Result<ReadinessScan, Seq<char>>
    decreases args.len() - i,
{
    if i < 0 || i >= args.len() {
        Ok(acc)
    } else if args[i] == "--json"@ || args[i] == "--markdown"@ || args[i] == "--html"@ {
        readiness_scan(args, i + 1, acc)
    } else if args[i] == "--agent-json"@ {
        readiness_scan(args, i + 1, ReadinessScan { agent_json: true, ..acc })
    } else if args[i] == "--target"@ {
        if i + 1 >= args.len() {
            Err("--target requires a hardware profile name"@)
        } else {
            readiness_scan(args, i + 2, ReadinessScan { target: Some(args[i + 1]), ..acc })
        }
    } else if args[i] == "--runtime"@ {
        readiness_scan(args, i + 1, ReadinessScan { include_runtime: true, ..acc })
    } else if args[i] == "--inject-health-faults"@ {
        readiness_scan(args, i + 1, ReadinessScan { include_runtime: true, inject_health_faults: true, ..acc })
    } else if args[i] == "--simulate"@ {
        readiness_scan(args, i + 1, ReadinessScan { simulate: true, ..acc })
    } else if args[i] == "--strict"@ {
        readiness_scan(args, i + 1, ReadinessScan { strict: true, ..acc })
    } else if !has_prefix(args[i], "-"@) && acc.file is None {
        readiness_scan(args, i + 1, ReadinessScan { file: Some(args[i]), ..acc })
    } else {
        Err("Unknown argument: "@ + args[i])
    }
}

pub open spec fn readiness_init() -> ReadinessScan {
    ReadinessScan {
        target: None,
        include_runtime: false,
        inject_health_faults: false,
        simulate: false,
        strict: false,
        agent_json: false,
        file: None,
    }
}

/// The readiness arguments as (format, file, target, runtime, health faults,
/// simulate, strict, agent JSON), or the message the command fails with.
pub open spec fn readiness_args_spec(args: Seq<Seq<char>>) -> Result<
    (ReportFormat, Seq<char>, Option<Seq<char>>, bool, bool, bool, bool, bool),
    Seq<char>,
> {
    match readiness_scan(args, 0, readiness_init()) {
        Ok(acc) => match acc.file {
            Some(f) => Ok(
                (
                    report_format_spec(args),
                    f,
                    acc.target,
                    acc.include_runtime,
                    acc.inject_health_faults,
                    acc.simulate,
                    acc.strict,
                    acc.agent_json,
                ),
            ),
            None => Err("Missing file path"@),
        },
        Err(e) => Err(e),
    }
}

/// Parse the arguments of `spanda readiness`.
pub fn parse_readiness_args(args: &Vec<String>) -> (r: Result<ReadinessArgs, String>)
    ensures
        match r {
            Ok(a) => readiness_args_spec(views(args@)) == Ok::<
                (ReportFormat, Seq<char>, Option<Seq<char>>, bool, bool, bool, bool, bool),
                Seq<char>,
            >(
                (
                    a.format,
                    a.file@,
                    crate::robot::opt_view(a.target),
                    a.include_runtime,
                    a.inject_health_faults,
                    a.simulate,
                    a.strict,
                    a.agent_json,
                ),
            ),
            Err(e) => readiness_args_spec(views(args@)) == Err::<
                (ReportFormat, Seq<char>, Option<Seq<char>>, bool, bool, bool, bool, bool),
                Seq<char>,
            >(e@),
        },
{
    let ghost av = views(args@);
    let format = parse_report_format(args);
    let mut target: Option<String> = None;
    let mut include_runtime = false;
    let mut inject_health_faults = false;
    let mut simulate = false;
    let mut strict = false;
    let mut agent_json = false;
    let mut file: Option<String> = None;
    let mut i: usize = 0;
    while i < args.len()
        invariant
            av == views(args@),
            i <= args@.len(),
            readiness_scan(av, 0, readiness_init()) == readiness_scan(
                av,
                i as int,
                ReadinessScan {
                    target: crate::robot::opt_view(target),
                    include_runtime,
                    inject_health_faults,
                    simulate,
                    strict,
                    agent_json,
                    file: crate::robot::opt_view(file),
                },
            ),
        decreases args@.len() - i,
    {
        let a = args[i].as_str();
        assert(av[i as int] == a@);
        if str_eq(a, "--json") || str_eq(a, "--markdown") || str_eq(a, "--html") {
            i = i + 1;
        } else if str_eq(a, "--agent-json") {
            agent_json = true;
            i = i + 1;
        } else if str_eq(a, "--target") {
            if i + 1 >= args.len() {
                return Err(owned("--target requires a hardware profile name"));
            }
            target = Some(owned(args[i + 1].as_str()));
            assert(av[i + 1] == args@[i + 1]@);
            i = i + 2;
        } else if str_eq(a, "--runtime") {
            include_runtime = true;
            i = i + 1;
        } else if str_eq(a, "--inject-health-faults") {
            include_runtime = true;
            inject_health_faults = true;
            i = i + 1;
        } else if str_eq(a, "--simulate") {
            simulate = true;
            i = i + 1;
        } else if str_eq(a, "--strict") {
            strict = true;
            i = i + 1;
        } else if !str_starts_with(a, "-") && file.is_none() {
            file = Some(owned(a));
            i = i + 1;
        } else {
            return Err(crate::text::cat2("Unknown argument: ", a));
        }
    }
    match file {
        Some(f) => Ok(
            ReadinessArgs { format, file: f, target, include_runtime, inject_health_faults, simulate, strict, agent_json },
        ),
        None => Err(owned("Missing file path")),
    }
}


/// The position of the first `--inject-failure` or `--failure`.
pub open spec fn failure_flag_at(args: Seq<Seq<char>>, i: int) -> Option<int>
    decreases args.len() - i,
{
    if i < 0 || i >= args.len() {
        None
    } else if args[i] == "--inject-failure"@ || args[i] == "--failure"@ {
        Some(i)
    } else {
        failure_flag_at(args, i + 1)
    }
}

/// The value after the first failure flag, when that flag has one.
pub open spec fn failure_arg_spec(args: Seq<Seq<char>>) -> Option<Seq<char>> {
    match failure_flag_at(args, 0) {
        Some(i) => if i + 1 < args.len() {
            Some(args[i + 1])
        } else {
            None
        },
        None => None,
    }
}

/// The failure a recovery command injects (`--inject-failure <f>` or `--failure <f>`).
pub fn failure_arg(args: &Vec<String>) -> (r: Option<String>)
    ensures
        match r {
            Some(v) => failure_arg_spec(views(args@)) == Some(v@),
            None => failure_arg_spec(views(args@)) is None,
        },
{
    let ghost av = views(args@);
    let mut i: usize = 0;
    while i < args.len()
        invariant
            av == views(args@),
            i <= args@.len(),
            failure_flag_at(av, 0) == failure_flag_at(av, i as int),
        decreases args@.len() - i,
    {
        let a = args[i].as_str();
        assert(av[i as int] == a@);
        if str_eq(a, "--inject-failure") || str_eq(a, "--failure") {
            if i + 1 < args.len() {
                assert(av[i + 1] == args@[i + 1]@);
                return Some(owned(args[i + 1].as_str()));
            }
            return None;
        }
        i = i + 1;
    }
    None
}

/// The positional arguments, in order.
pub open spec fn positionals(args: Seq<Seq<char>>) -> Seq<Seq<char>>
    decreases args.len(),
{
    if args.len() == 0 {
        seq![]
    } else if has_prefix(args.last(), "-"@) {
        positionals(args.drop_last())
    } else {
        positionals(args.drop_last()).push(args.last())
    }
}

/// The baseline and candidate files of `spanda diff`: its first two
/// positional arguments, when there are two.
pub fn diff_file_args(args: &Vec<String>) -> (r: Option<(String, String)>)
    ensures
        match r {
            Some((a, b)) => positionals(views(args@)).len() >= 2 && a@ == positionals(views(args@))[0] && b@
                == positionals(views(args@))[1],
            None => positionals(views(args@)).len() < 2,
        },
{
    let ghost av = views(args@);
    let mut files: Vec<String> = Vec::new();
    let mut i: usize = 0;
    assert(av.take(0) =~= seq![]);
    while i < args.len()
        invariant
            av == views(args@),
            i <= args@.len(),
            views(files@) == positionals(av.take(i as int)),
        decreases args@.len() - i,
    {
        let a = args[i].as_str();
        assert(av.take(i + 1).drop_last() =~= av.take(i as int));
        assert(av.take(i + 1).last() == a@);
        if !str_starts_with(a, "-") {
            let s = owned(a);
            let ghost before = files@;
            files.push(s);
            proof {
                crate::text::lemma_views_push(before, s);
            }
        }
        i = i + 1;
    }
    assert(av.take(args@.len() as int) =~= av);
    if files.len() < 2 {
        return None;
    }
    assert(views(files@)[0] == files@[0]@ && views(files@)[1] == files@[1]@);
    Some((owned(files[0].as_str()), owned(files[1].as_str())))
}

/// Subcommands of `spanda recovery`.
#[derive(Debug, Clone, Copy, PartialEq, Eq, Structural)]
pub enum RecoveryCommand {
    /// `plan` or `report`.
    Report,
    Knowledge,
    /// Anything else: print the usage.
    Usage,
}

/// The recovery subcommand named by the first argument.
pub fn recovery_command(args: &Vec<String>) -> (r: RecoveryCommand)
    ensures
        r == (if args@.len() > 0 && (args@[0]@ == "plan"@ || args@[0]@ == "report"@) {
            RecoveryCommand::Report
        } else if args@.len() > 0 && args@[0]@ == "knowledge"@ {
            RecoveryCommand::Knowledge
        } else {
            RecoveryCommand::Usage
        }),
{
    if args.len() == 0 {
        return RecoveryCommand::Usage;
    }
    let first = args[0].as_str();
    if str_eq(first, "plan") || str_eq(first, "report") {
        RecoveryCommand::Report
    } else if str_eq(first, "knowledge") {
        RecoveryCommand::Knowledge
    } else {
        RecoveryCommand::Usage
    }
}


/// Subcommands of `spanda explain`.
#[derive(Debug, Clone, Copy, PartialEq, Eq, Structural)]
pub enum ExplainCommand {
    Readiness,
    Verify,
    Safety,
    Decision,
    /// The first argument is a mission trace (`.trace` or `.json`).
    Trace,
    /// The first argument is a program (`.sd`).
    Program,
    /// No or an unknown first argument: print the usage.
    Usage,
}

pub open spec fn explain_spec(first: Seq<char>) -> ExplainCommand {
    if first == "readiness"@ {
        ExplainCommand::Readiness
    } else if first == "verify"@ {
        ExplainCommand::Verify
    } else if first == "safety"@ {
        ExplainCommand::Safety
    } else if first == "decision"@ {
        ExplainCommand::Decision
    } else if first == ""@ {
        ExplainCommand::Usage
    } else if crate::text::has_suffix(first, ".trace"@) || crate::text::has_suffix(first, ".json"@) {
        ExplainCommand::Trace
    } else if crate::text::has_suffix(first, ".sd"@) {
        ExplainCommand::Program
    } else {
        ExplainCommand::Usage
    }
}

/// What `spanda explain` does with its first argument (none counts as empty).
pub fn explain_command(args: &Vec<String>) -> (r: ExplainCommand)
    ensures
        r == explain_spec(if args@.len() > 0 { args@[0]@ } else { ""@ }),
{
    let first: &str = if args.len() > 0 {
        args[0].as_str()
    } else {
        ""
    };
    if str_eq(first, "readiness") {
        ExplainCommand::Readiness
    } else if str_eq(first, "verify") {
        ExplainCommand::Verify
    } else if str_eq(first, "safety") {
        ExplainCommand::Safety
    } else if str_eq(first, "decision") {
        ExplainCommand::Decision
    } else if str_eq(first, "") {
        ExplainCommand::Usage
    } else if crate::text::str_ends_with(first, ".trace") || crate::text::str_ends_with(first, ".json") {
        ExplainCommand::Trace
    } else if crate::text::str_ends_with(first, ".sd") {
        ExplainCommand::Program
    } else {
        ExplainCommand::Usage
    }
}

} // verus!
