//! Command line of `spanda trust`: whether it targets a program or a registry
//! package, and what the program trust command's arguments ask for.
use vstd::prelude::*;
use crate::text::{cat2, has_prefix, has_suffix, owned, str_ends_with, str_eq, str_starts_with, views};

verus! {

/// Output format of the composite trust report.
#[derive(Debug, Clone, Copy, PartialEq, Eq, Structural)]
pub enum TrustFormat {
    Text,
    Json,
    Markdown,
}

/// What `spanda trust` evaluates.
#[derive(Debug, Clone, Copy, PartialEq, Eq, Structural)]
pub enum TrustTarget {
    /// Composite trust of a `.sd` program file.
    Program,
    /// Trust of a registry package.
    Package,
}

/// The first argument that is not an option nor a bare format name.
pub open spec fn target_arg(args: Seq<Seq<char>>) -> Option<Seq<char>>
    decreases args.len(),
{
    if args.len() == 0 {
        None
    } else if !has_prefix(args[0], "-"@) && args[0] != "json"@ && args[0] != "markdown"@ {
        Some(args[0])
    } else {
        target_arg(args.drop_first())
    }
}

pub open spec fn trust_target_spec(args: Seq<Seq<char>>) -> TrustTarget {
    match target_arg(args) {
        Some(t) => if has_suffix(t, ".sd"@) {
            TrustTarget::Program
        } else {
            TrustTarget::Package
        },
        None => TrustTarget::Package,
    }
}

/// Dispatch `spanda trust` by the shape of its target: a `.sd` file is a
/// program, anything else a package.
pub fn cmd_trust(args: &Vec<String>) -> (r: TrustTarget)
    ensures
        r == trust_target_spec(views(args@)),
{
    let ghost av = views(args@);
    let mut i: usize = 0;
    assert(av.skip(0) =~= av);
    while i < args.len()
        invariant
            av == views(args@),
            i <= args@.len(),
            target_arg(av) == target_arg(av.skip(i as int)),
        decreases args@.len() - i,
    {
        let a = args[i].as_str();
        assert(av.skip(i as int)[0] == a@);
        if !str_starts_with(a, "-") && !str_eq(a, "json") && !str_eq(a, "markdown") {
            if str_ends_with(a, ".sd") {
                return TrustTarget::Program;
            }
            return TrustTarget::Package;
        }
        assert(av.skip(i as int).drop_first() =~= av.skip(i + 1));
        i = i + 1;
    }
    assert(av.skip(i as int) =~= seq![]);
    TrustTarget::Package
}

/// The format named after the first `--format` that has a value.
pub open spec fn format_scan(args: Seq<Seq<char>>, i: int) -> TrustFormat
    decreases args.len() - i,
{
    if i < 0 || i >= args.len() {
        TrustFormat::Text
    } else if args[i] == "--format"@ && i + 1 < args.len() {
        if args[i + 1] == "markdown"@ || args[i + 1] == "md"@ {
            TrustFormat::Markdown
        } else if args[i + 1] == "json"@ {
            TrustFormat::Json
        } else {
            TrustFormat::Text
        }
    } else {
        format_scan(args, i + 1)
    }
}

/// `--json` anywhere selects JSON; otherwise the first `--format <value>` decides.
pub open spec fn trust_format_spec(args: Seq<Seq<char>>) -> TrustFormat {
    if args.contains("--json"@) {
        TrustFormat::Json
    } else {
        format_scan(args, 0)
    }
}

/// The report format the trust arguments ask for.
pub fn parse_trust_format(args: &Vec<String>) -> (r: TrustFormat)
    ensures
        r == trust_format_spec(views(args@)),
{
    if crate::text::list_contains(args, "--json") {
        return TrustFormat::Json;
    }
    let ghost av = views(args@);
    let mut i: usize = 0;
    while i < args.len()
        invariant
            av == views(args@),
            i <= args@.len(),
            !av.contains("--json"@),
            format_scan(av, 0) == format_scan(av, i as int),
        decreases args@.len() - i,
    {
        let a = args[i].as_str();
        assert(av[i as int] == a@);
        if str_eq(a, "--format") && i + 1 < args.len() {
            let value = args[i + 1].as_str();
            assert(av[i + 1] == value@);
            if str_eq(value, "markdown") || str_eq(value, "md") {
                return TrustFormat::Markdown;
            } else if str_eq(value, "json") {
                return TrustFormat::Json;
            } else {
                return TrustFormat::Text;
            }
        }
        i = i + 1;
    }
    TrustFormat::Text
}

/// Arguments of the program trust command.
#[derive(Debug, Clone, PartialEq, Eq)]
pub struct ProgramTrustArgs {
    pub program_path: String,
    pub project: Option<String>,
    pub format: TrustFormat,
}

pub open spec fn trust_usage() -> Seq<char> {
    "Usage: spanda trust <file.sd> [--project <dir>] [--json] [--format text|json|markdown]"@
}

/// The program path and project directory, scanned from argument `i` on.
pub open spec fn trust_scan(args: Seq<Seq<char>>, i: int, path: Option<Seq<char>>, project: Option<Seq<char>>) -> Result<
    (Option<Seq<char>>, Option<Seq<char>>),
    Seq<char>,
>
    decreases args.len() + 1 - i,
{
    if i < 0 || i >= args.len() {
        Ok((path, project))
    } else if args[i] == "--project"@ {
        if i + 1 >= args.len() {
            Err("--project requires a directory path"@)
        } else {
            trust_scan(args, i + 2, path, Some(args[i + 1]))
        }
    } else if args[i] == "--json"@ {
        trust_scan(args, i + 1, path, project)
    } else if args[i] == "--format"@ {
        trust_scan(args, i + 2, path, project)
    } else if !has_prefix(args[i], "-"@) && path is None {
        trust_scan(args, i + 1, Some(args[i]), project)
    } else {
        Err("Unknown argument: "@ + args[i])
    }
}

pub open spec fn program_trust_spec(args: Seq<Seq<char>>) -> Result<
    (Seq<char>, Option<Seq<char>>, TrustFormat),
    Seq<char>,
> {
    match trust_scan(args, 0, None, None) {
        Ok((Some(p), project)) => Ok((p, project, trust_format_spec(args))),
        Ok((None, _)) => Err(trust_usage()),
        Err(e) => Err(e),
    }
}

/// Parse the arguments of the program trust command.
pub fn parse_program_trust_args(args: &Vec<String>) -> (r: Result<ProgramTrustArgs, String>)
    ensures
        match r {
            Ok(a) => program_trust_spec(views(args@)) == Ok::<
                (Seq<char>, Option<Seq<char>>, TrustFormat),
                Seq<char>,
            >((a.program_path@, crate::robot::opt_view(a.project), a.format)),
            Err(e) => program_trust_spec(views(args@)) == Err::<
                (Seq<char>, Option<Seq<char>>, TrustFormat),
                Seq<char>,
            >(e@),
        },
{
    let ghost av = views(args@);
    let mut path: Option<String> = None;
    let mut project: Option<String> = None;
    let mut i: usize = 0;
    while i < args.len()
        invariant
            av == views(args@),
            i <= args@.len(),
            trust_scan(av, 0, None, None) == trust_scan(
                av,
                i as int,
                crate::robot::opt_view(path),
                crate::robot::opt_view(project),
            ),
        decreases args@.len() - i,
    {
        let a = args[i].as_str();
        assert(av[i as int] == a@);
        if str_eq(a, "--project") {
            if i + 1 >= args.len() {
                return Err(owned("--project requires a directory path"));
            }
            project = Some(owned(args[i + 1].as_str()));
            assert(av[i + 1] == args@[i + 1]@);
            i = i + 2;
        } else if str_eq(a, "--json") {
            i = i + 1;
        } else if str_eq(a, "--format") {
            if i + 1 < args.len() {
                i = i + 2;
            } else {
                assert(trust_scan(av, i + 2, crate::robot::opt_view(path), crate::robot::opt_view(project))
                    == trust_scan(av, args@.len() as int, crate::robot::opt_view(path), crate::robot::opt_view(project)));
                i = args.len();
            }
        } else if !str_starts_with(a, "-") && path.is_none() {
            path = Some(owned(a));
            i = i + 1;
        } else {
            return Err(cat2("Unknown argument: ", a));
        }
    }
    match path {
        Some(p) => {
            let format = parse_trust_format(args);
            Ok(ProgramTrustArgs { program_path: p, project, format })
        },
        None => Err(
            owned("Usage: spanda trust <file.sd> [--project <dir>] [--json] [--format text|json|markdown]"),
        ),
    }
}

} // verus!
