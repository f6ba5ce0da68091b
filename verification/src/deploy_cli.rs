//! Command lines of `spanda deploy plan|rollout|rollback|status` and
//! `spanda fleet orchestrate`: which subcommand runs and what its arguments
//! ask for.
use vstd::prelude::*;
use crate::text::{has_prefix, owned, parse_u8, parse_u8_spec, str_eq, str_starts_with, views};

verus! {

/// The usage lines of the deploy subcommands.
pub fn deploy_usage_lines() -> (r: &'static str)
    ensures
        r@ == deploy_usage_text(),
{
    "           spanda deploy plan [--json] [--version <ver>] <file.sd>\nspanda deploy rollout [--json] [--strategy all|canary|staged] [--canary-percent N] [--version <ver>] [--dry-run] <file.sd>\nspanda deploy rollback [--json] <file.sd>\nspanda deploy status [--json]\nspanda deploy --target wasm [--out <file.json>] <file.sd>"
}

pub open spec fn deploy_usage_text() -> Seq<char> {
    "           spanda deploy plan [--json] [--version <ver>] <file.sd>\nspanda deploy rollout [--json] [--strategy all|canary|staged] [--canary-percent N] [--version <ver>] [--dry-run] <file.sd>\nspanda deploy rollback [--json] <file.sd>\nspanda deploy status [--json]\nspanda deploy --target wasm [--out <file.json>] <file.sd>"@
}

/// The deploy subcommand a command line selects.
#[derive(Debug, Clone, PartialEq, Eq)]
pub enum DeployCommand {
    Plan,
    Rollout,
    Rollback,
    Status,
    /// A first word that names no subcommand.
    Unknown(String),
    /// No subcommand: print the usage.
    Usage,
}

pub open spec fn deploy_command_spec(args: Seq<Seq<char>>) -> (Option<int>, Option<Seq<char>>) {
    if args.len() == 0 {
        (None, None)
    } else if args[0] == "plan"@ {
        (Some(0), None)
    } else if args[0] == "rollout"@ {
        (Some(1), None)
    } else if args[0] == "rollback"@ {
        (Some(2), None)
    } else if args[0] == "status"@ {
        (Some(3), None)
    } else if !has_prefix(args[0], "-"@) {
        (None, Some(args[0]))
    } else {
        (None, None)
    }
}

pub open spec fn command_code(c: DeployCommand) -> (Option<int>, Option<Seq<char>>) {
    match c {
        DeployCommand::Plan => (Some(0), None),
        DeployCommand::Rollout => (Some(1), None),
        DeployCommand::Rollback => (Some(2), None),
        DeployCommand::Status => (Some(3), None),
        DeployCommand::Unknown(s) => (None, Some(s@)),
        DeployCommand::Usage => (None, None),
    }
}

/// Select the deploy subcommand from the first argument; the rest of the
/// arguments belong to it.
pub fn deploy_command(args: &Vec<String>) -> (r: DeployCommand)
    ensures
        command_code(r) == deploy_command_spec(views(args@)),
{
    if args.len() == 0 {
        return DeployCommand::Usage;
    }
    let first = args[0].as_str();
    assert(views(args@)[0] == first@);
    if str_eq(first, "plan") {
        DeployCommand::Plan
    } else if str_eq(first, "rollout") {
        DeployCommand::Rollout
    } else if str_eq(first, "rollback") {
        DeployCommand::Rollback
    } else if str_eq(first, "status") {
        DeployCommand::Status
    } else if !str_starts_with(first, "-") {
        DeployCommand::Unknown(owned(first))
    } else {
        DeployCommand::Usage
    }
}

/// Arguments of `deploy plan`.
#[derive(Debug, Clone, PartialEq, Eq)]
pub struct PlanArgs {
    pub json: bool,
    pub version: String,
    pub file: String,
}

/// What the arguments read so far ask for.
pub struct PlanScan {
    pub json: bool,
    pub version: Seq<char>,
    pub file: Option<Seq<char>>,
}

pub open spec fn unknown_argument(a: Seq<char>) -> Seq<char> {
    "Unknown argument: "@ + a
}

/// `--json`, `--version <ver>` and one file path, scanned from argument `i` on.
pub open spec fn plan_scan(args: Seq<Seq<char>>, i: int, acc: PlanScan) -> Result<PlanScan, Seq<char>>
    decreases args.len() - i,
{
    if i < 0 || i >= args.len() {
        Ok(acc)
    } else if args[i] == "--json"@ {
        plan_scan(args, i + 1, PlanScan { json: true, ..acc })
    } else if args[i] == "--version"@ && i + 1 < args.len() {
        plan_scan(args, i + 2, PlanScan { version: args[i + 1], ..acc })
    } else if !has_prefix(args[i], "-"@) && acc.file is None {
        plan_scan(args, i + 1, PlanScan { file: Some(args[i]), ..acc })
    } else {
        Err(unknown_argument(args[i]))
    }
}

/// The plan arguments, or the message the command fails with.
pub open spec fn plan_args_spec(args: Seq<Seq<char>>) -> Result<(bool, Seq<char>, Seq<char>), Seq<char>> {
    match plan_scan(args, 0, PlanScan { json: false, version: "1.0.0"@, file: None }) {
        Ok(acc) => match acc.file {
            Some(f) => Ok((acc.json, acc.version, f)),
            None => Err("Missing file path"@),
        },
        Err(e) => Err(e),
    }
}

/// Parse the arguments of `deploy plan` (the version defaults to `1.0.0`).
pub fn parse_plan_args(args: &Vec<String>) -> (r: Result<PlanArgs, String>)
    ensures
        match r {
            Ok(a) => plan_args_spec(views(args@)) == Ok::<(bool, Seq<char>, Seq<char>), Seq<char>>(
                (a.json, a.version@, a.file@),
            ),
            Err(e) => plan_args_spec(views(args@)) == Err::<(bool, Seq<char>, Seq<char>), Seq<char>>(e@),
        },
{
    let ghost av = views(args@);
    let mut json = false;
    let mut version = owned("1.0.0");
    let mut file: Option<String> = None;
    let mut i: usize = 0;
    while i < args.len()
        invariant
            av == views(args@),
            i <= args@.len(),
            plan_scan(av, 0, PlanScan { json: false, version: "1.0.0"@, file: None }) == plan_scan(
                av,
                i as int,
                PlanScan { json, version: version@, file: crate::robot::opt_view(file) },
            ),
        decreases args@.len() - i,
    {
        let a = args[i].as_str();
        assert(av[i as int] == a@);
        if str_eq(a, "--json") {
            json = true;
            i = i + 1;
        } else if str_eq(a, "--version") && i + 1 < args.len() {
            version = owned(args[i + 1].as_str());
            assert(av[i + 1] == version@);
            i = i + 2;
        } else if !str_starts_with(a, "-") && file.is_none() {
            file = Some(owned(a));
            i = i + 1;
        } else {
            return Err(crate::text::cat2("Unknown argument: ", a));
        }
    }
    match file {
        Some(f) => Ok(PlanArgs { json, version, file: f }),
        None => Err(owned("Missing file path")),
    }
}

/// Rollout strategies of `deploy rollout`.
#[derive(Debug, Clone, Copy, PartialEq, Eq, Structural)]
pub enum RolloutStrategy {
    All,
    Canary,
    Staged,
}

/// Arguments of `deploy rollout`.
#[derive(Debug, Clone, PartialEq, Eq)]
pub struct RolloutArgs {
    pub json: bool,
    pub dry_run: bool,
    pub version: String,
    pub strategy: RolloutStrategy,
    pub canary_percent: u8,
    pub file: String,
}

pub struct RolloutScan {
    pub json: bool,
    pub dry_run: bool,
    pub version: Seq<char>,
    pub strategy: RolloutStrategy,
    pub canary_percent: u8,
    pub file: Option<Seq<char>>,
}

pub open spec fn strategy_spec(s: Seq<char>) -> Option<RolloutStrategy> {
    if s == "all"@ {
        Some(RolloutStrategy::All)
    } else if s == "canary"@ {
        Some(RolloutStrategy::Canary)
    } else if s == "staged"@ {
        Some(RolloutStrategy::Staged)
    } else {
        None
    }
}

/// A canary percentage that does not parse as a `u8` falls back to 10.
pub open spec fn canary_spec(s: Seq<char>) -> u8 {
    match parse_u8_spec(s) {
        Some(v) => v,
        None => 10,
    }
}

pub open spec fn rollout_scan(args: Seq<Seq<char>>, i: int, acc: RolloutScan) -> Result<RolloutScan, Seq<char>>
    decreases args.len() - i,
{
    if i < 0 || i >= args.len() {
        Ok(acc)
    } else if args[i] == "--json"@ {
        rollout_scan(args, i + 1, RolloutScan { json: true, ..acc })
    } else if args[i] == "--dry-run"@ {
        rollout_scan(args, i + 1, RolloutScan { dry_run: true, ..acc })
    } else if args[i] == "--version"@ && i + 1 < args.len() {
        rollout_scan(args, i + 2, RolloutScan { version: args[i + 1], ..acc })
    } else if args[i] == "--strategy"@ && i + 1 < args.len() {
        match strategy_spec(args[i + 1]) {
            Some(st) => rollout_scan(args, i + 2, RolloutScan { strategy: st, ..acc }),
            None => Err("Unknown strategy '"@ + args[i + 1] + "'"@),
        }
    } else if args[i] == "--canary-percent"@ && i + 1 < args.len() {
        rollout_scan(args, i + 2, RolloutScan { canary_percent: canary_spec(args[i + 1]), ..acc })
    } else if !has_prefix(args[i], "-"@) && acc.file is None {
        rollout_scan(args, i + 1, RolloutScan { file: Some(args[i]), ..acc })
    } else {
        Err(unknown_argument(args[i]))
    }
}

pub open spec fn rollout_init() -> RolloutScan {
    RolloutScan {
        json: false,
        dry_run: false,
        version: "1.0.0"@,
        strategy: RolloutStrategy::All,
        canary_percent: 10,
        file: None,
    }
}

pub open spec fn rollout_args_spec(args: Seq<Seq<char>>) -> Result<
    (bool, bool, Seq<char>, RolloutStrategy, u8, Seq<char>),
    Seq<char>,
> {
    match rollout_scan(args, 0, rollout_init()) {
        Ok(acc) => match acc.file {
            Some(f) => Ok((acc.json, acc.dry_run, acc.version, acc.strategy, acc.canary_percent, f)),
            None => Err("Missing file path"@),
        },
        Err(e) => Err(e),
    }
}

fn parse_strategy(s: &str) -> (r: Option<RolloutStrategy>)
    ensures
        r == strategy_spec(s@),
{
    if str_eq(s, "all") {
        Some(RolloutStrategy::All)
    } else if str_eq(s, "canary") {
        Some(RolloutStrategy::Canary)
    } else if str_eq(s, "staged") {
        Some(RolloutStrategy::Staged)
    } else {
        None
    }
}

/// Parse the arguments of `deploy rollout` (strategy `all`, canary 10 %,
/// version `1.0.0` unless given).
pub fn parse_rollout_args(args: &Vec<String>) -> (r: Result<RolloutArgs, String>)
    ensures
        match r {
            Ok(a) => rollout_args_spec(views(args@)) == Ok::<
                (bool, bool, Seq<char>, RolloutStrategy, u8, Seq<char>),
                Seq<char>,
            >((a.json, a.dry_run, a.version@, a.strategy, a.canary_percent, a.file@)),
            Err(e) => rollout_args_spec(views(args@)) == Err::<
                (bool, bool, Seq<char>, RolloutStrategy, u8, Seq<char>),
                Seq<char>,
            >(e@),
        },
{
    let ghost av = views(args@);
    let mut json = false;
    let mut dry_run = false;
    let mut version = owned("1.0.0");
    let mut strategy = RolloutStrategy::All;
    let mut canary_percent: u8 = 10;
    let mut file: Option<String> = None;
    let mut i: usize = 0;
    while i < args.len()
        invariant
            av == views(args@),
            i <= args@.len(),
            rollout_scan(av, 0, rollout_init()) == rollout_scan(
                av,
                i as int,
                RolloutScan {
                    json,
                    dry_run,
                    version: version@,
                    strategy,
                    canary_percent,
                    file: crate::robot::opt_view(file),
                },
            ),
        decreases args@.len() - i,
    {
        let a = args[i].as_str();
        assert(av[i as int] == a@);
        if str_eq(a, "--json") {
            json = true;
            i = i + 1;
        } else if str_eq(a, "--dry-run") {
            dry_run = true;
            i = i + 1;
        } else if str_eq(a, "--version") && i + 1 < args.len() {
            version = owned(args[i + 1].as_str());
            assert(av[i + 1] == version@);
            i = i + 2;
        } else if str_eq(a, "--strategy") && i + 1 < args.len() {
            let value = args[i + 1].as_str();
            assert(av[i + 1] == value@);
            match parse_strategy(value) {
                Some(st) => {
                    strategy = st;
                },
                None => {
                    return Err(crate::text::cat3("Unknown strategy '", value, "'"));
                },
            }
            i = i + 2;
        } else if str_eq(a, "--canary-percent") && i + 1 < args.len() {
            let value = args[i + 1].as_str();
            assert(av[i + 1] == value@);
            canary_percent = match parse_u8(value) {
                Some(v) => v,
                None => 10,
            };
            i = i + 2;
        } else if !str_starts_with(a, "-") && file.is_none() {
            file = Some(owned(a));
            i = i + 1;
        } else {
            return Err(crate::text::cat2("Unknown argument: ", a));
        }
    }
    match file {
        Some(f) => Ok(RolloutArgs { json, dry_run, version, strategy, canary_percent, file: f }),
        None => Err(owned("Missing file path")),
    }
}

/// Arguments of `deploy rollback` and `fleet orchestrate`: `--json` and one file path.
#[derive(Debug, Clone, PartialEq, Eq)]
pub struct FileArgs {
    pub json: bool,
    pub file: String,
}

pub open spec fn file_scan(args: Seq<Seq<char>>, i: int, json: bool, file: Option<Seq<char>>) -> Result<
    (bool, Option<Seq<char>>),
    Seq<char>,
>
    decreases args.len() - i,
{
    if i < 0 || i >= args.len() {
        Ok((json, file))
    } else if args[i] == "--json"@ {
        file_scan(args, i + 1, true, file)
    } else if !has_prefix(args[i], "-"@) && file is None {
        file_scan(args, i + 1, json, Some(args[i]))
    } else {
        Err(unknown_argument(args[i]))
    }
}

pub open spec fn file_args_spec(args: Seq<Seq<char>>) -> Result<(bool, Seq<char>), Seq<char>> {
    match file_scan(args, 0, false, None) {
        Ok((json, Some(f))) => Ok((json, f)),
        Ok((_, None)) => Err("Missing file path"@),
        Err(e) => Err(e),
    }
}

/// Parse `--json` and one file path.
pub fn parse_file_args(args: &Vec<String>) -> (r: Result<FileArgs, String>)
    ensures
        match r {
            Ok(a) => file_args_spec(views(args@)) == Ok::<(bool, Seq<char>), Seq<char>>((a.json, a.file@)),
            Err(e) => file_args_spec(views(args@)) == Err::<(bool, Seq<char>), Seq<char>>(e@),
        },
{
    let ghost av = views(args@);
    let mut json = false;
    let mut file: Option<String> = None;
    let mut i: usize = 0;
    while i < args.len()
        invariant
            av == views(args@),
            i <= args@.len(),
            file_scan(av, 0, false, None) == file_scan(av, i as int, json, crate::robot::opt_view(file)),
        decreases args@.len() - i,
    {
        let a = args[i].as_str();
        assert(av[i as int] == a@);
        if str_eq(a, "--json") {
            json = true;
        } else if !str_starts_with(a, "-") && file.is_none() {
            file = Some(owned(a));
        } else {
            return Err(crate::text::cat2("Unknown argument: ", a));
        }
        i = i + 1;
    }
    match file {
        Some(f) => Ok(FileArgs { json, file: f }),
        None => Err(owned("Missing file path")),
    }
}

/// Whether `--json` is among the arguments (`deploy status`).
pub fn has_json_flag(args: &Vec<String>) -> (r: bool)
    ensures
        r == views(args@).contains("--json"@),
{
    crate::text::list_contains(args, "--json")
}

} // verus!
