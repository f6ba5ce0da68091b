# spanda

Verified analysis passes of the Spanda robotics platform, written in Verus.
Each public function states what it returns in its `ensures` clause, over
specification functions on the mathematical values of its inputs; the laws
that relate several functions are public proof functions (`law_*`).

## Layout

- `src/` — the verified library
  - `ast` — the parsed program, as far as the passes read it
  - `text` — specifications of the string operations the passes use
    (trim, ASCII lower case, search, joining, decimal numbers)
  - `registry`, `robot`, `minimum`, `traceability`, `diagnostics`,
    `continuity` — capability registry, capability inference, minimum
    hardware checks, traceability matrices and span-aware diagnostics
  - `adr` — architecture decision records and their markdown rendering
  - `chaos` — choice of failure injections and the pass/fail rollup of
    their recovery, readiness, health and safety signals
  - `pattern` — regex literals: flag validation, inline flag groups and
    compilation through the `regex` crate
  - `checkpoint` — continuity checkpoints keyed by `mission::robot`
  - `stream` — decisions of the Control Center telemetry stream
    (upgrade detection, client commands, pending-frame limit, backpressure)
  - `deploy_cli`, `trust_cli`, `cli_args` — command-line parsing
  - `ops`, `ai`, `grpc_policy`, `platform_event`, `event_names`,
    `comm_decl`, `robotics_decl` — smaller decisions and declarations
- `tests/` — tests run against the compiled library
- `app/` — the I/O edge: JSON renderings (serde), files, environment,
  process probes

The only trusted code is in the wrappers marked `#[verifier::external_body]`
(`String::push`, `regex::Regex::new` and `regex::Regex::is_match`), the
declaration of `regex::Regex`, and the two names for what the regex engine
decides (`regex_syntax_error`, `regex_is_match`).
