//! Static analysis passes of the Spanda robotics platform.
pub mod text;
pub mod ast;
pub mod registry;
pub mod robot;
pub mod minimum;
pub mod traceability;
pub mod diagnostics;
pub mod continuity;
pub mod comm_decl;
pub mod robotics_decl;
pub mod adr;
pub mod chaos;
pub mod pattern;
pub mod checkpoint;
pub mod stream;
pub mod deploy_cli;
pub mod trust_cli;
pub mod grpc_policy;
pub mod ai;
pub mod event_names;
pub mod platform_event;
pub mod ops;
pub mod cli_args;
