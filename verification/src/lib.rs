//! Verified core of a meta-tracing JIT: the lowering of interpreter code to
//! JitCode, liveness of its registers, call policies, box forwarding and guard
//! descriptors.

pub mod analysis;
pub mod arm_locals;
pub mod arrival_laws;
pub mod ast;
pub mod body;
pub mod boxes;
pub mod branch_laws;
pub mod call_descr;
pub mod call_laws;
pub mod calls;
pub mod code_runs;
pub mod companion;
pub mod config;
pub mod dispatch;
pub mod dispatch_code;
pub mod dispatch_laws;
pub mod driver;
pub mod entry_laws;
pub mod eval_laws;
pub mod extended_arg;
pub mod fetch;
pub mod fetch_laws;
pub mod growth;
pub mod growth_forms;
pub mod guard;
pub mod kinds;
pub mod label_laws;
pub mod layout;
pub mod literal;
pub mod liveness;
pub mod lower_call;
pub mod lower_loop;
pub mod lower_macro;
pub mod lower_match;
pub mod lower_spec;
pub mod lower_stmt;
pub mod lower_value;
pub mod lower_write;
pub mod lowerer;
pub mod machine;
pub mod marker_laws;
pub mod markers;
pub mod match_laws;
pub mod names;
pub mod ops;
pub mod ordset;
pub mod paths;
pub mod patterns;
pub mod policy;
pub mod policy_bytes;
pub mod policy_laws;
pub mod schema;
pub mod scope;
pub mod scope_forms;
pub mod scope_laws;
pub mod search;
pub mod stmt_laws;
pub mod store_laws;
pub mod text;
pub mod vable_laws;
pub mod value_laws;
