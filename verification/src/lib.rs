//! Data types and rules of the `crev` code review system.
pub mod level;
pub mod text;
pub mod common;
pub mod digest;
pub mod url;
pub mod crypto;
pub mod id;
pub mod error;
pub mod framing;
pub mod proofs;
pub mod version;
pub mod trust;
pub mod review;
pub mod package;
pub mod package_review;
pub mod code_review;
pub mod proof_id;
pub mod comment;
pub mod util;
pub mod cli;
pub mod opts;
pub mod crev_bin_opts;
pub mod cargo_trust_opts;
pub mod crate_stats;
pub mod verify_output;
pub mod trust_log;
pub mod crate_info;
pub mod id_query;
pub mod trust_args;
pub mod table;
pub mod proof_edit;
