//! Analysis core of a git porcelain: divergence between branches, working-copy
//! status, in-progress rebase steps, diff statistics and the push guard.

pub mod cmd;
pub mod config;
pub mod credentials;
pub mod diff;
pub mod graph;
pub mod oid;
pub mod rebase;
pub mod remote;
pub mod resolve;
pub mod signer;
pub mod status;
pub mod term;
pub mod text;
pub mod utils;
