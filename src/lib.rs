//! Per-workspace container resources for a version-controlled repository:
//! naming and planning of the containers of a namespace, a port allocator,
//! the durable workspace registry, and template-based injection of the
//! provisioned connection details into a workspace.
//!
//! Everything here is a function from plain values to plain values; the
//! container engine, the filesystem and the version-control executable are
//! driven by the caller, which hands over what they report.

pub mod backend;
pub mod cli;
pub mod completion;
pub mod config;
pub mod env;
pub mod error;
pub mod inject;
pub mod jj;
pub mod jj_status;
pub mod output;
pub mod ports;
pub mod provision;
pub mod repo;
pub mod state;
pub mod text;
pub mod engine;
