//! A minimal Linux container runtime: the verified core.
//!
//! The modules here hold the runtime's decisions and data: container state and
//! its lifecycle, the OCI configuration subset and its validation, network and
//! cgroup naming, signal and namespace parsing. The system calls, files and
//! commands that carry those decisions out live in the program around it.

pub mod text;
pub mod namespace;
pub mod network;
pub mod security;
pub mod signal;
pub mod state;
pub mod cgroup;
pub mod config;
pub mod container;
pub mod container_exec;
pub mod report;
