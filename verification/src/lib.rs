//! Credential handling for the Buddy VM: shell-safe credential files,
//! Datadog permission snapshots and Fastly token checks, with the
//! command flows that tie them together.

pub mod cli;
pub mod credentials;
pub mod datadog;
pub mod fastly;
pub mod json;
pub mod order;
pub mod permissions;
pub mod text;
