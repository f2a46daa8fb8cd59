//! Backyard: a benchmark hub for local inference servers.  This library
//! holds its decisions, each with a verified contract: how endpoints are
//! addressed and authenticated, how runs are queued, dispatched and
//! finished, the admin login and its session cookie, the counts and
//! statistics of a speed test, the harness command lines and the reading
//! of their results.

pub mod text;
pub mod json;
pub mod state;
pub mod endpoint;
pub mod auth;
pub mod server;
pub mod harness;
pub mod bench;
pub mod worker;
pub mod cli;
pub mod orchestrator;
pub mod memory;
