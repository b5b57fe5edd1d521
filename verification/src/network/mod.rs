//! Networks of a compose project.
pub mod addr;
pub mod compose;
pub mod config;
pub mod dns_client;
pub mod error;
pub mod host;
pub mod intake;
pub mod laws;
pub mod manager;
pub mod model;
pub mod setup;
