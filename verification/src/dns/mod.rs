//! Names and records of the local DNS.
pub mod authority;
pub mod name;
pub mod update;
