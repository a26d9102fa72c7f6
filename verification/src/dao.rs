//! The rows that the handlers write.

pub mod permission;
pub mod role;
pub mod user;
