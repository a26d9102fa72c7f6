//! What the handlers decide.

pub mod auth;
pub mod permission;
pub mod role;
pub mod user;
