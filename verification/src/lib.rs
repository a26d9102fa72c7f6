//! The decisions of a role-based access control service: password
//! records, the text of bearer tokens, the cache of resolved tokens, the
//! steps of the authenticator and of a login, and what is checked and
//! written when users, permissions and roles are kept.
//!
//! Storage and the clock are the caller's: each function takes what
//! storage said and the time as plain values, and says what to ask next.

pub mod base58;
pub mod dao;
pub mod hash;
pub mod id;
pub mod middlewares;
pub mod model;
pub mod numeral;
pub mod requests;
pub mod responses;
pub mod seed;
pub mod services;
pub mod text;
pub mod validation;
