//! What the authentication handlers answer.

use vstd::prelude::*;
use crate::responses::user::UserOAS;

verus! {

/// The answer to a granted login: the bearer token's text and the user.
#[derive(Debug)]
pub struct Login {
    pub token: String,
    pub user: UserOAS,
}

/// The answer to the question who the caller is.
#[derive(Debug)]
pub struct Authenticated {
    pub user: UserOAS,
}

} // verus!
