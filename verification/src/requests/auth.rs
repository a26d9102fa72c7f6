//! The body of a login request.

use vstd::prelude::*;

verus! {

/// A login: an e-mail address or a user name, and a password.
#[derive(Clone, Debug)]
pub struct Login {
    pub email_or_username: String,
    pub password: String,
}

} // verus!
