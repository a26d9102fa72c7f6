//! The bodies of the requests on users.

use vstd::prelude::*;
use crate::id::Id;

verus! {

/// A request for a new user, with the permissions and roles to give.
#[derive(Clone, Debug)]
pub struct UserStoreRequest {
    pub name: String,
    pub email: String,
    pub username: String,
    pub password: String,
    pub permissions: Vec<Id>,
    pub roles: Vec<Id>,
}

/// A request to change a user's name, e-mail address and user name, and to
/// give the user these permissions and roles in place of all others.
#[derive(Clone, Debug)]
pub struct UserUpdateGeneralInformationRequest {
    pub name: String,
    pub email: String,
    pub username: String,
    pub profile_photo_id: Option<String>,
    pub permissions: Vec<Id>,
    pub roles: Vec<Id>,
}

/// A request to change a user's password.
#[derive(Clone, Debug)]
pub struct UserUpdatePasswordRequest {
    pub current_password: String,
    pub new_password: String,
    pub password_confirmation: String,
}

} // verus!
