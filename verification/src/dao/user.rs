//! The rows of users and of their assignments that the handlers write.

use vstd::prelude::*;
use crate::hash::{make, make_spec};
use crate::id::{hyphenated_text, Id};
use crate::model::{Permission, PermissionUser, Role, RoleUser, Timestamp, User, UserView};
use crate::requests::user::{UserStoreRequest, UserUpdateGeneralInformationRequest};
use crate::services::auth::{normalize, normalized};

verus! {

/// The row of a new user: a random identifier, name, e-mail address and
/// user name as they are stored, the record of the password salted with
/// the identifier's text, and the time `now` as the time of creation.
pub fn store(request: &UserStoreRequest, now: Timestamp) -> (row: User)
    ensures
        row@ == (UserView {
            id: row.id,
            name: normalized(request.name@),
            email: normalized(request.email@),
            username: normalized(request.username@),
            password: make_spec(hyphenated_text(row.id.raw), request.password@),
            profile_photo_id: None,
            email_verified_at: None,
            created_at: now,
            updated_at: now,
            deleted_at: None,
        }),
{
    let id = Id::random();
    let salt = id.to_string();
    User {
        id,
        name: normalize(request.name.as_str()),
        email: normalize(request.email.as_str()),
        username: normalize(request.username.as_str()),
        password: make(salt.as_str(), request.password.as_str()).to_string(),
        profile_photo_id: None,
        email_verified_at: None,
        created_at: now,
        updated_at: now,
        deleted_at: None,
    }
}

/// The row of a user after an update of name, e-mail address and user
/// name, made at the time `now`.
pub fn update_general_information(
    user: User,
    request: &UserUpdateGeneralInformationRequest,
    now: Timestamp,
) -> (row: User)
    ensures
        row@ == (UserView {
            name: normalized(request.name@),
            email: normalized(request.email@),
            username: normalized(request.username@),
            updated_at: now,
            ..user@
        }),
{
    User {
        id: user.id,
        name: normalize(request.name.as_str()),
        email: normalize(request.email.as_str()),
        username: normalize(request.username.as_str()),
        password: user.password,
        profile_photo_id: user.profile_photo_id,
        email_verified_at: user.email_verified_at,
        created_at: user.created_at,
        updated_at: now,
        deleted_at: user.deleted_at,
    }
}

/// The row of a user after a change of password made at the time `now`:
/// the record is the one of the new password.
pub fn update_password(user: User, password: &str, now: Timestamp) -> (row: User)
    ensures
        row@ == (UserView {
            password: make_spec(hyphenated_text(user.id.raw), password@),
            updated_at: now,
            ..user@
        }),
{
    let salt = user.id.to_string();
    User {
        id: user.id,
        name: user.name,
        email: user.email,
        username: user.username,
        password: make(salt.as_str(), password).to_string(),
        profile_photo_id: user.profile_photo_id,
        email_verified_at: user.email_verified_at,
        created_at: user.created_at,
        updated_at: now,
        deleted_at: user.deleted_at,
    }
}

/// The row of a user deleted at the time `now`.
pub fn delete(user: User, now: Timestamp) -> (row: User)
    ensures
        row@ == (UserView { deleted_at: Some(now), ..user@ }),
{
    User {
        id: user.id,
        name: user.name,
        email: user.email,
        username: user.username,
        password: user.password,
        profile_photo_id: user.profile_photo_id,
        email_verified_at: user.email_verified_at,
        created_at: user.created_at,
        updated_at: user.updated_at,
        deleted_at: Some(now),
    }
}

/// One assignment to the user for each permission of the list, in order,
/// each with a random identifier.
pub fn permission_rows(user: Id, permissions: &Vec<Permission>) -> (rows: Vec<PermissionUser>)
    ensures
        rows@.len() == permissions@.len(),
        forall|i: int|
            0 <= i < rows@.len() ==> (#[trigger] rows@[i]).user_id == user && rows@[i].permission_id
                == permissions@[i].id,
{
    let mut rows: Vec<PermissionUser> = Vec::new();
    let n: usize = permissions.len();
    let mut i: usize = 0;
    while i < n
        invariant
            i <= n,
            n == permissions@.len(),
            rows@.len() == i,
            forall|k: int|
                0 <= k < i ==> (#[trigger] rows@[k]).user_id == user && rows@[k].permission_id
                    == permissions@[k].id,
        decreases n - i,
    {
        rows.push(
            PermissionUser { id: Id::random(), permission_id: permissions[i].id, user_id: user },
        );
        i += 1;
    }
    rows
}

/// One assignment to the user for each role of the list, in order, each
/// with a random identifier.
pub fn role_rows(user: Id, roles: &Vec<Role>) -> (rows: Vec<RoleUser>)
    ensures
        rows@.len() == roles@.len(),
        forall|i: int|
            0 <= i < rows@.len() ==> (#[trigger] rows@[i]).user_id == user && rows@[i].role_id
                == roles@[i].id,
{
    let mut rows: Vec<RoleUser> = Vec::new();
    let n: usize = roles.len();
    let mut i: usize = 0;
    while i < n
        invariant
            i <= n,
            n == roles@.len(),
            rows@.len() == i,
            forall|k: int|
                0 <= k < i ==> (#[trigger] rows@[k]).user_id == user && rows@[k].role_id
                    == roles@[k].id,
        decreases n - i,
    {
        rows.push(RoleUser { id: Id::random(), role_id: roles[i].id, user_id: user });
        i += 1;
    }
    rows
}

} // verus!
