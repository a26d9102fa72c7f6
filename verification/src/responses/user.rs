//! Users as callers see them.

use vstd::prelude::*;
use crate::id::Id;
use crate::middlewares::auth::Auth;
use crate::model::{
    permission_views, role_views, Permission, PermissionView, Role, RoleView, Timestamp, User,
};
use crate::responses::permission::{shown_permissions, PermissionOAS};
use crate::responses::role::{shown_roles, RoleOAS};

verus! {

/// A user as callers see it, with the user's permissions and roles. The
/// password record is not part of it.
#[derive(Debug)]
pub struct UserOAS {
    pub id: Id,
    pub name: String,
    pub email: String,
    pub username: String,
    pub email_verified_at: Option<Timestamp>,
    pub profile_photo_id: Option<String>,
    pub permissions: Vec<PermissionOAS>,
    pub roles: Vec<RoleOAS>,
}

/// What a user shows.
pub struct UserOASView {
    pub id: Id,
    pub name: Seq<char>,
    pub email: Seq<char>,
    pub username: Seq<char>,
    pub email_verified_at: Option<Timestamp>,
    pub profile_photo_id: Option<Seq<char>>,
    pub permissions: Seq<PermissionView>,
    pub roles: Seq<RoleView>,
}

impl View for UserOAS {
    type V = UserOASView;

    open spec fn view(&self) -> UserOASView {
        UserOASView {
            id: self.id,
            name: self.name@,
            email: self.email@,
            username: self.username@,
            email_verified_at: self.email_verified_at,
            profile_photo_id: match self.profile_photo_id {
                Some(photo) => Some(photo@),
                None => None,
            },
            permissions: shown_permissions(self.permissions@),
            roles: shown_roles(self.roles@),
        }
    }
}

/// What callers see of a user with the given permissions and roles.
pub open spec fn shown_user(
    user: User,
    permissions: Seq<PermissionView>,
    roles: Seq<RoleView>,
) -> UserOASView {
    UserOASView {
        id: user.id,
        name: user.name@,
        email: user.email@,
        username: user.username@,
        email_verified_at: user.email_verified_at,
        profile_photo_id: user@.profile_photo_id,
        permissions,
        roles,
    }
}

impl UserOAS {
    /// What callers see of `user`, with no permissions and no roles.
    pub fn from_user(user: &User) -> (shown: UserOAS)
        ensures
            shown@ == shown_user(*user, Seq::empty(), Seq::empty()),
    {
        let shown = UserOAS {
            id: user.id,
            name: user.name.clone(),
            email: user.email.clone(),
            username: user.username.clone(),
            email_verified_at: user.email_verified_at,
            profile_photo_id: match &user.profile_photo_id {
                Some(photo) => Some(photo.clone()),
                None => None,
            },
            permissions: Vec::new(),
            roles: Vec::new(),
        };
        assert(shown@.permissions =~= Seq::empty());
        assert(shown@.roles =~= Seq::empty());
        shown
    }

    /// What callers see of `user` with the permissions and roles given.
    pub fn from_parts(user: &User, permissions: &Vec<Permission>, roles: &Vec<Role>) -> (shown:
        UserOAS)
        ensures
            shown@ == shown_user(*user, permission_views(permissions@), role_views(roles@)),
    {
        UserOAS {
            id: user.id,
            name: user.name.clone(),
            email: user.email.clone(),
            username: user.username.clone(),
            email_verified_at: user.email_verified_at,
            profile_photo_id: match &user.profile_photo_id {
                Some(photo) => Some(photo.clone()),
                None => None,
            },
            permissions: PermissionOAS::from_models(permissions),
            roles: RoleOAS::from_models(roles),
        }
    }

    /// What callers see of an identity bundle.
    pub fn from_auth(auth: &Auth) -> (shown: UserOAS)
        ensures
            shown@ == shown_user(auth.user, auth@.permissions, auth@.roles),
    {
        UserOAS::from_parts(&auth.user, &auth.permissions, &auth.roles)
    }
}

/// One page of a listing of users.
#[derive(Debug)]
pub struct UserPaginationResponse {
    pub total: u64,
    pub page: u64,
    pub data: Vec<UserOAS>,
}

} // verus!
