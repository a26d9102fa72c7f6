//! The rows that authentication reads: users, permissions, roles and
//! tokens, and the identity bundle made of them.

use vstd::prelude::*;
use crate::id::Id;

verus! {

/// A point in time, in milliseconds since the Unix epoch.
pub type Timestamp = i64;

/// A grantable capability, such as `CREATE_USER`.
#[derive(Debug)]
pub struct Permission {
    pub id: Id,
    pub code: String,
    pub name: String,
}

/// What a permission holds.
pub struct PermissionView {
    pub id: Id,
    pub code: Seq<char>,
    pub name: Seq<char>,
}

impl View for Permission {
    type V = PermissionView;

    open spec fn view(&self) -> PermissionView {
        PermissionView { id: self.id, code: self.code@, name: self.name@ }
    }
}

impl Clone for Permission {
    fn clone(&self) -> (copy: Self)
        ensures
            copy@ == self@,
    {
        Permission { id: self.id, code: self.code.clone(), name: self.name.clone() }
    }
}

/// A named label that users are given, such as `ADMIN`.
#[derive(Debug)]
pub struct Role {
    pub id: Id,
    pub code: String,
    pub name: String,
}

/// What a role holds.
pub struct RoleView {
    pub id: Id,
    pub code: Seq<char>,
    pub name: Seq<char>,
}

impl View for Role {
    type V = RoleView;

    open spec fn view(&self) -> RoleView {
        RoleView { id: self.id, code: self.code@, name: self.name@ }
    }
}

impl Clone for Role {
    fn clone(&self) -> (copy: Self)
        ensures
            copy@ == self@,
    {
        Role { id: self.id, code: self.code.clone(), name: self.name.clone() }
    }
}

/// A user. One with a deletion time is deleted, and is left out of every
/// lookup that authentication makes.
#[derive(Debug)]
pub struct User {
    pub id: Id,
    pub name: String,
    pub email: String,
    pub username: String,
    pub password: String,
    pub profile_photo_id: Option<String>,
    pub email_verified_at: Option<Timestamp>,
    pub created_at: Timestamp,
    pub updated_at: Timestamp,
    pub deleted_at: Option<Timestamp>,
}

/// What a user holds.
pub struct UserView {
    pub id: Id,
    pub name: Seq<char>,
    pub email: Seq<char>,
    pub username: Seq<char>,
    pub password: Seq<char>,
    pub profile_photo_id: Option<Seq<char>>,
    pub email_verified_at: Option<Timestamp>,
    pub created_at: Timestamp,
    pub updated_at: Timestamp,
    pub deleted_at: Option<Timestamp>,
}

impl View for User {
    type V = UserView;

    open spec fn view(&self) -> UserView {
        UserView {
            id: self.id,
            name: self.name@,
            email: self.email@,
            username: self.username@,
            password: self.password@,
            profile_photo_id: match self.profile_photo_id {
                Some(photo) => Some(photo@),
                None => None,
            },
            email_verified_at: self.email_verified_at,
            created_at: self.created_at,
            updated_at: self.updated_at,
            deleted_at: self.deleted_at,
        }
    }
}

impl Clone for User {
    fn clone(&self) -> (copy: Self)
        ensures
            copy@ == self@,
    {
        let profile_photo_id = match &self.profile_photo_id {
            Some(photo) => Some(photo.clone()),
            None => None,
        };
        User {
            id: self.id,
            name: self.name.clone(),
            email: self.email.clone(),
            username: self.username.clone(),
            password: self.password.clone(),
            profile_photo_id,
            email_verified_at: self.email_verified_at,
            created_at: self.created_at,
            updated_at: self.updated_at,
            deleted_at: self.deleted_at,
        }
    }
}

impl User {
    /// Whether the user is deleted.
    pub open spec fn is_deleted_spec(&self) -> bool {
        self.deleted_at is Some
    }

    /// Whether the user is deleted.
    #[verifier::when_used_as_spec(is_deleted_spec)]
    pub fn is_deleted(&self) -> (deleted: bool)
        ensures
            deleted == self.is_deleted_spec(),
    {
        self.deleted_at.is_some()
    }
}

/// A bearer credential: the identifier is itself the secret.
#[derive(Clone, Copy, Debug, PartialEq, Eq, Structural)]
pub struct Token {
    pub id: Id,
    pub user_id: Id,
    pub expired_at: Option<Timestamp>,
}

/// The assignment of a permission to a user.
#[derive(Clone, Copy, Debug, PartialEq, Eq, Structural)]
pub struct PermissionUser {
    pub id: Id,
    pub permission_id: Id,
    pub user_id: Id,
}

/// The assignment of a role to a user.
#[derive(Clone, Copy, Debug, PartialEq, Eq, Structural)]
pub struct RoleUser {
    pub id: Id,
    pub role_id: Id,
    pub user_id: Id,
}

/// Whether the time `now` is past the expiry `expired_at`; no expiry is
/// never past.
pub open spec fn past_expiry(expired_at: Option<Timestamp>, now: u64) -> bool {
    match expired_at {
        Some(at) => now as int > at as int,
        None => false,
    }
}

impl Token {
    /// A new token for `user` with a random identifier.
    pub fn generate(user: &User, expired_at: Option<Timestamp>) -> (token: Token)
        ensures
            token.user_id == user.id,
            token.expired_at == expired_at,
    {
        Token { id: Id::random(), user_id: user.id, expired_at }
    }

    /// Whether the token's expiry has passed at the time `now`.
    pub open spec fn is_expired_spec(&self, now: u64) -> bool {
        past_expiry(self.expired_at, now)
    }

    /// Whether the token's expiry has passed at the time `now`.
    #[verifier::when_used_as_spec(is_expired_spec)]
    pub fn is_expired(&self, now: u64) -> (expired: bool)
        ensures
            expired == self.is_expired_spec(now),
    {
        match self.expired_at {
            Some(at) => at < 0 || (at as u64) < now,
            None => false,
        }
    }
}

/// What the permissions in `list` hold, in order.
pub open spec fn permission_views(list: Seq<Permission>) -> Seq<PermissionView> {
    list.map_values(|p: Permission| p@)
}

/// What the roles in `list` hold, in order.
pub open spec fn role_views(list: Seq<Role>) -> Seq<RoleView> {
    list.map_values(|r: Role| r@)
}

/// A copy of a list of permissions.
pub fn copy_permissions(list: &Vec<Permission>) -> (copy: Vec<Permission>)
    ensures
        permission_views(copy@) == permission_views(list@),
{
    let mut copy: Vec<Permission> = Vec::new();
    let n: usize = list.len();
    let mut i: usize = 0;
    while i < n
        invariant
            i <= n,
            n == list@.len(),
            permission_views(copy@) == permission_views(list@.subrange(0, i as int)),
        decreases n - i,
    {
        let ghost before = copy@;
        let item = list[i].clone();
        assert(item@ == list@[i as int]@);
        copy.push(item);
        i += 1;
        assert(permission_views(copy@) =~= permission_views(before).push(item@));
        assert(list@.subrange(0, i as int) =~= list@.subrange(0, i as int - 1).push(
            list@[i as int - 1],
        ));
        assert(permission_views(copy@) =~= permission_views(list@.subrange(0, i as int)));
    }
    assert(list@.subrange(0, n as int) =~= list@);
    copy
}

/// A copy of a list of roles.
pub fn copy_roles(list: &Vec<Role>) -> (copy: Vec<Role>)
    ensures
        role_views(copy@) == role_views(list@),
{
    let mut copy: Vec<Role> = Vec::new();
    let n: usize = list.len();
    let mut i: usize = 0;
    while i < n
        invariant
            i <= n,
            n == list@.len(),
            role_views(copy@) == role_views(list@.subrange(0, i as int)),
        decreases n - i,
    {
        let ghost before = copy@;
        let item = list[i].clone();
        assert(item@ == list@[i as int]@);
        copy.push(item);
        i += 1;
        assert(role_views(copy@) =~= role_views(before).push(item@));
        assert(list@.subrange(0, i as int) =~= list@.subrange(0, i as int - 1).push(
            list@[i as int - 1],
        ));
        assert(role_views(copy@) =~= role_views(list@.subrange(0, i as int)));
    }
    assert(list@.subrange(0, n as int) =~= list@);
    copy
}

} // verus!
