//! What is checked before a user is written, and what the caller is told.

use vstd::prelude::*;
use vstd::string::StringExecFns;
use crate::hash::{verify, verify_spec};
use crate::id::{hyphenated_text, Id};
use crate::model::{
    permission_views, role_views, Permission, PermissionUser, PermissionView, Role, RoleUser,
    RoleView, User,
};
use crate::requests::PaginationRequest;
use crate::responses::permission::{shown_permissions, PermissionOAS};
use crate::responses::role::{shown_roles, RoleOAS};
use crate::responses::user::{shown_user, UserOAS, UserPaginationResponse};
use crate::requests::user::{
    UserStoreRequest, UserUpdateGeneralInformationRequest, UserUpdatePasswordRequest,
};
use crate::services::auth::{normalize, normalized};
use crate::text::{contains_char, same_text};
use crate::validation::{
    note, flaw_if, note_all, password_flaws, password_flaws_spec, Field, FieldFlaw, Flaw,
};

verus! {

/// What is wrong with the password of a request, after it was normalized:
/// that it is missing, or the flaws of the password given.
pub open spec fn given_password_flaws(field: Field, password: Seq<char>) -> Seq<FieldFlaw> {
    if password.len() == 0 {
        seq![FieldFlaw { field, flaw: Flaw::Required }]
    } else {
        password_flaws_spec(field, password)
    }
}

fn flaws_of_given_password(field: Field, password: &str) -> (flaws: Vec<FieldFlaw>)
    ensures
        flaws@ == given_password_flaws(field, password@),
{
    if password.is_empty() {
        let mut flaws: Vec<FieldFlaw> = Vec::new();
        flaws.push(FieldFlaw { field, flaw: Flaw::Required });
        assert(flaws@ =~= seq![FieldFlaw { field, flaw: Flaw::Required }]);
        flaws
    } else {
        password_flaws(field, password)
    }
}

/// What is wrong with a request for a new user, before the lists of
/// permissions and roles are looked at. `email_taken` and `username_taken`
/// say what storage found, and count only where the field is given.
pub open spec fn store_field_flaws(
    request: UserStoreRequest,
    email_taken: bool,
    username_taken: bool,
) -> Seq<FieldFlaw> {
    let name = normalized(request.name@);
    let email = normalized(request.email@);
    let username = normalized(request.username@);
    let password = normalized(request.password@);
    Seq::<FieldFlaw>::empty() + flaw_if(name.len() == 0, Field::Name, Flaw::Required) + flaw_if(
        email.len() == 0,
        Field::Email,
        Flaw::Required,
    ) + flaw_if(email.len() > 0 && email_taken, Field::Email, Flaw::Taken) + flaw_if(
        email.len() > 0 && !email.contains('@'),
        Field::Email,
        Flaw::Invalid,
    ) + flaw_if(username.len() == 0, Field::Username, Flaw::Required) + flaw_if(
        username.len() > 0 && username_taken,
        Field::Username,
        Flaw::Taken,
    ) + given_password_flaws(Field::Password, password)
}

/// What is wrong with a request for a new user. Of the permissions and of
/// the roles asked for, storage found `permissions_found` and
/// `roles_found`; a list is refused where storage found fewer or more. The
/// roles are looked at only where no permissions are asked for or nothing
/// else is wrong.
pub open spec fn store_flaws(
    request: UserStoreRequest,
    email_taken: bool,
    username_taken: bool,
    permissions_found: usize,
    roles_found: usize,
) -> Seq<FieldFlaw> {
    let first = store_field_flaws(request, email_taken, username_taken) + flaw_if(
        request.permissions@.len() > 0 && request.permissions@.len() != permissions_found,
        Field::Permissions,
        Flaw::Invalid,
    );
    first + flaw_if(
        request.roles@.len() > 0 && request.roles@.len() != roles_found && (
        request.permissions@.len() == 0 || first.len() == 0),
        Field::Roles,
        Flaw::Invalid,
    )
}

/// Checks a request for a new user; the user may be written where nothing
/// is wrong.
pub fn store(
    request: &UserStoreRequest,
    email_taken: bool,
    username_taken: bool,
    permissions_found: usize,
    roles_found: usize,
) -> (flaws: Vec<FieldFlaw>)
    ensures
        flaws@ == store_flaws(*request, email_taken, username_taken, permissions_found, roles_found),
{
    let name = normalize(request.name.as_str());
    let email = normalize(request.email.as_str());
    let username = normalize(request.username.as_str());
    let password = normalize(request.password.as_str());
    let email_given = !email.as_str().is_empty();
    let username_given = !username.as_str().is_empty();
    let at = contains_char(email.as_str(), '@');
    let mut flaws: Vec<FieldFlaw> = Vec::new();
    note(&mut flaws, name.as_str().is_empty(), Field::Name, Flaw::Required);
    note(&mut flaws, !email_given, Field::Email, Flaw::Required);
    note(&mut flaws, email_given && email_taken, Field::Email, Flaw::Taken);
    note(&mut flaws, email_given && !at, Field::Email, Flaw::Invalid);
    note(&mut flaws, !username_given, Field::Username, Flaw::Required);
    note(&mut flaws, username_given && username_taken, Field::Username, Flaw::Taken);
    let of_password = flaws_of_given_password(Field::Password, password.as_str());
    note_all(&mut flaws, &of_password);
    let permissions: usize = request.permissions.len();
    let roles: usize = request.roles.len();
    note(
        &mut flaws,
        permissions > 0 && permissions != permissions_found,
        Field::Permissions,
        Flaw::Invalid,
    );
    let open = permissions == 0 || flaws.len() == 0;
    note(&mut flaws, roles > 0 && roles != roles_found && open, Field::Roles, Flaw::Invalid);
    flaws
}

/// What is wrong with a request to update a user. `email_taken` and
/// `username_taken` say whether storage found another user with the value.
pub open spec fn update_flaws(
    user: User,
    request: UserUpdateGeneralInformationRequest,
    email_taken: bool,
    username_taken: bool,
    permissions_found: usize,
    roles_found: usize,
) -> Seq<FieldFlaw> {
    let name = normalized(request.name@);
    let email = normalized(request.email@);
    let username = normalized(request.username@);
    Seq::<FieldFlaw>::empty() + flaw_if(name.len() == 0, Field::Name, Flaw::Required) + flaw_if(
        email.len() == 0,
        Field::Email,
        Flaw::Required,
    ) + flaw_if(email.len() > 0 && email_taken && email != user.email@, Field::Email, Flaw::Taken)
        + flaw_if(email.len() > 0 && !email.contains('@'), Field::Email, Flaw::Invalid) + flaw_if(
        username.len() == 0,
        Field::Username,
        Flaw::Required,
    ) + flaw_if(
        username.len() > 0 && username_taken && username != user.username@,
        Field::Username,
        Flaw::Taken,
    ) + flaw_if(
        request.permissions@.len() > 0 && request.permissions@.len() != permissions_found,
        Field::Permissions,
        Flaw::Invalid,
    ) + flaw_if(
        request.roles@.len() > 0 && request.roles@.len() != roles_found,
        Field::Roles,
        Flaw::Invalid,
    )
}

/// Checks a request to update a user's name, e-mail address, user name,
/// permissions and roles.
pub fn update_general_information(
    user: &User,
    request: &UserUpdateGeneralInformationRequest,
    email_taken: bool,
    username_taken: bool,
    permissions_found: usize,
    roles_found: usize,
) -> (flaws: Vec<FieldFlaw>)
    ensures
        flaws@ == update_flaws(
            *user,
            *request,
            email_taken,
            username_taken,
            permissions_found,
            roles_found,
        ),
{
    let name = normalize(request.name.as_str());
    let email = normalize(request.email.as_str());
    let username = normalize(request.username.as_str());
    let email_given = !email.as_str().is_empty();
    let username_given = !username.as_str().is_empty();
    let at = contains_char(email.as_str(), '@');
    let email_kept = same_text(email.as_str(), user.email.as_str());
    let username_kept = same_text(username.as_str(), user.username.as_str());
    let permissions: usize = request.permissions.len();
    let roles: usize = request.roles.len();
    let mut flaws: Vec<FieldFlaw> = Vec::new();
    note(&mut flaws, name.as_str().is_empty(), Field::Name, Flaw::Required);
    note(&mut flaws, !email_given, Field::Email, Flaw::Required);
    note(&mut flaws, email_given && email_taken && !email_kept, Field::Email, Flaw::Taken);
    note(&mut flaws, email_given && !at, Field::Email, Flaw::Invalid);
    note(&mut flaws, !username_given, Field::Username, Flaw::Required);
    note(
        &mut flaws,
        username_given && username_taken && !username_kept,
        Field::Username,
        Flaw::Taken,
    );
    note(
        &mut flaws,
        permissions > 0 && permissions != permissions_found,
        Field::Permissions,
        Flaw::Invalid,
    );
    note(&mut flaws, roles > 0 && roles != roles_found, Field::Roles, Flaw::Invalid);
    flaws
}

/// The permissions that the assignments in `rows` give to the user `user`,
/// in the order of the rows.
pub open spec fn permissions_of(user: Id, rows: Seq<(PermissionUser, Vec<Permission>)>) -> Seq<
    PermissionView,
>
    decreases rows.len(),
{
    if rows.len() == 0 {
        Seq::empty()
    } else {
        permissions_of(user, rows.drop_last()) + if rows.last().0.user_id == user {
            permission_views(rows.last().1@)
        } else {
            Seq::empty()
        }
    }
}

/// The roles that the assignments in `rows` give to the user `user`, in the
/// order of the rows.
pub open spec fn roles_of(user: Id, rows: Seq<(RoleUser, Vec<Role>)>) -> Seq<RoleView>
    decreases rows.len(),
{
    if rows.len() == 0 {
        Seq::empty()
    } else {
        roles_of(user, rows.drop_last()) + if rows.last().0.user_id == user {
            role_views(rows.last().1@)
        } else {
            Seq::empty()
        }
    }
}

fn add_permissions(shown: &mut Vec<PermissionOAS>, list: &Vec<Permission>)
    ensures
        shown_permissions(final(shown)@) == shown_permissions(old(shown)@) + permission_views(
            list@,
        ),
{
    let n: usize = list.len();
    let mut i: usize = 0;
    assert(list@.subrange(0, 0) =~= Seq::<Permission>::empty());
    assert(shown_permissions(shown@) =~= shown_permissions(old(shown)@) + permission_views(
        list@.subrange(0, 0),
    ));
    while i < n
        invariant
            i <= n,
            n == list@.len(),
            shown_permissions(shown@) == shown_permissions(old(shown)@) + permission_views(
                list@.subrange(0, i as int),
            ),
        decreases n - i,
    {
        let ghost before = shown@;
        let item = PermissionOAS::from_model(&list[i]);
        shown.push(item);
        i += 1;
        assert(shown_permissions(shown@) =~= shown_permissions(before).push(item@));
        assert(list@.subrange(0, i as int) =~= list@.subrange(0, i as int - 1).push(
            list@[i as int - 1],
        ));
        assert(shown_permissions(shown@) =~= shown_permissions(old(shown)@) + permission_views(
            list@.subrange(0, i as int),
        ));
    }
    assert(list@.subrange(0, n as int) =~= list@);
}

fn add_roles(shown: &mut Vec<RoleOAS>, list: &Vec<Role>)
    ensures
        shown_roles(final(shown)@) == shown_roles(old(shown)@) + role_views(list@),
{
    let n: usize = list.len();
    let mut i: usize = 0;
    assert(list@.subrange(0, 0) =~= Seq::<Role>::empty());
    assert(shown_roles(shown@) =~= shown_roles(old(shown)@) + role_views(list@.subrange(0, 0)));
    while i < n
        invariant
            i <= n,
            n == list@.len(),
            shown_roles(shown@) == shown_roles(old(shown)@) + role_views(
                list@.subrange(0, i as int),
            ),
        decreases n - i,
    {
        let ghost before = shown@;
        let item = RoleOAS::from_model(&list[i]);
        shown.push(item);
        i += 1;
        assert(shown_roles(shown@) =~= shown_roles(before).push(item@));
        assert(list@.subrange(0, i as int) =~= list@.subrange(0, i as int - 1).push(
            list@[i as int - 1],
        ));
        assert(shown_roles(shown@) =~= shown_roles(old(shown)@) + role_views(
            list@.subrange(0, i as int),
        ));
    }
    assert(list@.subrange(0, n as int) =~= list@);
}

/// What callers see of `user`, with the permissions and the roles that the
/// assignments give to the user.
pub fn shown_with_assignments(
    user: &User,
    permission_rows: &Vec<(PermissionUser, Vec<Permission>)>,
    role_rows: &Vec<(RoleUser, Vec<Role>)>,
) -> (shown: UserOAS)
    ensures
        shown@ == shown_user(
            *user,
            permissions_of(user.id, permission_rows@),
            roles_of(user.id, role_rows@),
        ),
{
    let mut shown = UserOAS::from_user(user);
    let mut permissions: Vec<PermissionOAS> = Vec::new();
    let mut roles: Vec<RoleOAS> = Vec::new();
    assert(shown_permissions(permissions@) =~= Seq::empty());
    assert(shown_roles(roles@) =~= Seq::empty());
    let n: usize = permission_rows.len();
    let mut i: usize = 0;
    while i < n
        invariant
            i <= n,
            n == permission_rows@.len(),
            shown_permissions(permissions@) == permissions_of(
                user.id,
                permission_rows@.subrange(0, i as int),
            ),
        decreases n - i,
    {
        assert(permission_rows@.subrange(0, i as int + 1).drop_last()
            =~= permission_rows@.subrange(0, i as int));
        if permission_rows[i].0.user_id == user.id {
            add_permissions(&mut permissions, &permission_rows[i].1);
        } else {
            assert(shown_permissions(permissions@) + Seq::<PermissionView>::empty()
                =~= shown_permissions(permissions@));
        }
        i += 1;
    }
    assert(permission_rows@.subrange(0, n as int) =~= permission_rows@);
    let m: usize = role_rows.len();
    let mut j: usize = 0;
    while j < m
        invariant
            j <= m,
            m == role_rows@.len(),
            shown_roles(roles@) == roles_of(user.id, role_rows@.subrange(0, j as int)),
        decreases m - j,
    {
        assert(role_rows@.subrange(0, j as int + 1).drop_last() =~= role_rows@.subrange(
            0,
            j as int,
        ));
        if role_rows[j].0.user_id == user.id {
            add_roles(&mut roles, &role_rows[j].1);
        } else {
            assert(shown_roles(roles@) + Seq::<RoleView>::empty() =~= shown_roles(roles@));
        }
        j += 1;
    }
    assert(role_rows@.subrange(0, m as int) =~= role_rows@);
    shown.permissions = permissions;
    shown.roles = roles;
    shown
}

/// One page of a listing of users: the number of rows in all, the number of
/// full pages that they make, and each user of the page with the
/// permissions and roles that the assignments give to the user.
pub fn paginate<T: Copy>(
    request: &PaginationRequest<T>,
    total: u64,
    users: &Vec<User>,
    permission_rows: &Vec<(PermissionUser, Vec<Permission>)>,
    role_rows: &Vec<(RoleUser, Vec<Role>)>,
) -> (page: UserPaginationResponse)
    ensures
        page.total == total,
        page.page == total / request.limit_spec(),
        page.data@.len() == users@.len(),
        forall|i: int|
            0 <= i < users@.len() ==> (#[trigger] page.data@[i])@ == shown_user(
                users@[i],
                permissions_of(users@[i].id, permission_rows@),
                roles_of(users@[i].id, role_rows@),
            ),
{
    let mut data: Vec<UserOAS> = Vec::new();
    let n: usize = users.len();
    let mut i: usize = 0;
    while i < n
        invariant
            i <= n,
            n == users@.len(),
            data@.len() == i,
            forall|k: int|
                0 <= k < i ==> (#[trigger] data@[k])@ == shown_user(
                    users@[k],
                    permissions_of(users@[k].id, permission_rows@),
                    roles_of(users@[k].id, role_rows@),
                ),
        decreases n - i,
    {
        data.push(shown_with_assignments(&users[i], permission_rows, role_rows));
        i += 1;
    }
    UserPaginationResponse { total, page: request.pages(total), data }
}

/// What is wrong with a request to change a user's password: the current
/// password is missing or is not the user's, the new one is missing or
/// flawed, the confirmation is missing or is not the new password.
pub open spec fn password_change_flaws(user: User, request: UserUpdatePasswordRequest) -> Seq<
    FieldFlaw,
> {
    let current = request.current_password@;
    let new = request.new_password@;
    let confirmation = request.password_confirmation@;
    Seq::<FieldFlaw>::empty() + flaw_if(current.len() == 0, Field::CurrentPassword, Flaw::Required)
        + flaw_if(
        current.len() > 0 && !verify_spec(user.password@, hyphenated_text(user.id.raw), current),
        Field::CurrentPassword,
        Flaw::Invalid,
    ) + given_password_flaws(Field::NewPassword, new) + flaw_if(
        confirmation.len() == 0,
        Field::PasswordConfirmation,
        Flaw::Required,
    ) + flaw_if(
        confirmation.len() > 0 && confirmation != new,
        Field::PasswordConfirmation,
        Flaw::Mismatch,
    )
}

/// Checks a request to change a user's password.
pub fn update_password(user: &User, request: &UserUpdatePasswordRequest) -> (flaws: Vec<FieldFlaw>)
    ensures
        flaws@ == password_change_flaws(*user, *request),
{
    let current = request.current_password.as_str();
    let new = request.new_password.as_str();
    let confirmation = request.password_confirmation.as_str();
    let current_given = !current.is_empty();
    let confirmation_given = !confirmation.is_empty();
    let accepted = if current_given {
        let stored = crate::hash::Hash::from_string(user.password.clone());
        let salt = user.id.to_string();
        verify(&stored, salt.as_str(), current)
    } else {
        false
    };
    let confirmed = same_text(confirmation, new);
    let mut flaws: Vec<FieldFlaw> = Vec::new();
    note(&mut flaws, !current_given, Field::CurrentPassword, Flaw::Required);
    note(&mut flaws, current_given && !accepted, Field::CurrentPassword, Flaw::Invalid);
    let of_new = flaws_of_given_password(Field::NewPassword, new);
    note_all(&mut flaws, &of_new);
    note(&mut flaws, !confirmation_given, Field::PasswordConfirmation, Flaw::Required);
    note(
        &mut flaws,
        confirmation_given && !confirmed,
        Field::PasswordConfirmation,
        Flaw::Mismatch,
    );
    flaws
}

/// What the caller is told when the password of `username` was changed.
pub fn password_updated(username: &str) -> (message: String)
    ensures
        message@ == "Password for user "@ + username@ + " has been updated"@,
{
    String::from_str("Password for user ").concat(username).concat(" has been updated")
}

/// What the caller is told when the user `username` was deleted.
pub fn user_deleted(username: &str) -> (message: String)
    ensures
        message@ == "User "@ + username@ + " has been deleted"@,
{
    String::from_str("User ").concat(username).concat(" has been deleted")
}

} // verus!
