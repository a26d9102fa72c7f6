//! The rows that a fresh installation starts with: a permission for each
//! action on users, permissions and roles, two roles, and the user `root`,
//! who has all of them.

use vstd::prelude::*;
use vstd::string::StringExecFns;
use crate::hash::{make, make_spec};
use crate::id::{hyphenated_text, Id};
use crate::model::{Permission, Role, Timestamp, User, UserView};

verus! {

/// The password that `root` starts with.
pub open spec fn root_password() -> Seq<char> {
    "LetMe!nM4te"@
}

/// What is acted on by the permission at place `i`, in upper case.
pub open spec fn subject_code(i: int) -> Seq<char> {
    if i / 4 == 0 {
        "USER"@
    } else if i / 4 == 1 {
        "PERMISSION"@
    } else {
        "ROLE"@
    }
}

/// What is acted on by the permission at place `i`, in lower case.
pub open spec fn subject_name(i: int) -> Seq<char> {
    if i / 4 == 0 {
        "user"@
    } else if i / 4 == 1 {
        "permission"@
    } else {
        "role"@
    }
}

/// The action of the permission at place `i`, in upper case.
pub open spec fn action_code(i: int) -> Seq<char> {
    if i % 4 == 0 {
        "CREATE"@
    } else if i % 4 == 1 {
        "READ"@
    } else if i % 4 == 2 {
        "UPDATE"@
    } else {
        "DELETE"@
    }
}

/// The action of the permission at place `i`, in lower case.
pub open spec fn action_name(i: int) -> Seq<char> {
    if i % 4 == 0 {
        "create"@
    } else if i % 4 == 1 {
        "read"@
    } else if i % 4 == 2 {
        "update"@
    } else {
        "delete"@
    }
}

/// The code of the permission at place `i`, such as `CREATE_USER`.
pub open spec fn permission_code(i: int) -> Seq<char> {
    action_code(i) + "_"@ + subject_code(i)
}

/// The name of the permission at place `i`, such as `create user`.
pub open spec fn permission_name(i: int) -> Seq<char> {
    action_name(i) + " "@ + subject_name(i)
}

fn permission_at(i: usize) -> (row: Permission)
    requires
        i < 12,
    ensures
        row.code@ == permission_code(i as int),
        row.name@ == permission_name(i as int),
{
    let (subject_upper, subject_lower) = if i / 4 == 0 {
        ("USER", "user")
    } else if i / 4 == 1 {
        ("PERMISSION", "permission")
    } else {
        ("ROLE", "role")
    };
    let (action_upper, action_lower) = if i % 4 == 0 {
        ("CREATE", "create")
    } else if i % 4 == 1 {
        ("READ", "read")
    } else if i % 4 == 2 {
        ("UPDATE", "update")
    } else {
        ("DELETE", "delete")
    };
    Permission {
        id: Id::random(),
        code: String::from_str(action_upper).concat("_").concat(subject_upper),
        name: String::from_str(action_lower).concat(" ").concat(subject_lower),
    }
}

/// The twelve permissions: create, read, update and delete, first of
/// users, then of permissions, then of roles, each with a random
/// identifier.
pub fn permissions() -> (rows: Vec<Permission>)
    ensures
        rows@.len() == 12,
        forall|i: int|
            0 <= i < 12 ==> (#[trigger] rows@[i]).code@ == permission_code(i) && rows@[i].name@
                == permission_name(i),
{
    let mut rows: Vec<Permission> = Vec::new();
    let mut i: usize = 0;
    while i < 12
        invariant
            i <= 12,
            rows@.len() == i,
            forall|k: int|
                0 <= k < i ==> (#[trigger] rows@[k]).code@ == permission_code(k) && rows@[k].name@
                    == permission_name(k),
        decreases 12 - i,
    {
        rows.push(permission_at(i));
        i += 1;
    }
    rows
}

/// The two roles, `SUPERUSER` and `ADMIN`, each with a random identifier.
pub fn roles() -> (rows: Vec<Role>)
    ensures
        rows@.len() == 2,
        rows@[0].code@ == "SUPERUSER"@,
        rows@[0].name@ == "superuser"@,
        rows@[1].code@ == "ADMIN"@,
        rows@[1].name@ == "admin"@,
{
    let mut rows: Vec<Role> = Vec::new();
    rows.push(
        Role {
            id: Id::random(),
            code: String::from_str("SUPERUSER"),
            name: String::from_str("superuser"),
        },
    );
    rows.push(
        Role { id: Id::random(), code: String::from_str("ADMIN"), name: String::from_str("admin") },
    );
    rows
}

/// The user `root`, made at the time `now`, with a random identifier and
/// the record of the starting password.
pub fn root(now: Timestamp) -> (row: User)
    ensures
        row@ == (UserView {
            id: row.id,
            name: "root"@,
            email: "root@local"@,
            username: "root"@,
            password: make_spec(hyphenated_text(row.id.raw), root_password()),
            profile_photo_id: None,
            email_verified_at: None,
            created_at: now,
            updated_at: now,
            deleted_at: None,
        }),
{
    let id = Id::random();
    let salt = id.to_string();
    User {
        id,
        name: String::from_str("root"),
        email: String::from_str("root@local"),
        username: String::from_str("root"),
        password: make(salt.as_str(), "LetMe!nM4te").to_string(),
        profile_photo_id: None,
        email_verified_at: None,
        created_at: now,
        updated_at: now,
        deleted_at: None,
    }
}

} // verus!
