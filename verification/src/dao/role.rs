//! The rows of roles that the handlers write.

use vstd::prelude::*;
use crate::id::Id;
use crate::model::{Role, RoleView};
use crate::requests::role::{RoleStoreRequest, RoleUpdateRequest};
use crate::text::{
    lowercase, lowercase_of, same_text, underscored, underscored_spec, uppercase, uppercase_of,
};

verus! {

/// The row of a new role: a random identifier, the code in upper
/// case with underscores for spaces, the name in lower case.
pub fn store(request: &RoleStoreRequest) -> (row: Role)
    ensures
        row.code@ == underscored_spec(uppercase_of(request.code@)),
        row.name@ == lowercase_of(request.name@),
{
    let upper = uppercase(request.code.as_str());
    Role {
        id: Id::random(),
        code: underscored(upper.as_str()),
        name: lowercase(request.name.as_str()),
    }
}

/// The row of a role after an update, and whether it differs from
/// the row before: the name is the one asked for.
pub fn update(role: Role, request: &RoleUpdateRequest) -> (updated: (
    Role,
    bool,
))
    ensures
        updated.0@ == (RoleView { name: request.name@, ..role@ }),
        updated.1 == (role.name@ != request.name@),
{
    if same_text(role.name.as_str(), request.name.as_str()) {
        (role, false)
    } else {
        (
            Role { id: role.id, code: role.code, name: request.name.clone() },
            true,
        )
    }
}

} // verus!
