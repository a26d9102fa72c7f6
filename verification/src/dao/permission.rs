//! The rows of permissions that the handlers write.

use vstd::prelude::*;
use crate::id::Id;
use crate::model::{Permission, PermissionView};
use crate::requests::permission::{PermissionStoreRequest, PermissionUpdateRequest};
use crate::text::{
    lowercase, lowercase_of, same_text, underscored, underscored_spec, uppercase, uppercase_of,
};

verus! {

/// The row of a new permission: a random identifier, the code in upper
/// case with underscores for spaces, the name in lower case.
pub fn store(request: &PermissionStoreRequest) -> (row: Permission)
    ensures
        row.code@ == underscored_spec(uppercase_of(request.code@)),
        row.name@ == lowercase_of(request.name@),
{
    let upper = uppercase(request.code.as_str());
    Permission {
        id: Id::random(),
        code: underscored(upper.as_str()),
        name: lowercase(request.name.as_str()),
    }
}

/// The row of a permission after an update, and whether it differs from
/// the row before: the name is the one asked for.
pub fn update(permission: Permission, request: &PermissionUpdateRequest) -> (updated: (
    Permission,
    bool,
))
    ensures
        updated.0@ == (PermissionView { name: request.name@, ..permission@ }),
        updated.1 == (permission.name@ != request.name@),
{
    if same_text(permission.name.as_str(), request.name.as_str()) {
        (permission, false)
    } else {
        (
            Permission { id: permission.id, code: permission.code, name: request.name.clone() },
            true,
        )
    }
}

} // verus!
