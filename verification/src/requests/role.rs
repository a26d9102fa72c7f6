//! The bodies of the requests on roles.

use vstd::prelude::*;
use crate::id::Id;

verus! {

/// A request for a new role.
#[derive(Clone, Debug)]
pub struct RoleStoreRequest {
    pub code: String,
    pub name: String,
}

/// A request to rename a role.
#[derive(Clone, Debug)]
pub struct RoleUpdateRequest {
    pub name: String,
}

/// A request that names several roles.
#[derive(Clone, Debug)]
pub struct RoleBulkRequest {
    pub roles: Vec<Id>,
}

} // verus!
