//! The bodies of the requests on permissions.

use vstd::prelude::*;
use crate::id::Id;

verus! {

/// A request for a new permission.
#[derive(Clone, Debug)]
pub struct PermissionStoreRequest {
    pub code: String,
    pub name: String,
}

/// A request to rename a permission.
#[derive(Clone, Debug)]
pub struct PermissionUpdateRequest {
    pub name: String,
}

/// A request that names several permissions.
#[derive(Clone, Debug)]
pub struct PermissionBulkRequest {
    pub permissions: Vec<Id>,
}

} // verus!
