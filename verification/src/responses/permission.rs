//! Permissions as callers see them.

use vstd::prelude::*;
use crate::model::{permission_views, Permission, PermissionView};

verus! {

/// A permission as callers see it.
#[derive(Debug)]
pub struct PermissionOAS {
    pub id: crate::id::Id,
    pub code: String,
    pub name: String,
}

impl View for PermissionOAS {
    type V = PermissionView;

    open spec fn view(&self) -> PermissionView {
        PermissionView { id: self.id, code: self.code@, name: self.name@ }
    }
}

/// What the permissions in `list` show, in order.
pub open spec fn shown_permissions(list: Seq<PermissionOAS>) -> Seq<PermissionView> {
    list.map_values(|p: PermissionOAS| p@)
}

impl PermissionOAS {
    /// What callers see of `permission`: all of it.
    pub fn from_model(permission: &Permission) -> (shown: PermissionOAS)
        ensures
            shown@ == permission@,
    {
        PermissionOAS {
            id: permission.id,
            code: permission.code.clone(),
            name: permission.name.clone(),
        }
    }

    /// What callers see of each permission in `list`, in order.
    pub fn from_models(list: &Vec<Permission>) -> (shown: Vec<PermissionOAS>)
        ensures
            shown_permissions(shown@) == permission_views(list@),
    {
        let mut shown: Vec<PermissionOAS> = Vec::new();
        let n: usize = list.len();
        let mut i: usize = 0;
        while i < n
            invariant
                i <= n,
                n == list@.len(),
                shown_permissions(shown@) == permission_views(list@.subrange(0, i as int)),
            decreases n - i,
        {
            let ghost before = shown@;
            let item = PermissionOAS::from_model(&list[i]);
            shown.push(item);
            i += 1;
            assert(shown_permissions(shown@) =~= shown_permissions(before).push(item@));
            assert(list@.subrange(0, i as int) =~= list@.subrange(0, i as int - 1).push(
                list@[i as int - 1],
            ));
            assert(shown_permissions(shown@) =~= permission_views(list@.subrange(0, i as int)));
        }
        assert(list@.subrange(0, n as int) =~= list@);
        shown
    }
}

/// One page of a listing of permissions.
#[derive(Debug)]
pub struct PermissionPaginationResponse {
    pub total: u64,
    pub page: u64,
    pub data: Vec<PermissionOAS>,
}

} // verus!
