//! Roles as callers see them.

use vstd::prelude::*;
use crate::model::{role_views, Role, RoleView};

verus! {

/// A role as callers see it.
#[derive(Debug)]
pub struct RoleOAS {
    pub id: crate::id::Id,
    pub code: String,
    pub name: String,
}

impl View for RoleOAS {
    type V = RoleView;

    open spec fn view(&self) -> RoleView {
        RoleView { id: self.id, code: self.code@, name: self.name@ }
    }
}

/// What the roles in `list` show, in order.
pub open spec fn shown_roles(list: Seq<RoleOAS>) -> Seq<RoleView> {
    list.map_values(|p: RoleOAS| p@)
}

impl RoleOAS {
    /// What callers see of `role`: all of it.
    pub fn from_model(role: &Role) -> (shown: RoleOAS)
        ensures
            shown@ == role@,
    {
        RoleOAS {
            id: role.id,
            code: role.code.clone(),
            name: role.name.clone(),
        }
    }

    /// What callers see of each role in `list`, in order.
    pub fn from_models(list: &Vec<Role>) -> (shown: Vec<RoleOAS>)
        ensures
            shown_roles(shown@) == role_views(list@),
    {
        let mut shown: Vec<RoleOAS> = Vec::new();
        let n: usize = list.len();
        let mut i: usize = 0;
        while i < n
            invariant
                i <= n,
                n == list@.len(),
                shown_roles(shown@) == role_views(list@.subrange(0, i as int)),
            decreases n - i,
        {
            let ghost before = shown@;
            let item = RoleOAS::from_model(&list[i]);
            shown.push(item);
            i += 1;
            assert(shown_roles(shown@) =~= shown_roles(before).push(item@));
            assert(list@.subrange(0, i as int) =~= list@.subrange(0, i as int - 1).push(
                list@[i as int - 1],
            ));
            assert(shown_roles(shown@) =~= role_views(list@.subrange(0, i as int)));
        }
        assert(list@.subrange(0, n as int) =~= list@);
        shown
    }
}

/// One page of a listing of roles.
#[derive(Debug)]
pub struct RolePaginationResponse {
    pub total: u64,
    pub page: u64,
    pub data: Vec<RoleOAS>,
}

} // verus!
