//! What is checked before a role is written, and what the caller is
//! told.

use vstd::prelude::*;
use vstd::string::StringExecFns;
use crate::requests::role::{RoleStoreRequest, RoleUpdateRequest};
use crate::model::{role_views, Role};
use crate::requests::PaginationRequest;
use crate::responses::role::{shown_roles, RoleOAS, RolePaginationResponse};
use crate::text::{lowercase, lowercase_of, trim, trimmed_of, uppercase, uppercase_of};
use crate::validation::{flaw_if, note, Field, FieldFlaw, Flaw};

verus! {

/// The code of a request as it is looked up: without white space at its
/// ends, in upper case.
pub open spec fn code_of(text: Seq<char>) -> Seq<char> {
    uppercase_of(trimmed_of(text))
}

/// The code of a request as it is looked up.
pub fn code(request: &RoleStoreRequest) -> (code: String)
    ensures
        code@ == code_of(request.code@),
{
    uppercase(trim(request.code.as_str()))
}

/// What is wrong with a request for a new role, where storage holds
/// `existing` roles with its code.
pub open spec fn store_flaws(request: RoleStoreRequest, existing: u64) -> Seq<FieldFlaw> {
    Seq::<FieldFlaw>::empty() + flaw_if(
        lowercase_of(trimmed_of(request.name@)).len() == 0,
        Field::Name,
        Flaw::Required,
    ) + flaw_if(code_of(request.code@).len() == 0, Field::Code, Flaw::Required) + flaw_if(
        existing > 0,
        Field::Code,
        Flaw::Taken,
    )
}

/// Checks a request for a new role.
pub fn store(request: &RoleStoreRequest, existing: u64) -> (flaws: Vec<FieldFlaw>)
    ensures
        flaws@ == store_flaws(*request, existing),
{
    let code = code(request);
    let name = lowercase(trim(request.name.as_str()));
    let mut flaws: Vec<FieldFlaw> = Vec::new();
    note(&mut flaws, name.as_str().is_empty(), Field::Name, Flaw::Required);
    note(&mut flaws, code.as_str().is_empty(), Field::Code, Flaw::Required);
    note(&mut flaws, existing > 0, Field::Code, Flaw::Taken);
    flaws
}

/// What is wrong with a request to rename a role.
pub open spec fn update_flaws(request: RoleUpdateRequest) -> Seq<FieldFlaw> {
    Seq::<FieldFlaw>::empty() + flaw_if(
        lowercase_of(trimmed_of(request.name@)).len() == 0,
        Field::Name,
        Flaw::Required,
    )
}

/// Checks a request to rename a role.
pub fn update(request: &RoleUpdateRequest) -> (flaws: Vec<FieldFlaw>)
    ensures
        flaws@ == update_flaws(*request),
{
    let name = lowercase(trim(request.name.as_str()));
    let mut flaws: Vec<FieldFlaw> = Vec::new();
    note(&mut flaws, name.as_str().is_empty(), Field::Name, Flaw::Required);
    flaws
}

/// One page of a listing of roles: the number of rows in all, the number
/// of full pages that they make, and the rows of the page.
pub fn paginate<T: Copy>(request: &PaginationRequest<T>, total: u64, rows: &Vec<Role>) -> (page:
    RolePaginationResponse)
    ensures
        page.total == total,
        page.page == total / request.limit_spec(),
        shown_roles(page.data@) == role_views(rows@),
{
    RolePaginationResponse {
        total,
        page: request.pages(total),
        data: RoleOAS::from_models(rows),
    }
}

/// What the caller is told when the role `code` was created.
pub fn created(code: &str) -> (message: String)
    ensures
        message@ == "Role "@ + code@ + " has been created"@,
{
    String::from_str("Role ").concat(code).concat(" has been created")
}

/// What the caller is told when the role `code` was deleted.
pub fn deleted(code: &str) -> (message: String)
    ensures
        message@ == "Role "@ + code@ + " has been deleted"@,
{
    String::from_str("Role ").concat(code).concat(" has been deleted")
}

} // verus!
