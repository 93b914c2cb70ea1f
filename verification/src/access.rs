//! Who may do what: authentication, platform permissions and tournament staff roles.
use vstd::prelude::*;

use crate::error::{conflict, forbidden, not_found, outcome, unauthorized, ErrorKind, ResponseError};
use crate::model::{Permission, StaffRole};

verus! {

/// The caller of a request: the user id (0 or less when nobody is signed in), the nickname and
/// the platform permissions.
pub struct Token {
    pub id: i64,
    pub nickname: String,
    pub permissions: Vec<Permission>,
}

/// The token holds permission `p`.
pub open spec fn holds(token: &Token, p: Permission) -> bool {
    token.permissions@.contains(p)
}

/// Whether `permissions` holds `p`.
pub fn has_permission(permissions: &Vec<Permission>, p: Permission) -> (b: bool)
    ensures
        b == permissions@.contains(p),
{
    let mut i: usize = 0;
    while i < permissions.len()
        invariant
            i <= permissions.len(),
            forall|k: int| 0 <= k < i ==> permissions@[k] != p,
        decreases permissions.len() - i,
    {
        if permissions[i] == p {
            assert(permissions@[i as int] == p);
            return true;
        }
        i = i + 1;
    }
    false
}

/// Fails with "authentication required" unless somebody is signed in.
pub fn authenticated(token: &Token) -> (r: Result<(), ResponseError>)
    ensures
        outcome(
            r,
            if token.id <= 0 {
                Some((ErrorKind::Unauthorized, "authentication required"@))
            } else {
                None
            },
        ),
{
    if token.id <= 0 {
        Err(unauthorized("authentication required"))
    } else {
        Ok(())
    }
}

/// The error, if any, of a chart library upload or review.
pub open spec fn chart_manager_error(token: &Token) -> Option<(ErrorKind, Seq<char>)> {
    if token.id <= 0 {
        Some((ErrorKind::Unauthorized, "authentication required"@))
    } else if holds(token, Permission::DevOps) || holds(token, Permission::ChartLibrary) {
        None
    } else {
        Some((ErrorKind::Forbidden, "chart library permission required"@))
    }
}

/// Allows chart library uploads and reviews: needs the `ChartLibrary` or `DevOps` permission.
pub fn require_chart_manager(token: &Token) -> (r: Result<(), ResponseError>)
    ensures
        outcome(r, chart_manager_error(token)),
{
    authenticated(token)?;
    if has_permission(&token.permissions, Permission::DevOps) || has_permission(
        &token.permissions,
        Permission::ChartLibrary,
    ) {
        Ok(())
    } else {
        Err(forbidden("chart library permission required"))
    }
}

/// The error, if any, of changing the chart library entry that user `created_by` uploaded.
pub open spec fn chart_modifier_error(token: &Token, created_by: i64) -> Option<(ErrorKind, Seq<char>)> {
    if token.id <= 0 {
        Some((ErrorKind::Unauthorized, "authentication required"@))
    } else if holds(token, Permission::DevOps) || (holds(token, Permission::ChartLibrary)
        && created_by == token.id) {
        None
    } else {
        Some((ErrorKind::Forbidden, "can only modify your own charts"@))
    }
}

/// Allows updates and deletions: `DevOps` may change any chart; a `ChartLibrary` holder only the
/// charts that they uploaded.
pub fn require_chart_modifier(token: &Token, created_by: i64) -> (r: Result<(), ResponseError>)
    ensures
        outcome(r, chart_modifier_error(token, created_by)),
{
    authenticated(token)?;
    if has_permission(&token.permissions, Permission::DevOps) || (has_permission(
        &token.permissions,
        Permission::ChartLibrary,
    ) && created_by == token.id) {
        Ok(())
    } else {
        Err(forbidden("can only modify your own charts"))
    }
}

/// The staff role of the caller in a tournament, given the staff row found for the caller's id:
/// nobody signed in has no role.
pub fn role(token: &Token, staff_row: Option<StaffRole>) -> (r: Option<StaffRole>)
    ensures
        r == (if token.id <= 0 {
            None
        } else {
            staff_row
        }),
{
    if token.id <= 0 {
        None
    } else {
        staff_row
    }
}

/// The least role that a staff-only action needs.
#[derive(Clone, Copy, PartialEq, Eq, Debug, Structural)]
pub enum Clearance {
    Judge,
    Organizer,
    Owner,
}

/// Whether role `r` grants clearance `c`.
pub open spec fn grants(r: StaffRole, c: Clearance) -> bool {
    match c {
        Clearance::Judge => true,
        Clearance::Organizer => r == StaffRole::Owner || r == StaffRole::Organizer,
        Clearance::Owner => r == StaffRole::Owner,
    }
}

/// Fails with "tournament staff access required" unless the caller is staff.
pub fn require_judge(role: Option<StaffRole>) -> (r: Result<StaffRole, ResponseError>)
    ensures
        match role {
            None => r is Err && r->Err_0.is(ErrorKind::Forbidden, "tournament staff access required"@),
            Some(x) => r == Ok::<StaffRole, ResponseError>(x),
        },
{
    match role {
        Some(x) => Ok(x),
        None => Err(forbidden("tournament staff access required")),
    }
}

/// Lets owners and organizers through, with their role.
pub fn require_organizer(role: Option<StaffRole>) -> (r: Result<StaffRole, ResponseError>)
    ensures
        match role {
            None => r is Err && r->Err_0.is(ErrorKind::Forbidden, "tournament staff access required"@),
            Some(StaffRole::Judge) => r is Err && r->Err_0.is(ErrorKind::Forbidden, "organizer access required"@),
            Some(x) => r == Ok::<StaffRole, ResponseError>(x),
        },
{
    match require_judge(role)? {
        StaffRole::Owner => Ok(StaffRole::Owner),
        StaffRole::Organizer => Ok(StaffRole::Organizer),
        StaffRole::Judge => Err(forbidden("organizer access required")),
    }
}

/// Lets the owner through.
pub fn require_owner(role: Option<StaffRole>) -> (r: Result<(), ResponseError>)
    ensures
        match role {
            None => r is Err && r->Err_0.is(ErrorKind::Forbidden, "tournament staff access required"@),
            Some(StaffRole::Owner) => r is Ok,
            Some(_) => r is Err && r->Err_0.is(ErrorKind::Forbidden, "owner access required"@),
        },
{
    match require_judge(role)? {
        StaffRole::Owner => Ok(()),
        _ => Err(forbidden("owner access required")),
    }
}

/// Roles are ordered: whoever passes the owner check passes the organizer check, and whoever
/// passes the organizer check passes the staff check.
pub proof fn lemma_clearances_nest(r: StaffRole)
    ensures
        grants(r, Clearance::Owner) ==> grants(r, Clearance::Organizer),
        grants(r, Clearance::Organizer) ==> grants(r, Clearance::Judge),
{
}

/// The error, if any, of adding user `role` staff, by an actor of role `actor`.
pub open spec fn add_staff_error(actor: StaffRole, role: StaffRole, already_staff: bool) -> Option<
    (ErrorKind, Seq<char>),
> {
    if role == StaffRole::Owner || (actor == StaffRole::Organizer && role != StaffRole::Judge) {
        Some((ErrorKind::Forbidden, "only the owner can manage organizers"@))
    } else if already_staff {
        Some((ErrorKind::Conflict, "user is already tournament staff"@))
    } else {
        None
    }
}

/// Checks adding a staff member: nobody can add an owner, organizers can add judges only, and
/// the user must not already be staff.
pub fn check_add_staff(actor: StaffRole, role: StaffRole, already_staff: bool) -> (r: Result<
    (),
    ResponseError,
>)
    ensures
        outcome(r, add_staff_error(actor, role, already_staff)),
{
    if role == StaffRole::Owner || (actor == StaffRole::Organizer && role != StaffRole::Judge) {
        return Err(forbidden("only the owner can manage organizers"));
    }
    if already_staff {
        return Err(conflict("user is already tournament staff"));
    }
    Ok(())
}

/// The error, if any, of giving the staff member whose current role is `current` (none when no
/// such member) the role `role`.
pub open spec fn update_staff_error(role: StaffRole, current: Option<StaffRole>) -> Option<
    (ErrorKind, Seq<char>),
> {
    if role == StaffRole::Owner {
        Some((ErrorKind::BadRequest, "ownership transfer is not supported"@))
    } else if current is None {
        Some((ErrorKind::NotFound, "staff member not found"@))
    } else if current == Some(StaffRole::Owner) {
        Some((ErrorKind::Conflict, "the owner role cannot be changed"@))
    } else {
        None
    }
}

/// Checks a change of staff role (by the owner): ownership cannot move, and the owner keeps the
/// owner role.
pub fn check_update_staff(role: StaffRole, current: Option<StaffRole>) -> (r: Result<(), ResponseError>)
    ensures
        outcome(r, update_staff_error(role, current)),
{
    if role == StaffRole::Owner {
        return Err(crate::error::bad_request("ownership transfer is not supported"));
    }
    match current {
        None => Err(not_found("staff member not found")),
        Some(StaffRole::Owner) => Err(conflict("the owner role cannot be changed")),
        Some(_) => Ok(()),
    }
}

/// The error, if any, of removing the staff member whose role is `target`, by an actor of role
/// `actor`.
pub open spec fn delete_staff_error(actor: StaffRole, target: Option<StaffRole>) -> Option<
    (ErrorKind, Seq<char>),
> {
    match target {
        None => Some((ErrorKind::NotFound, "staff member not found"@)),
        Some(t) => if t == StaffRole::Owner || (t == StaffRole::Organizer && actor
            != StaffRole::Owner) {
            Some((ErrorKind::Forbidden, "only the owner can remove organizers"@))
        } else {
            None
        },
    }
}

/// Checks removing a staff member: the owner cannot be removed, and only the owner removes
/// organizers.
pub fn check_delete_staff(actor: StaffRole, target: Option<StaffRole>) -> (r: Result<(), ResponseError>)
    ensures
        outcome(r, delete_staff_error(actor, target)),
{
    match target {
        None => Err(not_found("staff member not found")),
        Some(t) => {
            if t == StaffRole::Owner || (t == StaffRole::Organizer && actor != StaffRole::Owner) {
                Err(forbidden("only the owner can remove organizers"))
            } else {
                Ok(())
            }
        },
    }
}

/// The owner stays: no staff operation adds, demotes or removes an owner.
pub proof fn lemma_owner_is_permanent(actor: StaffRole, role: StaffRole, already: bool)
    ensures
        add_staff_error(actor, StaffRole::Owner, already) is Some,
        update_staff_error(role, Some(StaffRole::Owner)) is Some,
        delete_staff_error(actor, Some(StaffRole::Owner)) is Some,
        actor == StaffRole::Organizer && role != StaffRole::Judge ==> add_staff_error(
            actor,
            role,
            already,
        ) is Some,
{
}

} // verus!
