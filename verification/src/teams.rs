//! Registrations, teams and chart tags: who may join, leave or change what, and when.
use vstd::prelude::*;

use crate::access::Token;
use crate::error::{bad_request, conflict, forbidden, not_found, outcome, ErrorKind, ResponseError};
use crate::lifecycle::{stage_index, Lifecycle};
use crate::model::{CompetitionMode, RegistrationStatus};
use crate::results::RegistrationFacts;
use crate::text::{blank, is_blank, owned, trim, trimmed};

verus! {

/// The request that registers the caller; without a display name (or with a blank one) the
/// caller's nickname is shown.
pub struct RegistrationInput {
    pub display_name: Option<String>,
}

/// The name under which a registration is shown.
pub open spec fn shown_name(input: RegistrationInput, nickname: Seq<char>) -> Seq<char> {
    match input.display_name {
        Some(s) => if is_blank(s@) {
            nickname
        } else {
            s@
        },
        None => nickname,
    }
}

/// Why the caller cannot register, if they cannot.
pub open spec fn register_error(token: &Token, lifecycle: Lifecycle, already_registered: bool) -> Option<
    (ErrorKind, Seq<char>),
> {
    if token.id <= 0 {
        Some((ErrorKind::Unauthorized, "authentication required"@))
    } else if lifecycle != Lifecycle::Registration {
        Some((ErrorKind::Conflict, "tournament is not accepting registrations"@))
    } else if already_registered {
        Some((ErrorKind::Conflict, "user is already registered"@))
    } else {
        None
    }
}

/// Registers the caller in a tournament in the stage `lifecycle`: only while registration is
/// open, once per user. Gives the name under which the (approved) registration is shown.
pub fn register(token: &Token, lifecycle: Lifecycle, already_registered: bool, input: RegistrationInput) -> (r:
    Result<String, ResponseError>)
    ensures
        outcome(r, register_error(token, lifecycle, already_registered)),
        r matches Ok(name) ==> name@ == shown_name(input, token.nickname@),
{
    crate::access::authenticated(token)?;
    if lifecycle != Lifecycle::Registration {
        return Err(conflict("tournament is not accepting registrations"));
    }
    if already_registered {
        return Err(conflict("user is already registered"));
    }
    match input.display_name {
        Some(s) => {
            if blank(s.as_str()) {
                Ok(owned(token.nickname.as_str()))
            } else {
                Ok(s)
            }
        },
        None => Ok(owned(token.nickname.as_str())),
    }
}

/// Why the caller cannot withdraw, if they cannot.
pub open spec fn withdraw_error(token: &Token, lifecycle: Lifecycle, registered: bool) -> Option<
    (ErrorKind, Seq<char>),
> {
    if token.id <= 0 {
        Some((ErrorKind::Unauthorized, "authentication required"@))
    } else if stage_index(lifecycle) >= 2 {
        Some((ErrorKind::Conflict, "registration is locked"@))
    } else if !registered {
        Some((ErrorKind::NotFound, "registration not found"@))
    } else {
        None
    }
}

/// Withdraws the caller's registration: possible until the tournament runs. Gives the new
/// status of the registration.
pub fn withdraw(token: &Token, lifecycle: Lifecycle, registered: bool) -> (r: Result<
    RegistrationStatus,
    ResponseError,
>)
    ensures
        outcome(r, withdraw_error(token, lifecycle, registered)),
        r matches Ok(s) ==> s == RegistrationStatus::Withdrawn,
{
    crate::access::authenticated(token)?;
    if lifecycle.locks_teams() {
        return Err(conflict("registration is locked"));
    }
    if !registered {
        return Err(not_found("registration not found"));
    }
    Ok(RegistrationStatus::Withdrawn)
}

/// The request that creates a team.
pub struct TeamInput {
    pub name: String,
}

/// Why the caller cannot create a team, if they cannot.
pub open spec fn create_team_error(
    token: &Token,
    lifecycle: Lifecycle,
    mode: CompetitionMode,
    registration: Option<RegistrationFacts>,
    in_team: bool,
) -> Option<(ErrorKind, Seq<char>)> {
    if token.id <= 0 {
        Some((ErrorKind::Unauthorized, "authentication required"@))
    } else if stage_index(lifecycle) >= 2 {
        Some((ErrorKind::Conflict, "team membership is locked"@))
    } else if mode == CompetitionMode::Individual {
        Some((ErrorKind::Conflict, "tournament has no team competition"@))
    } else if !(registration matches Some(r) && r.status == RegistrationStatus::Approved) {
        Some((ErrorKind::Forbidden, "approved registration required"@))
    } else if in_team {
        Some((ErrorKind::Conflict, "registration already belongs to a team"@))
    } else {
        None
    }
}

/// Lets the caller found a team, of which their registration becomes captain and first
/// member; gives that registration's id. `in_team` says whether the registration already
/// belongs to a team.
pub fn create_team(
    token: &Token,
    lifecycle: Lifecycle,
    mode: CompetitionMode,
    registration: Option<RegistrationFacts>,
    in_team: bool,
) -> (r: Result<i64, ResponseError>)
    ensures
        outcome(r, create_team_error(token, lifecycle, mode, registration, in_team)),
        r matches Ok(id) ==> registration matches Some(reg) && id == reg.id,
{
    crate::access::authenticated(token)?;
    if lifecycle.locks_teams() {
        return Err(conflict("team membership is locked"));
    }
    if mode == CompetitionMode::Individual {
        return Err(conflict("tournament has no team competition"));
    }
    let reg = approved(registration)?;
    if in_team {
        return Err(conflict("registration already belongs to a team"));
    }
    Ok(reg.id)
}

fn approved(registration: Option<RegistrationFacts>) -> (r: Result<RegistrationFacts, ResponseError>)
    ensures
        match registration {
            Some(reg) if reg.status == RegistrationStatus::Approved => r == Ok::<
                RegistrationFacts,
                ResponseError,
            >(reg),
            _ => r is Err && r->Err_0.is(ErrorKind::Forbidden, "approved registration required"@),
        },
{
    match registration {
        Some(reg) => {
            if reg.status == RegistrationStatus::Approved {
                Ok(reg)
            } else {
                Err(forbidden("approved registration required"))
            }
        },
        None => Err(forbidden("approved registration required")),
    }
}

/// The largest number of members a team may have, as the count of members is compared with
/// it: a negative size, taken as an unsigned 64-bit number, wraps around.
pub open spec fn member_cap(team_size_max: i32) -> int {
    if team_size_max >= 0 {
        team_size_max as int
    } else {
        team_size_max + 0x1_0000_0000_0000_0000
    }
}

/// Why the caller cannot join a team, if they cannot.
pub open spec fn join_team_error(
    token: &Token,
    lifecycle: Lifecycle,
    team_found: bool,
    registration: Option<RegistrationFacts>,
    in_team: bool,
    members: u64,
    team_size_max: i32,
) -> Option<(ErrorKind, Seq<char>)> {
    if token.id <= 0 {
        Some((ErrorKind::Unauthorized, "authentication required"@))
    } else if stage_index(lifecycle) >= 2 {
        Some((ErrorKind::Conflict, "team membership is locked"@))
    } else if !team_found {
        Some((ErrorKind::NotFound, "team not found"@))
    } else if !(registration matches Some(r) && r.status == RegistrationStatus::Approved) {
        Some((ErrorKind::Forbidden, "approved registration required"@))
    } else if in_team {
        Some((ErrorKind::Conflict, "registration already belongs to a team"@))
    } else if members >= member_cap(team_size_max) {
        Some((ErrorKind::Conflict, "team is full"@))
    } else {
        None
    }
}

/// Lets the caller join a team that has `members` members, in a tournament whose largest team
/// size is `team_size_max`; gives the id of the registration that joins.
pub fn join_team(
    token: &Token,
    lifecycle: Lifecycle,
    team_found: bool,
    registration: Option<RegistrationFacts>,
    in_team: bool,
    members: u64,
    team_size_max: i32,
) -> (r: Result<i64, ResponseError>)
    ensures
        outcome(
            r,
            join_team_error(token, lifecycle, team_found, registration, in_team, members, team_size_max),
        ),
        r matches Ok(id) ==> registration matches Some(reg) && id == reg.id,
{
    crate::access::authenticated(token)?;
    if lifecycle.locks_teams() {
        return Err(conflict("team membership is locked"));
    }
    if !team_found {
        return Err(not_found("team not found"));
    }
    let reg = approved(registration)?;
    if in_team {
        return Err(conflict("registration already belongs to a team"));
    }
    let full = if team_size_max >= 0 {
        members >= team_size_max as u64
    } else {
        let below: u64 = (-(team_size_max as i64)) as u64;
        members >= u64::MAX - (below - 1)
    };
    if full {
        return Err(conflict("team is full"));
    }
    Ok(reg.id)
}

/// Why the caller cannot leave their team, if they cannot. `membership` is the team that the
/// caller's registration belongs to, and `captain` that team's captain (`None` when the team
/// is gone).
pub open spec fn leave_team_error(
    token: &Token,
    lifecycle: Lifecycle,
    registration: Option<i64>,
    membership: Option<i64>,
    captain: Option<i64>,
) -> Option<(ErrorKind, Seq<char>)> {
    if token.id <= 0 {
        Some((ErrorKind::Unauthorized, "authentication required"@))
    } else if stage_index(lifecycle) >= 2 {
        Some((ErrorKind::Conflict, "team membership is locked"@))
    } else if registration is None {
        Some((ErrorKind::NotFound, "registration not found"@))
    } else if membership is None {
        Some((ErrorKind::NotFound, "team membership not found"@))
    } else if captain is None {
        Some((ErrorKind::NotFound, "team not found"@))
    } else if captain == registration {
        Some((ErrorKind::Conflict, "captain cannot leave the team"@))
    } else {
        None
    }
}

/// Lets the caller's registration leave its team; the captain cannot.
pub fn leave_team(
    token: &Token,
    lifecycle: Lifecycle,
    registration: Option<i64>,
    membership: Option<i64>,
    captain: Option<i64>,
) -> (r: Result<(), ResponseError>)
    ensures
        outcome(r, leave_team_error(token, lifecycle, registration, membership, captain)),
{
    crate::access::authenticated(token)?;
    if lifecycle.locks_teams() {
        return Err(conflict("team membership is locked"));
    }
    let reg = match registration {
        Some(id) => id,
        None => {
            return Err(not_found("registration not found"));
        },
    };
    if membership.is_none() {
        return Err(not_found("team membership not found"));
    }
    match captain {
        None => Err(not_found("team not found")),
        Some(c) => {
            if c == reg {
                Err(conflict("captain cannot leave the team"))
            } else {
                Ok(())
            }
        },
    }
}

/// The request that creates or changes a chart tag.
pub struct ChartTagInput {
    pub round_id: i64,
    pub name: String,
    pub order_index: i32,
}

/// The name of a chart tag: the one asked for, trimmed; a blank one is refused.
pub fn chart_tag_name(input: &ChartTagInput) -> (r: Result<String, ResponseError>)
    ensures
        outcome(
            r,
            if trimmed(input.name@).len() == 0 {
                Some((ErrorKind::BadRequest, "tag name is required"@))
            } else {
                None
            },
        ),
        r matches Ok(name) ==> name@ == trimmed(input.name@),
{
    if blank(input.name.as_str()) {
        return Err(bad_request("tag name is required"));
    }
    Ok(owned(trim(input.name.as_str())))
}

/// A chart tag that charts use may not move to another round.
pub fn check_tag_move(current_round: i64, new_round: i64, charts: u64) -> (r: Result<(), ResponseError>)
    ensures
        outcome(
            r,
            if current_round != new_round && charts > 0 {
                Some((ErrorKind::Conflict, "chart tag with charts cannot move to another round"@))
            } else {
                None
            },
        ),
{
    if current_round != new_round && charts > 0 {
        Err(conflict("chart tag with charts cannot move to another round"))
    } else {
        Ok(())
    }
}

/// A chart tag that charts use may not be deleted.
pub fn check_tag_delete(charts: u64) -> (r: Result<(), ResponseError>)
    ensures
        outcome(
            r,
            if charts > 0 {
                Some((ErrorKind::Conflict, "chart tag is still used by charts"@))
            } else {
                None
            },
        ),
{
    if charts > 0 {
        Err(conflict("chart tag is still used by charts"))
    } else {
        Ok(())
    }
}

/// A round given by id must belong to the tournament (`round_tournament` is the tournament of
/// the round, `None` when there is no such round).
pub fn ensure_round(tournament_id: i64, round_tournament: Option<i64>) -> (r: Result<(), ResponseError>)
    ensures
        outcome(
            r,
            if round_tournament == Some(tournament_id) {
                None
            } else {
                Some((ErrorKind::BadRequest, "round does not belong to tournament"@))
            },
        ),
{
    if round_tournament == Some(tournament_id) {
        Ok(())
    } else {
        Err(bad_request("round does not belong to tournament"))
    }
}

/// A chart tag given by id must belong to the tournament and round (`tag` is the tournament
/// and round of the tag, `None` when there is no such tag).
pub fn ensure_chart_tag(tournament_id: i64, round_id: i64, tag: Option<(i64, i64)>) -> (r: Result<
    (),
    ResponseError,
>)
    ensures
        outcome(
            r,
            if tag == Some((tournament_id, round_id)) {
                None
            } else {
                Some((ErrorKind::BadRequest, "chart tag does not belong to tournament round"@))
            },
        ),
{
    match tag {
        Some((t, rd)) => {
            if t == tournament_id && rd == round_id {
                return Ok(());
            }
        },
        None => {},
    }
    Err(bad_request("chart tag does not belong to tournament round"))
}

/// A record looked up by id: the record, or the not-found error with text `missing`.
pub fn require_found<T>(row: Option<T>, missing: &str) -> (r: Result<T, ResponseError>)
    ensures
        match row {
            Some(v) => r == Ok::<T, ResponseError>(v),
            None => r is Err && r->Err_0.is(ErrorKind::NotFound, missing@),
        },
{
    match row {
        Some(v) => Ok(v),
        None => Err(not_found(missing)),
    }
}

/// Once a tournament runs, its registrations and teams are frozen: nobody can register,
/// withdraw, found, join or leave a team.
pub proof fn lemma_running_freezes_teams(
    token: &Token,
    lifecycle: Lifecycle,
    mode: CompetitionMode,
    registered: bool,
    registration: Option<RegistrationFacts>,
    in_team: bool,
    team_found: bool,
    members: u64,
    team_size_max: i32,
    reg_id: Option<i64>,
    membership: Option<i64>,
    captain: Option<i64>,
)
    requires
        stage_index(lifecycle) >= 2,
    ensures
        register_error(token, lifecycle, registered) is Some,
        withdraw_error(token, lifecycle, registered) is Some,
        create_team_error(token, lifecycle, mode, registration, in_team) is Some,
        join_team_error(token, lifecycle, team_found, registration, in_team, members, team_size_max) is Some,
        leave_team_error(token, lifecycle, reg_id, membership, captain) is Some,
{
}

/// A team never grows past its cap: joining is refused once the team has as many members as
/// the tournament's largest team size allows.
pub proof fn lemma_full_team_refuses(
    token: &Token,
    lifecycle: Lifecycle,
    registration: Option<RegistrationFacts>,
    in_team: bool,
    members: u64,
    team_size_max: i32,
)
    requires
        members >= member_cap(team_size_max),
    ensures
        join_team_error(token, lifecycle, true, registration, in_team, members, team_size_max) is Some,
{
}

} // verus!
