//! Tournaments: their creation, the rules of their updates and deletion.
//!
//! Instants are microseconds since the Unix epoch.
use vstd::prelude::*;

use crate::access::{has_permission, holds, Token};
use crate::error::{bad_request, conflict, forbidden, outcome, ErrorKind, ResponseError};
use crate::lifecycle::{
    spec_schedule_error, stage_index, stage_values, validate_lifecycle_schedule, Lifecycle,
    LifecycleSchedule, LifecycleScheduleMode, StageInput,
};
use crate::model::{CompetitionMode, EvidencePolicy, LeaderboardVisibility, Permission, StaffRole};
use crate::text::{blank, owned, trim, trimmed};

verus! {

/// A tournament's record.
#[derive(Debug)]
pub struct Tournament {
    pub name: String,
    pub brief: String,
    pub description: Option<String>,
    pub rules: Option<String>,
    pub rules_visible: bool,
    pub announcements_visible: bool,
    pub owner_id: i64,
    pub lifecycle: Lifecycle,
    pub competition_mode: CompetitionMode,
    pub evidence_policy: EvidencePolicy,
    pub leaderboard_visibility: LeaderboardVisibility,
    pub cover: Option<String>,
    pub team_size_min: i32,
    pub team_size_max: i32,
    pub registration_start_at: Option<i64>,
    pub registration_end_at: Option<i64>,
    pub start_at: Option<i64>,
    pub end_at: Option<i64>,
    pub schedule: LifecycleSchedule,
    pub organizer_can_edit_archived: bool,
    pub current_round_id: Option<i64>,
    pub created_at: i64,
    pub updated_at: i64,
}

/// The request that creates a tournament.
pub struct CreateTournament {
    pub name: String,
    pub brief: String,
    pub description: Option<String>,
    pub competition_mode: Option<CompetitionMode>,
    pub evidence_policy: Option<EvidencePolicy>,
    pub leaderboard_visibility: Option<LeaderboardVisibility>,
    pub cover: Option<String>,
    pub team_size_min: Option<i32>,
    pub team_size_max: Option<i32>,
    pub registration_start_at: Option<i64>,
    pub registration_end_at: Option<i64>,
    pub start_at: Option<i64>,
    pub end_at: Option<i64>,
    pub rules: Option<String>,
    pub rules_visible: Option<bool>,
    pub announcements_visible: Option<bool>,
}

/// The smallest team size of a new tournament: the one asked for, else 1.
pub open spec fn new_team_min(input: CreateTournament) -> i32 {
    match input.team_size_min {
        Some(v) => v,
        None => 1,
    }
}

/// The largest team size of a new tournament: the one asked for, else the smallest.
pub open spec fn new_team_max(input: CreateTournament) -> i32 {
    match input.team_size_max {
        Some(v) => v,
        None => new_team_min(input),
    }
}

/// A team size range is valid when its smallest size is positive and its largest is no
/// smaller.
pub open spec fn team_sizes_valid(min: i32, max: i32) -> bool {
    min > 0 && max >= min
}

/// Why a tournament cannot be created, if it cannot.
pub open spec fn create_error(token: &Token, input: CreateTournament) -> Option<(ErrorKind, Seq<char>)> {
    if token.id <= 0 {
        Some((ErrorKind::Unauthorized, "authentication required"@))
    } else if trimmed(input.name@).len() == 0 {
        Some((ErrorKind::BadRequest, "tournament name is required"@))
    } else if !team_sizes_valid(new_team_min(input), new_team_max(input)) {
        Some((ErrorKind::BadRequest, "invalid team size range"@))
    } else {
        None
    }
}

/// The schedule of a new tournament: every stage entered by hand, at no set time.
pub open spec fn manual_schedule() -> LifecycleSchedule {
    LifecycleSchedule {
        registration_schedule: LifecycleScheduleMode::Manual,
        registration_at: None,
        running_schedule: LifecycleScheduleMode::Manual,
        running_at: None,
        review_schedule: LifecycleScheduleMode::Manual,
        review_at: None,
        finished_schedule: LifecycleScheduleMode::Manual,
        finished_at: None,
    }
}

/// `t` is the new tournament that `input` asks for, owned by `owner` and created at `now`: a
/// draft with its name trimmed, the settings asked for and the defaults for the rest.
pub open spec fn is_new_tournament(t: Tournament, input: CreateTournament, owner: i64, now: i64) -> bool {
    &&& t.name@ == trimmed(input.name@)
    &&& t.brief == input.brief
    &&& t.description == input.description
    &&& t.rules == input.rules
    &&& t.rules_visible == (input.rules_visible == Some(true))
    &&& t.announcements_visible == (input.announcements_visible == Some(true))
    &&& t.owner_id == owner
    &&& t.lifecycle == Lifecycle::Draft
    &&& t.competition_mode == (match input.competition_mode {
        Some(m) => m,
        None => CompetitionMode::Individual,
    })
    &&& t.evidence_policy == (match input.evidence_policy {
        Some(p) => p,
        None => EvidencePolicy::Optional,
    })
    &&& t.leaderboard_visibility == (match input.leaderboard_visibility {
        Some(v) => v,
        None => LeaderboardVisibility::Live,
    })
    &&& t.cover == input.cover
    &&& t.team_size_min == new_team_min(input)
    &&& t.team_size_max == new_team_max(input)
    &&& t.registration_start_at == input.registration_start_at
    &&& t.registration_end_at == input.registration_end_at
    &&& t.start_at == input.start_at
    &&& t.end_at == input.end_at
    &&& t.schedule == manual_schedule()
    &&& !t.organizer_can_edit_archived
    &&& t.current_round_id is None
    &&& t.created_at == now
    &&& t.updated_at == now
}

/// The tournament that a signed-in user creates (its creator becomes its owner), or why it
/// cannot be created.
pub fn create(token: &Token, input: CreateTournament, now: i64) -> (r: Result<Tournament, ResponseError>)
    ensures
        outcome(r, create_error(token, input)),
        r matches Ok(t) ==> is_new_tournament(t, input, token.id, now),
{
    if token.id <= 0 {
        return Err(crate::error::unauthorized("authentication required"));
    }
    if blank(input.name.as_str()) {
        return Err(bad_request("tournament name is required"));
    }
    let name = trim(input.name.as_str());
    let min = match input.team_size_min {
        Some(v) => v,
        None => 1,
    };
    let max = match input.team_size_max {
        Some(v) => v,
        None => min,
    };
    if min <= 0 || max < min {
        return Err(bad_request("invalid team size range"));
    }
    let name = owned(name);
    Ok(
        Tournament {
            name,
            brief: input.brief,
            description: input.description,
            rules: input.rules,
            rules_visible: input.rules_visible == Some(true),
            announcements_visible: input.announcements_visible == Some(true),
            owner_id: token.id,
            lifecycle: Lifecycle::Draft,
            competition_mode: match input.competition_mode {
                Some(m) => m,
                None => CompetitionMode::Individual,
            },
            evidence_policy: match input.evidence_policy {
                Some(p) => p,
                None => EvidencePolicy::Optional,
            },
            leaderboard_visibility: match input.leaderboard_visibility {
                Some(v) => v,
                None => LeaderboardVisibility::Live,
            },
            cover: input.cover,
            team_size_min: min,
            team_size_max: max,
            registration_start_at: input.registration_start_at,
            registration_end_at: input.registration_end_at,
            start_at: input.start_at,
            end_at: input.end_at,
            schedule: LifecycleSchedule {
                registration_schedule: LifecycleScheduleMode::Manual,
                registration_at: None,
                running_schedule: LifecycleScheduleMode::Manual,
                running_at: None,
                review_schedule: LifecycleScheduleMode::Manual,
                review_at: None,
                finished_schedule: LifecycleScheduleMode::Manual,
                finished_at: None,
            },
            organizer_can_edit_archived: false,
            current_round_id: None,
            created_at: now,
            updated_at: now,
        },
    )
}

/// The request that changes a tournament; absent fields stay as they are. A stage time of
/// `Some(None)` clears it.
pub struct UpdateTournament {
    pub name: Option<String>,
    pub brief: Option<String>,
    pub description: Option<String>,
    pub rules: Option<String>,
    pub rules_visible: Option<bool>,
    pub announcements_visible: Option<bool>,
    pub lifecycle: Option<Lifecycle>,
    pub competition_mode: Option<CompetitionMode>,
    pub evidence_policy: Option<EvidencePolicy>,
    pub leaderboard_visibility: Option<LeaderboardVisibility>,
    pub cover: Option<String>,
    pub team_size_min: Option<i32>,
    pub team_size_max: Option<i32>,
    pub registration_start_at: Option<i64>,
    pub registration_end_at: Option<i64>,
    pub start_at: Option<i64>,
    pub end_at: Option<i64>,
    pub registration_schedule: Option<LifecycleScheduleMode>,
    pub registration_at: Option<Option<i64>>,
    pub running_schedule: Option<LifecycleScheduleMode>,
    pub running_at: Option<Option<i64>>,
    pub review_schedule: Option<LifecycleScheduleMode>,
    pub review_at: Option<Option<i64>>,
    pub finished_schedule: Option<LifecycleScheduleMode>,
    pub finished_at: Option<Option<i64>>,
    pub organizer_can_edit_archived: Option<bool>,
}

/// `new` when given, else `old`.
pub open spec fn or_keep<T>(new: Option<T>, old: T) -> T {
    match new {
        Some(v) => v,
        None => old,
    }
}

/// `new` when given, else `old` (for optional fields).
pub open spec fn or_keep_opt<T>(new: Option<T>, old: Option<T>) -> Option<T> {
    match new {
        Some(v) => Some(v),
        None => old,
    }
}

/// The schedule after an update.
pub open spec fn updated_schedule(cur: LifecycleSchedule, input: UpdateTournament) -> LifecycleSchedule {
    LifecycleSchedule {
        registration_schedule: or_keep(input.registration_schedule, cur.registration_schedule),
        registration_at: or_keep(input.registration_at, cur.registration_at),
        running_schedule: or_keep(input.running_schedule, cur.running_schedule),
        running_at: or_keep(input.running_at, cur.running_at),
        review_schedule: or_keep(input.review_schedule, cur.review_schedule),
        review_at: or_keep(input.review_at, cur.review_at),
        finished_schedule: or_keep(input.finished_schedule, cur.finished_schedule),
        finished_at: or_keep(input.finished_at, cur.finished_at),
    }
}

/// The four later stages of a schedule, named, in order.
pub open spec fn schedule_stages(s: LifecycleSchedule) -> Seq<(LifecycleScheduleMode, Option<i64>, Seq<char>)> {
    seq![
        (s.registration_schedule, s.registration_at, "registration"@),
        (s.running_schedule, s.running_at, "running"@),
        (s.review_schedule, s.review_at, "review"@),
        (s.finished_schedule, s.finished_at, "finished"@),
    ]
}

/// Why an update of `cur` is refused, if it is: the caller must be an owner or organizer (or
/// hold the devops permission); an archived tournament is locked unless devops or the
/// archive is open to organizers; only devops may open the archive to organizers or take a
/// tournament out of the archive; the lifecycle moves one stage forward at a time; the team
/// sizes and the schedule must stay valid.
pub open spec fn update_error(
    cur: Tournament,
    devops: bool,
    role: Option<StaffRole>,
    input: UpdateTournament,
) -> Option<(ErrorKind, Seq<char>)> {
    let min = or_keep(input.team_size_min, cur.team_size_min);
    let max = or_keep(input.team_size_max, cur.team_size_max);
    if !(role == Some(StaffRole::Owner) || role == Some(StaffRole::Organizer) || devops) {
        Some((ErrorKind::Forbidden, "organizer access required"@))
    } else if cur.lifecycle == Lifecycle::Archived && !devops && !cur.organizer_can_edit_archived {
        Some((ErrorKind::Forbidden, "archived tournament is locked"@))
    } else if input.organizer_can_edit_archived is Some && !devops {
        Some((ErrorKind::Forbidden, "devops access required"@))
    } else if cur.lifecycle == Lifecycle::Archived && (input.lifecycle matches Some(v) && v
        != Lifecycle::Archived) && !devops {
        Some((ErrorKind::Forbidden, "only devops can reopen archived tournaments"@))
    } else if input.lifecycle matches Some(next) && next != cur.lifecycle && stage_index(next)
        != stage_index(cur.lifecycle) + 1 {
        Some((ErrorKind::Conflict, "invalid tournament lifecycle transition"@))
    } else if !team_sizes_valid(min, max) {
        Some((ErrorKind::BadRequest, "invalid team size range"@))
    } else {
        spec_schedule_error(cur.created_at, schedule_stages(updated_schedule(cur.schedule, input)), 0, None)
    }
}

/// The tournament after an accepted update at `now`.
pub open spec fn updated_tournament(cur: Tournament, input: UpdateTournament, now: i64) -> Tournament {
    Tournament {
        name: or_keep(input.name, cur.name),
        brief: or_keep(input.brief, cur.brief),
        description: or_keep_opt(input.description, cur.description),
        rules: or_keep_opt(input.rules, cur.rules),
        rules_visible: or_keep(input.rules_visible, cur.rules_visible),
        announcements_visible: or_keep(input.announcements_visible, cur.announcements_visible),
        owner_id: cur.owner_id,
        lifecycle: or_keep(input.lifecycle, cur.lifecycle),
        competition_mode: or_keep(input.competition_mode, cur.competition_mode),
        evidence_policy: or_keep(input.evidence_policy, cur.evidence_policy),
        leaderboard_visibility: or_keep(input.leaderboard_visibility, cur.leaderboard_visibility),
        cover: or_keep_opt(input.cover, cur.cover),
        team_size_min: or_keep(input.team_size_min, cur.team_size_min),
        team_size_max: or_keep(input.team_size_max, cur.team_size_max),
        registration_start_at: or_keep_opt(input.registration_start_at, cur.registration_start_at),
        registration_end_at: or_keep_opt(input.registration_end_at, cur.registration_end_at),
        start_at: or_keep_opt(input.start_at, cur.start_at),
        end_at: or_keep_opt(input.end_at, cur.end_at),
        schedule: updated_schedule(cur.schedule, input),
        organizer_can_edit_archived: or_keep(
            input.organizer_can_edit_archived,
            cur.organizer_can_edit_archived,
        ),
        current_round_id: cur.current_round_id,
        created_at: cur.created_at,
        updated_at: now,
    }
}

/// An accepted update: the new record, and whether the leaderboards must be computed again
/// (the lifecycle or the leaderboard visibility changed).
#[derive(Debug)]
pub struct TournamentUpdate {
    pub tournament: Tournament,
    pub recompute: bool,
}

fn keep<T>(new: Option<T>, old: T) -> (v: T)
    ensures
        v == or_keep(new, old),
{
    match new {
        Some(v) => v,
        None => old,
    }
}

fn keep_opt<T>(new: Option<T>, old: Option<T>) -> (v: Option<T>)
    ensures
        v == or_keep_opt(new, old),
{
    match new {
        Some(v) => Some(v),
        None => old,
    }
}

/// Applies an update to the tournament `cur` at `now` for a caller with the token `token`
/// and the tournament role `role`, or says why it is refused.
pub fn update(
    cur: Tournament,
    token: &Token,
    role: Option<StaffRole>,
    input: UpdateTournament,
    now: i64,
) -> (r: Result<TournamentUpdate, ResponseError>)
    ensures
        outcome(r, update_error(cur, holds(token, Permission::DevOps), role, input)),
        r matches Ok(u) ==> u.tournament == updated_tournament(cur, input, now) && u.recompute == (
        (input.lifecycle matches Some(v) && v != cur.lifecycle) || (
        input.leaderboard_visibility matches Some(v) && v != cur.leaderboard_visibility)),
{
    let devops = has_permission(&token.permissions, Permission::DevOps);
    let can_edit = match role {
        Some(StaffRole::Owner) | Some(StaffRole::Organizer) => true,
        _ => devops,
    };
    if !can_edit {
        return Err(forbidden("organizer access required"));
    }
    if cur.lifecycle == Lifecycle::Archived && !devops && !cur.organizer_can_edit_archived {
        return Err(forbidden("archived tournament is locked"));
    }
    if input.organizer_can_edit_archived.is_some() && !devops {
        return Err(forbidden("devops access required"));
    }
    let reopens = match input.lifecycle {
        Some(v) => v != Lifecycle::Archived,
        None => false,
    };
    if cur.lifecycle == Lifecycle::Archived && reopens && !devops {
        return Err(forbidden("only devops can reopen archived tournaments"));
    }
    let lifecycle_changes = match input.lifecycle {
        Some(v) => v != cur.lifecycle,
        None => false,
    };
    let visibility_changes = match input.leaderboard_visibility {
        Some(v) => v != cur.leaderboard_visibility,
        None => false,
    };
    if let Some(next) = input.lifecycle {
        if next != cur.lifecycle && !cur.lifecycle.can_transition_to(next) {
            return Err(conflict("invalid tournament lifecycle transition"));
        }
    }
    let min = keep(input.team_size_min, cur.team_size_min);
    let max = keep(input.team_size_max, cur.team_size_max);
    if min <= 0 || max < min {
        return Err(bad_request("invalid team size range"));
    }
    let s = cur.schedule;
    let schedule = LifecycleSchedule {
        registration_schedule: keep(input.registration_schedule, s.registration_schedule),
        registration_at: keep(input.registration_at, s.registration_at),
        running_schedule: keep(input.running_schedule, s.running_schedule),
        running_at: keep(input.running_at, s.running_at),
        review_schedule: keep(input.review_schedule, s.review_schedule),
        review_at: keep(input.review_at, s.review_at),
        finished_schedule: keep(input.finished_schedule, s.finished_schedule),
        finished_at: keep(input.finished_at, s.finished_at),
    };
    let stages = [
        StageInput {
            mode: schedule.registration_schedule,
            at: schedule.registration_at,
            name: "registration",
        },
        StageInput { mode: schedule.running_schedule, at: schedule.running_at, name: "running" },
        StageInput { mode: schedule.review_schedule, at: schedule.review_at, name: "review" },
        StageInput {
            mode: schedule.finished_schedule,
            at: schedule.finished_at,
            name: "finished",
        },
    ];
    assert(stage_values(stages@) =~= schedule_stages(schedule));
    validate_lifecycle_schedule(cur.created_at, &stages)?;
    let tournament = Tournament {
        name: keep(input.name, cur.name),
        brief: keep(input.brief, cur.brief),
        description: keep_opt(input.description, cur.description),
        rules: keep_opt(input.rules, cur.rules),
        rules_visible: keep(input.rules_visible, cur.rules_visible),
        announcements_visible: keep(input.announcements_visible, cur.announcements_visible),
        owner_id: cur.owner_id,
        lifecycle: keep(input.lifecycle, cur.lifecycle),
        competition_mode: keep(input.competition_mode, cur.competition_mode),
        evidence_policy: keep(input.evidence_policy, cur.evidence_policy),
        leaderboard_visibility: keep(input.leaderboard_visibility, cur.leaderboard_visibility),
        cover: keep_opt(input.cover, cur.cover),
        team_size_min: min,
        team_size_max: max,
        registration_start_at: keep_opt(input.registration_start_at, cur.registration_start_at),
        registration_end_at: keep_opt(input.registration_end_at, cur.registration_end_at),
        start_at: keep_opt(input.start_at, cur.start_at),
        end_at: keep_opt(input.end_at, cur.end_at),
        schedule,
        organizer_can_edit_archived: keep(
            input.organizer_can_edit_archived,
            cur.organizer_can_edit_archived,
        ),
        current_round_id: cur.current_round_id,
        created_at: cur.created_at,
        updated_at: now,
    };
    Ok(TournamentUpdate { tournament, recompute: lifecycle_changes || visibility_changes })
}

/// A tournament's team size range and lifecycle schedule are valid.
pub open spec fn tournament_valid(t: Tournament) -> bool {
    &&& team_sizes_valid(t.team_size_min, t.team_size_max)
    &&& spec_schedule_error(t.created_at, schedule_stages(t.schedule), 0, None) is None
}

/// A created tournament is valid.
pub proof fn lemma_created_is_valid(t: Tournament, input: CreateTournament, owner: i64, now: i64)
    requires
        is_new_tournament(t, input, owner, now),
        team_sizes_valid(new_team_min(input), new_team_max(input)),
    ensures
        tournament_valid(t),
{
    reveal_with_fuel(spec_schedule_error, 5);
}

/// An accepted update leaves a valid tournament whose lifecycle stayed or moved one stage
/// forward, with the same owner and creation time.
pub proof fn lemma_accepted_update(
    cur: Tournament,
    devops: bool,
    role: Option<StaffRole>,
    input: UpdateTournament,
    now: i64,
)
    requires
        update_error(cur, devops, role, input) is None,
    ensures
        tournament_valid(updated_tournament(cur, input, now)),
        stage_index(updated_tournament(cur, input, now).lifecycle) == stage_index(cur.lifecycle)
            || stage_index(updated_tournament(cur, input, now).lifecycle) == stage_index(
            cur.lifecycle,
        ) + 1,
        updated_tournament(cur, input, now).owner_id == cur.owner_id,
        updated_tournament(cur, input, now).created_at == cur.created_at,
{
}

/// Why a tournament cannot be deleted, if it cannot: callers with the user, statistics or
/// devops permission may delete any tournament; anyone else must be its owner, and may only
/// delete a draft.
pub open spec fn delete_error(token: &Token, role: Option<StaffRole>, lifecycle: Option<Lifecycle>) -> Option<
    (ErrorKind, Seq<char>),
> {
    let admin = holds(token, Permission::DevOps) || holds(token, Permission::Statistics) || holds(
        token,
        Permission::User,
    );
    if !admin && role is None {
        Some((ErrorKind::Forbidden, "tournament staff access required"@))
    } else if !admin && role != Some(StaffRole::Owner) {
        Some((ErrorKind::Forbidden, "owner access required"@))
    } else if lifecycle is None {
        Some((ErrorKind::NotFound, "tournament not found"@))
    } else if lifecycle != Some(Lifecycle::Draft) && !admin {
        Some((ErrorKind::Conflict, "only draft tournaments can be deleted"@))
    } else {
        None
    }
}

/// Whether a caller with `token` and the tournament role `role` may delete a tournament in
/// the stage `lifecycle` (`None` when there is no such tournament).
pub fn check_delete(token: &Token, role: Option<StaffRole>, lifecycle: Option<Lifecycle>) -> (r: Result<
    (),
    ResponseError,
>)
    ensures
        outcome(r, delete_error(token, role, lifecycle)),
{
    let admin = has_permission(&token.permissions, Permission::DevOps) || has_permission(
        &token.permissions,
        Permission::Statistics,
    ) || has_permission(&token.permissions, Permission::User);
    if !admin {
        crate::access::require_owner(role)?;
    }
    match lifecycle {
        None => Err(crate::error::not_found("tournament not found")),
        Some(l) => {
            if l != Lifecycle::Draft && !admin {
                Err(conflict("only draft tournaments can be deleted"))
            } else {
                Ok(())
            }
        },
    }
}

} // verus!
