//! Tournament rounds: who sees a round and when, how its schedule is checked, and the moves that
//! enter, release, withdraw and end it.
//!
//! Instants are microseconds since the Unix epoch.
use vstd::prelude::*;

use crate::error::{bad_request, conflict, not_found, outcome, ErrorKind, ResponseError};
use crate::lifecycle::Lifecycle;
use crate::model::StaffRole;
use crate::results::utc_seconds_in_range;
use crate::text::{decimal, owned, push_decimal, str_eq};

verus! {

broadcast use vstd::string::group_string_axioms;

/// The three kinds of reader of a round.
#[derive(Clone, Copy, PartialEq, Eq, Debug, Structural)]
pub enum Audience {
    Staff,
    ApprovedParticipant,
    Public,
}

/// When a round's content is released to its audience.
#[derive(Clone, Copy, PartialEq, Eq, Debug, Structural)]
pub enum ReleaseTiming {
    OnEnter,
    Immediate,
    OnEnd,
}

/// How a round ends.
#[derive(Clone, Copy, PartialEq, Eq, Debug, Structural)]
pub enum EndMode {
    OnNextRound,
    AtTime,
    Manual,
}

/// The release audience of a round as stored: a JSON array whose items are, where they are JSON
/// strings, their text. `items` is `None` when the stored value is not an array.
pub struct ReleaseAudience {
    pub items: Option<Vec<Option<String>>>,
}

/// The items of the audience list (none when it is not a list).
pub open spec fn audience_items(a: &ReleaseAudience) -> Seq<Option<String>> {
    match &a.items {
        Some(v) => v@,
        None => Seq::empty(),
    }
}

/// The list names the audience word `w`.
pub open spec fn names(a: &ReleaseAudience, w: Seq<char>) -> bool {
    exists|i: int| 0 <= i < audience_items(a).len() && (#[trigger] audience_items(a)[i] matches Some(s) && s@ == w)
}

/// A round, as its visibility and its moves read it.
pub struct Round {
    pub id: i64,
    pub tournament_id: i64,
    pub name: String,
    pub description: Option<String>,
    pub order_index: i32,
    pub start_at: Option<i64>,
    pub end_at: Option<i64>,
    pub release_audience: ReleaseAudience,
    pub release_timing: ReleaseTiming,
    pub end_mode: EndMode,
    pub release_at: Option<i64>,
    pub started_at: Option<i64>,
    pub ended_at: Option<i64>,
    pub released_at: Option<i64>,
    pub manually_released: bool,
    pub manually_ended: bool,
    pub release_version: i64,
}

/// Whether `audience` sees round `r` while the tournament's current round is `current`.
/// Staff see every round. Others see a round only when its audience list lets them in
/// ("participants" or "public" for approved participants, "public" for the public) and it has
/// been released: by hand, or by its timing (at once; once it has started or is the current
/// round; once it has ended).
pub open spec fn spec_is_visible(r: &Round, audience: Audience, current: Option<i64>) -> bool {
    if audience == Audience::Staff {
        true
    } else {
        let allowed = match audience {
            Audience::ApprovedParticipant => names(&r.release_audience, "participants"@) || names(
                &r.release_audience,
                "public"@,
            ),
            _ => names(&r.release_audience, "public"@),
        };
        allowed && (r.manually_released || match r.release_timing {
            ReleaseTiming::Immediate => true,
            ReleaseTiming::OnEnter => r.started_at is Some || current == Some(r.id),
            ReleaseTiming::OnEnd => r.ended_at is Some,
        })
    }
}

/// Whether the list holds the word `w`.
fn audience_names(a: &ReleaseAudience, w: &str) -> (b: bool)
    ensures
        b == names(a, w@),
{
    match &a.items {
        None => false,
        Some(items) => {
            let mut i: usize = 0;
            while i < items.len()
                invariant
                    i <= items.len(),
                    audience_items(a) == items@,
                    forall|k: int| 0 <= k < i ==> !(#[trigger] items@[k] matches Some(s) && s@ == w@),
                decreases items.len() - i,
            {
                if let Some(s) = &items[i] {
                    if str_eq(s.as_str(), w) {
                        assert(audience_items(a)[i as int] matches Some(s) && s@ == w@);
                        return true;
                    }
                }
                i = i + 1;
            }
            false
        },
    }
}

/// Whether `audience` sees `row` while the current round is `current_round_id`.
pub fn is_visible(row: &Round, audience: Audience, current_round_id: Option<i64>) -> (b: bool)
    ensures
        b == spec_is_visible(row, audience, current_round_id),
{
    if audience == Audience::Staff {
        return true;
    }
    let allowed = match audience {
        Audience::ApprovedParticipant => audience_names(&row.release_audience, "participants")
            || audience_names(&row.release_audience, "public"),
        Audience::Public => audience_names(&row.release_audience, "public"),
        Audience::Staff => true,
    };
    if !allowed {
        return false;
    }
    if row.manually_released {
        return true;
    }
    match row.release_timing {
        ReleaseTiming::Immediate => true,
        ReleaseTiming::OnEnter => row.started_at.is_some() || current_round_id == Some(row.id),
        ReleaseTiming::OnEnd => row.ended_at.is_some(),
    }
}

/// Whatever the public sees, approved participants see, and whatever they see, staff see.
pub proof fn lemma_visibility_widens(r: &Round, current: Option<i64>)
    ensures
        spec_is_visible(r, Audience::Public, current) ==> spec_is_visible(
            r,
            Audience::ApprovedParticipant,
            current,
        ),
        spec_is_visible(r, Audience::ApprovedParticipant, current) ==> spec_is_visible(
            r,
            Audience::Staff,
            current,
        ),
{
}

/// A word lets a reader in wherever it stands in the audience list; a list without it, or a
/// stored value that is not a list, does not.
pub proof fn lemma_audience_names(a: &ReleaseAudience, w: Seq<char>, i: int)
    ensures
        a.items matches Some(v) && 0 <= i < v@.len() && (v@[i] matches Some(t) && t@ == w) ==> names(a, w),
        a.items is None ==> !names(a, w),
        (a.items matches Some(v) && forall|j: int|
            0 <= j < v@.len() ==> !(#[trigger] v@[j] matches Some(t) && t@ == w)) ==> !names(a, w),
{
    if let Some(v) = &a.items {
        if 0 <= i < v@.len() && (v@[i] matches Some(t) && t@ == w) {
            assert(audience_items(a)[i] == v@[i]);
        }
    }
}

/// Who sees a round. Staff see every round. The public is let in only by "public" in the
/// round's audience list, approved participants by "participants" or "public"; anyone not let
/// in sees nothing. Someone let in sees a round released by hand, and otherwise by its
/// timing: an immediate round at once; an on-enter round once it has been entered (whatever
/// round is current afterwards) or while it is the current round, and not before; an on-end
/// round once it has ended, and not before.
pub proof fn lemma_round_visibility(r: &Round, audience: Audience, current: Option<i64>)
    ensures
        audience == Audience::Staff ==> spec_is_visible(r, audience, current),
        audience == Audience::Public && !names(&r.release_audience, "public"@) ==> !spec_is_visible(
            r,
            audience,
            current,
        ),
        audience == Audience::ApprovedParticipant && !names(&r.release_audience, "participants"@)
            && !names(&r.release_audience, "public"@) ==> !spec_is_visible(r, audience, current),
        ({
            let admitted = (audience == Audience::Public && names(&r.release_audience, "public"@)) || (
            audience == Audience::ApprovedParticipant && (names(&r.release_audience, "participants"@)
                || names(&r.release_audience, "public"@)));
            &&& admitted && r.manually_released ==> spec_is_visible(r, audience, current)
            &&& admitted && r.release_timing == ReleaseTiming::Immediate ==> spec_is_visible(
                r,
                audience,
                current,
            )
            &&& admitted && r.release_timing == ReleaseTiming::OnEnter && r.started_at is Some
                ==> spec_is_visible(r, audience, current)
            &&& admitted && r.release_timing == ReleaseTiming::OnEnter && current == Some(r.id)
                ==> spec_is_visible(r, audience, current)
            &&& admitted && r.release_timing == ReleaseTiming::OnEnter && !r.manually_released
                && r.started_at is None && current != Some(r.id) ==> !spec_is_visible(r, audience, current)
            &&& admitted && r.release_timing == ReleaseTiming::OnEnd && r.ended_at is Some
                ==> spec_is_visible(r, audience, current)
            &&& admitted && r.release_timing == ReleaseTiming::OnEnd && !r.manually_released
                && r.ended_at is None ==> !spec_is_visible(r, audience, current)
        }),
{
}

/// An entered round stays visible to those it is released to when the tournament moves on:
/// which round is current does not matter once an on-enter round has started.
pub proof fn lemma_entered_round_stays_visible(r: &Round, audience: Audience, current: Option<i64>, later: Option<i64>)
    requires
        r.release_timing == ReleaseTiming::OnEnter,
        r.started_at is Some,
    ensures
        spec_is_visible(r, audience, current) == spec_is_visible(r, audience, later),
{
}

/// The reader kind of a caller: staff when the caller holds a staff row, else an approved
/// participant when signed in with an approved registration, else the public.
pub fn audience_of(staff_role: Option<StaffRole>, token_id: i64, approved_registration: bool) -> (a: Audience)
    ensures
        a == (if staff_role is Some {
            Audience::Staff
        } else if token_id > 0 && approved_registration {
            Audience::ApprovedParticipant
        } else {
            Audience::Public
        }),
{
    if staff_role.is_some() {
        return Audience::Staff;
    }
    if token_id > 0 && approved_registration {
        return Audience::ApprovedParticipant;
    }
    Audience::Public
}

/// The rounds that `audience` sees while the current round is `current`.
pub open spec fn shown_to(audience: Audience, current: Option<i64>) -> spec_fn(Round) -> bool {
    |r: Round| spec_is_visible(&r, audience, current)
}

/// The rounds of `rows` that `audience` sees, in order.
pub fn visible_rounds(rows: Vec<Round>, audience: Audience, current_round_id: Option<i64>) -> (out: Vec<Round>)
    ensures
        out@ == rows@.filter(shown_to(audience, current_round_id)),
{
    let ghost keep = shown_to(audience, current_round_id);
    let ghost all = rows@;
    let mut out: Vec<Round> = Vec::new();
    for row in it: rows
        invariant
            it.seq() == all,
            keep == shown_to(audience, current_round_id),
            out@ == all.take(it.index() as int).filter(keep),
    {
        let ghost i = it.index();
        assert(row == all[i]);
        proof {
            assert(all.take(i + 1) == all.take(i).push(row));
            all.take(i).lemma_filter_push(row, keep);
        }
        let ghost old_out = out@;
        let shown = (audience == Audience::Staff) || is_visible(&row, audience, current_round_id);
        if shown {
            out.push(row);
        }
        assert(out@ == all.take(i + 1).filter(keep));
    }
    assert(all.take(all.len() as int) == all);
    out
}

/// The error, if any, of a release-audience list.
pub open spec fn audience_error(a: &ReleaseAudience) -> Option<(ErrorKind, Seq<char>)> {
    if a.items is None {
        Some((ErrorKind::BadRequest, "release audience must be an array"@))
    } else if audience_items(a).len() == 0 || exists|i: int|
        0 <= i < audience_items(a).len() && !(#[trigger] audience_items(a)[i] matches Some(s) && (
        s@ == "public"@ || s@ == "participants"@ || s@ == "staff"@)) {
        Some((ErrorKind::BadRequest, "invalid release audience"@))
    } else {
        None
    }
}

/// Checks a release-audience list: a non-empty array of "public", "participants" and "staff".
pub fn validate_audience(value: &ReleaseAudience) -> (r: Result<(), ResponseError>)
    ensures
        outcome(r, audience_error(value)),
{
    let items = match &value.items {
        None => {
            return Err(bad_request("release audience must be an array"));
        },
        Some(items) => items,
    };
    if items.len() == 0 {
        return Err(bad_request("invalid release audience"));
    }
    let mut i: usize = 0;
    while i < items.len()
        invariant
            i <= items.len(),
            audience_items(value) == items@,
            forall|k: int|
                0 <= k < i ==> (#[trigger] items@[k] matches Some(s) && (s@ == "public"@ || s@
                    == "participants"@ || s@ == "staff"@)),
        decreases items.len() - i,
    {
        let ok = match &items[i] {
            Some(s) => str_eq(s.as_str(), "public") || str_eq(s.as_str(), "participants") || str_eq(
                s.as_str(),
                "staff",
            ),
            None => false,
        };
        if !ok {
            assert(!(audience_items(value)[i as int] matches Some(s) && (s@ == "public"@ || s@
                == "participants"@ || s@ == "staff"@)));
            return Err(bad_request("invalid release audience"));
        }
        i = i + 1;
    }
    Ok(())
}

/// The release audience of a new round when none is given: staff only.
pub fn default_release_audience() -> (a: ReleaseAudience)
    ensures
        audience_items(&a).len() == 1,
        audience_items(&a)[0] matches Some(s) && s@ == "staff"@,
        a.items is Some,
{
    let mut v: Vec<Option<String>> = Vec::new();
    v.push(Some(owned("staff")));
    ReleaseAudience { items: Some(v) }
}

/// The error, if any, of a round schedule.
pub open spec fn schedule_error(
    start_at: Option<i64>,
    end_at: Option<i64>,
    release_at: Option<i64>,
    end_mode: EndMode,
) -> Option<(ErrorKind, Seq<char>)> {
    if end_mode == EndMode::AtTime && release_at is None {
        Some((ErrorKind::BadRequest, "round end time is required"@))
    } else if end_at is Some && start_at is Some && end_at->0 < start_at->0 {
        Some((ErrorKind::BadRequest, "round end time must not precede start time"@))
    } else if end_mode == EndMode::AtTime && release_at is Some && start_at is Some
        && release_at->0 < start_at->0 {
        Some((ErrorKind::BadRequest, "round release time must not precede start time"@))
    } else {
        None
    }
}

/// Checks a round schedule: a round that ends at a set time needs that time; the end does not
/// precede the start; the set time does not precede the start.
pub fn validate_schedule_values(
    start_at: Option<i64>,
    end_at: Option<i64>,
    release_at: Option<i64>,
    end_mode: EndMode,
) -> (r: Result<(), ResponseError>)
    ensures
        outcome(r, schedule_error(start_at, end_at, release_at, end_mode)),
{
    if end_mode == EndMode::AtTime && release_at.is_none() {
        return Err(bad_request("round end time is required"));
    }
    if let (Some(end), Some(start)) = (end_at, start_at) {
        if end < start {
            return Err(bad_request("round end time must not precede start time"));
        }
    }
    if end_mode == EndMode::AtTime {
        if let (Some(release), Some(start)) = (release_at, start_at) {
            if release < start {
                return Err(bad_request("round release time must not precede start time"));
            }
        }
    }
    Ok(())
}

/// Checks the schedule of a stored round.
pub fn validate_schedule(row: &Round) -> (r: Result<(), ResponseError>)
    ensures
        outcome(r, schedule_error(row.start_at, row.end_at, row.release_at, row.end_mode)),
{
    validate_schedule_values(row.start_at, row.end_at, row.release_at, row.end_mode)
}

/// The fields of a round that its organizer sets.
pub struct RoundInput {
    pub name: String,
    pub description: Option<String>,
    pub order_index: i32,
    pub start_at: Option<i64>,
    pub end_at: Option<i64>,
    pub release_audience: ReleaseAudience,
    pub release_timing: ReleaseTiming,
    pub end_mode: EndMode,
    pub release_at: Option<i64>,
}

/// A new round of tournament `tournament_id` from `input` (its id is given by the store):
/// checked, not yet started, ended or released.
pub fn new_round(tournament_id: i64, input: RoundInput) -> (r: Result<Round, ResponseError>)
    ensures
        outcome(
            r,
            if audience_error(&input.release_audience) is Some {
                audience_error(&input.release_audience)
            } else {
                schedule_error(input.start_at, input.end_at, input.release_at, input.end_mode)
            },
        ),
        r matches Ok(row) ==> {
            &&& row.tournament_id == tournament_id
            &&& row.name == input.name
            &&& row.description == input.description
            &&& row.order_index == input.order_index
            &&& row.start_at == input.start_at
            &&& row.end_at == input.end_at
            &&& row.release_audience == input.release_audience
            &&& row.release_timing == input.release_timing
            &&& row.end_mode == input.end_mode
            &&& row.release_at == input.release_at
            &&& row.started_at is None
            &&& row.ended_at is None
            &&& row.released_at is None
            &&& !row.manually_released
            &&& !row.manually_ended
            &&& row.release_version == 0
        },
{
    validate_audience(&input.release_audience)?;
    validate_schedule_values(input.start_at, input.end_at, input.release_at, input.end_mode)?;
    Ok(
        Round {
            id: 0,
            tournament_id,
            name: input.name,
            description: input.description,
            order_index: input.order_index,
            start_at: input.start_at,
            end_at: input.end_at,
            release_audience: input.release_audience,
            release_timing: input.release_timing,
            end_mode: input.end_mode,
            release_at: input.release_at,
            started_at: None,
            ended_at: None,
            released_at: None,
            manually_released: false,
            manually_ended: false,
            release_version: 0,
        },
    )
}

/// `current` with the organizer's fields of `input`, checked; what the round went through
/// (started, ended, released) is kept.
pub fn updated_round(current: Round, input: RoundInput) -> (r: Result<Round, ResponseError>)
    ensures
        outcome(
            r,
            if audience_error(&input.release_audience) is Some {
                audience_error(&input.release_audience)
            } else {
                schedule_error(input.start_at, input.end_at, input.release_at, input.end_mode)
            },
        ),
        r matches Ok(row) ==> {
            &&& row.id == current.id
            &&& row.tournament_id == current.tournament_id
            &&& row.name == input.name
            &&& row.description == input.description
            &&& row.order_index == input.order_index
            &&& row.start_at == input.start_at
            &&& row.end_at == input.end_at
            &&& row.release_audience == input.release_audience
            &&& row.release_timing == input.release_timing
            &&& row.end_mode == input.end_mode
            &&& row.release_at == input.release_at
            &&& row.started_at == current.started_at
            &&& row.ended_at == current.ended_at
            &&& row.released_at == current.released_at
            &&& row.manually_released == current.manually_released
            &&& row.manually_ended == current.manually_ended
            &&& row.release_version == current.release_version
        },
{
    validate_audience(&input.release_audience)?;
    let row = Round {
        id: current.id,
        tournament_id: current.tournament_id,
        name: input.name,
        description: input.description,
        order_index: input.order_index,
        start_at: input.start_at,
        end_at: input.end_at,
        release_audience: input.release_audience,
        release_timing: input.release_timing,
        end_mode: input.end_mode,
        release_at: input.release_at,
        started_at: current.started_at,
        ended_at: current.ended_at,
        released_at: current.released_at,
        manually_released: current.manually_released,
        manually_ended: current.manually_ended,
        release_version: current.release_version,
    };
    validate_schedule(&row)?;
    Ok(row)
}

/// What entering a round changes: the round that was current and not yet ended (if it is another
/// round) is ended at `now`, the entered round starts at `now` unless it has ended, and it
/// becomes the tournament's current round. Both rounds get release version 1.
#[derive(Clone, Copy, PartialEq, Eq, Debug)]
pub struct EnterPlan {
    pub end_round: Option<i64>,
    pub start_round: i64,
    pub at: i64,
}

/// The instant `micros` microseconds after the Unix epoch as `chrono` displays it (e.g.
/// "2026-07-28 20:00:00 UTC").
pub uninterp spec fn utc_display(micros: i64) -> Seq<char>;

/// `chrono::DateTime::<Utc>::from_timestamp_micros(micros)` displayed with `Display`: `None`
/// exactly when the instant's second (rounded down) lies outside `chrono`'s range. What
/// `chrono` prints is not stated.
#[verifier::external_body]
fn display_utc(micros: i64) -> (s: Option<String>)
    ensures
        s is Some <==> utc_seconds_in_range(micros as int / 1_000_000),
        s matches Some(t) ==> t@ == utc_display(micros),
{
    match chrono::DateTime::<chrono::Utc>::from_timestamp_micros(micros) {
        Some(t) => Some(format!("{t}")),
        None => None,
    }
}

/// How the start of a round is shown: as `chrono` displays it, or as the bare number of
/// microseconds when `chrono` cannot represent it.
pub open spec fn start_text(micros: i64) -> Seq<char> {
    if utc_seconds_in_range(micros as int / 1_000_000) {
        utc_display(micros)
    } else {
        decimal(micros as int)
    }
}

/// The error, if any, of entering round `round` of a tournament in stage `lifecycle`.
pub open spec fn enter_error(lifecycle: Lifecycle, round: Option<&Round>, force: bool, now: i64) -> Option<
    (ErrorKind, Seq<char>),
> {
    if lifecycle != Lifecycle::Running {
        Some((ErrorKind::Conflict, "rounds can only be entered while tournament is running"@))
    } else if round is None {
        Some((ErrorKind::NotFound, "round not found"@))
    } else if round->0.ended_at is Some {
        Some((ErrorKind::Conflict, "ended round cannot be entered"@))
    } else if !force && round->0.start_at is Some && round->0.start_at->0 > now {
        Some((ErrorKind::Conflict, "round is scheduled for "@ + start_text(round->0.start_at->0)))
    } else {
        None
    }
}

/// Decides entering round `round_id` (found as `round`, if it belongs to the tournament) at
/// `now`: only while the tournament runs, never an ended round, and before its start only when
/// forced.
pub fn plan_enter_round(
    lifecycle: Lifecycle,
    current_round_id: Option<i64>,
    round_id: i64,
    round: Option<&Round>,
    force: bool,
    now: i64,
) -> (r: Result<EnterPlan, ResponseError>)
    ensures
        outcome(r, enter_error(lifecycle, round, force, now)),
        r matches Ok(p) ==> p == (EnterPlan {
            end_round: if current_round_id is Some && current_round_id != Some(round_id) {
                current_round_id
            } else {
                None
            },
            start_round: round_id,
            at: now,
        }),
{
    if lifecycle != Lifecycle::Running {
        return Err(conflict("rounds can only be entered while tournament is running"));
    }
    let round = match round {
        Some(r) => r,
        None => {
            return Err(not_found("round not found"));
        },
    };
    if round.ended_at.is_some() {
        return Err(conflict("ended round cannot be entered"));
    }
    if !force {
        if let Some(at) = round.start_at {
            if at > now {
                let mut msg = owned("round is scheduled for ");
                match display_utc(at) {
                    Some(text) => {
                        msg = msg.concat(text.as_str());
                    },
                    None => {
                        push_decimal(&mut msg, at);
                    },
                }
                return Err(ResponseError::Conflict(msg));
            }
        }
    }
    let end_round = match current_round_id {
        Some(c) => if c != round_id {
            Some(c)
        } else {
            None
        },
        None => None,
    };
    Ok(EnterPlan { end_round, start_round: round_id, at: now })
}

/// The round after a manual release at `now`.
pub open spec fn spec_released(r: Round, now: i64) -> Round {
    Round { manually_released: true, released_at: Some(now), release_version: (r.release_version + 1) as i64, ..r }
}

/// Releases a round by hand at `now`.
pub fn release_round(round: Round, now: i64) -> (out: Round)
    requires
        round.release_version < i64::MAX,
    ensures
        out == spec_released(round, now),
{
    Round { manually_released: true, released_at: Some(now), release_version: round.release_version + 1, ..round }
}

/// The round after its manual release is withdrawn.
pub open spec fn spec_withdrawn(r: Round) -> Round {
    Round { manually_released: false, released_at: None, release_version: (r.release_version + 1) as i64, ..r }
}

/// Withdraws the manual release of a round that has not been entered.
pub fn withdraw_round_release(round: Round) -> (r: Result<Round, ResponseError>)
    requires
        round.release_version < i64::MAX,
    ensures
        outcome(
            r,
            if round.started_at is Some || round.ended_at is Some || !round.manually_released {
                Some(
                    (
                        ErrorKind::Conflict,
                        "round release cannot be withdrawn after entering the round"@,
                    ),
                )
            } else {
                None
            },
        ),
        r matches Ok(out) ==> out == spec_withdrawn(round),
{
    if round.started_at.is_some() || round.ended_at.is_some() || !round.manually_released {
        return Err(conflict("round release cannot be withdrawn after entering the round"));
    }
    Ok(Round { manually_released: false, released_at: None, release_version: round.release_version + 1, ..round })
}

/// The error, if any, of ending round `round_id` of a tournament in stage `lifecycle`.
pub open spec fn end_error(
    lifecycle: Lifecycle,
    current_round_id: Option<i64>,
    round_id: i64,
    round: Option<&Round>,
) -> Option<(ErrorKind, Seq<char>)> {
    if lifecycle != Lifecycle::Running {
        Some((ErrorKind::Conflict, "rounds can only be ended while tournament is running"@))
    } else if round is None {
        Some((ErrorKind::NotFound, "round not found"@))
    } else if current_round_id != Some(round_id) || round->0.started_at is None || round->0.ended_at is Some {
        Some((ErrorKind::Conflict, "only the current active round can be ended"@))
    } else {
        None
    }
}

/// The round after it is ended by hand at `now`.
pub open spec fn spec_ended(r: Round, now: i64) -> Round {
    Round { ended_at: Some(now), manually_ended: true, release_version: (r.release_version + 1) as i64, ..r }
}

/// Ends the current, started round by hand at `now`.
pub fn end_round(
    lifecycle: Lifecycle,
    current_round_id: Option<i64>,
    round_id: i64,
    round: Option<Round>,
    now: i64,
) -> (r: Result<Round, ResponseError>)
    requires
        round matches Some(x) ==> x.release_version < i64::MAX,
    ensures
        outcome(r, end_error(lifecycle, current_round_id, round_id, match &round { Some(x) => Some(x), None => None })),
        r matches Ok(out) ==> out == spec_ended(round->0, now),
{
    if lifecycle != Lifecycle::Running {
        return Err(conflict("rounds can only be ended while tournament is running"));
    }
    let round = match round {
        Some(r) => r,
        None => {
            return Err(not_found("round not found"));
        },
    };
    if current_round_id != Some(round_id) || round.started_at.is_none() || round.ended_at.is_some() {
        return Err(conflict("only the current active round can be ended"));
    }
    Ok(Round { ended_at: Some(now), manually_ended: true, release_version: round.release_version + 1, ..round })
}

/// Withdrawing a release undoes it: a round that was not released by hand and has not been
/// entered can be released and withdrawn, and comes back with its release fields as they were.
pub proof fn lemma_withdraw_undoes_release(r: Round, now: i64)
    requires
        r.release_version < i64::MAX - 1,
        !r.manually_released,
        r.released_at is None,
        r.started_at is None,
        r.ended_at is None,
    ensures
        ({
            let back = spec_withdrawn(spec_released(r, now));
            &&& back.manually_released == r.manually_released
            &&& back.released_at == r.released_at
            &&& back.release_version == r.release_version + 2
            &&& back.started_at == r.started_at && back.ended_at == r.ended_at
            &&& back.release_timing == r.release_timing
            &&& back.release_audience == r.release_audience
        }),
        !(spec_released(r, now).started_at is Some || spec_released(r, now).ended_at is Some
            || !spec_released(r, now).manually_released),
{
}

/// Once a round has ended it stays closed: it cannot be entered, ended again, or have its
/// release withdrawn.
pub proof fn lemma_ended_round_is_closed(
    r: Round,
    now: i64,
    lifecycle: Lifecycle,
    current: Option<i64>,
    force: bool,
    later: i64,
)
    ensures
        ({
            let e = spec_ended(r, now);
            &&& lifecycle == Lifecycle::Running ==> enter_error(lifecycle, Some(&e), force, later) is Some
            &&& end_error(lifecycle, current, e.id, Some(&e)) is Some
            &&& e.ended_at is Some
        }),
{
}

} // verus!
