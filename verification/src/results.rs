//! Result submission and review: which results are accepted, and how their status may change.
use vstd::prelude::*;

use crate::access::{authenticated, Token};
use crate::error::{bad_request, conflict, forbidden, not_found, outcome, ErrorKind, ResponseError};
use crate::lifecycle::Lifecycle;
use crate::model::{EvidencePolicy, RegistrationStatus};
use crate::text::owned;

verus! {

/// The review state of a result.
#[derive(Clone, Copy, PartialEq, Eq, Debug, Structural)]
pub enum ResultStatus {
    Pending,
    Approved,
    Rejected,
    Voided,
}

/// The review moves that are allowed: a pending result is approved, rejected or voided; an
/// approved or rejected one can only be voided; a voided one stays voided.
pub open spec fn spec_valid_transition(from: ResultStatus, to: ResultStatus) -> bool {
    match (from, to) {
        (ResultStatus::Pending, ResultStatus::Approved) => true,
        (ResultStatus::Pending, ResultStatus::Rejected) => true,
        (ResultStatus::Pending, ResultStatus::Voided) => true,
        (ResultStatus::Approved, ResultStatus::Voided) => true,
        (ResultStatus::Rejected, ResultStatus::Voided) => true,
        _ => false,
    }
}

/// Whether a review may move a result from `from` to `to`.
pub fn valid_transition(from: ResultStatus, to: ResultStatus) -> (b: bool)
    ensures
        b == spec_valid_transition(from, to),
{
    match (from, to) {
        (ResultStatus::Pending, ResultStatus::Approved) => true,
        (ResultStatus::Pending, ResultStatus::Rejected) => true,
        (ResultStatus::Pending, ResultStatus::Voided) => true,
        (ResultStatus::Approved, ResultStatus::Voided) => true,
        (ResultStatus::Rejected, ResultStatus::Voided) => true,
        _ => false,
    }
}

/// How far a status is along review: pending 0, approved or rejected 1, voided 2.
pub open spec fn review_depth(s: ResultStatus) -> int {
    match s {
        ResultStatus::Pending => 0,
        ResultStatus::Approved => 1,
        ResultStatus::Rejected => 1,
        ResultStatus::Voided => 2,
    }
}

/// Review is append-only: every allowed move goes strictly further along review, so nothing
/// returns to pending, a decided result can only be voided, and a voided result never changes.
pub proof fn lemma_review_moves_forward(from: ResultStatus, to: ResultStatus)
    ensures
        spec_valid_transition(from, to) ==> review_depth(to) > review_depth(from),
        spec_valid_transition(from, to) ==> to != ResultStatus::Pending,
        from == ResultStatus::Voided ==> !spec_valid_transition(from, to),
        (from == ResultStatus::Approved || from == ResultStatus::Rejected) && spec_valid_transition(
            from,
            to,
        ) ==> to == ResultStatus::Voided,
{
}

/// Review moves cannot be undone: no allowed move has an allowed move back.
pub proof fn lemma_review_has_no_cycles(a: ResultStatus, b: ResultStatus, c: ResultStatus)
    ensures
        spec_valid_transition(a, b) && spec_valid_transition(b, c) ==> c != a,
        spec_valid_transition(a, b) ==> !spec_valid_transition(b, a),
{
}

/// The allowed review moves are exactly five: a pending result may be approved, rejected or
/// voided, and an approved or rejected result may be voided.
pub proof fn lemma_allowed_review_moves(from: ResultStatus, to: ResultStatus)
    ensures
        spec_valid_transition(from, to) <==> (from == ResultStatus::Pending && (to == ResultStatus::Approved
            || to == ResultStatus::Rejected || to == ResultStatus::Voided)) || ((from == ResultStatus::Approved
            || from == ResultStatus::Rejected) && to == ResultStatus::Voided),
{
}

/// Checks a review request against the current status.
pub fn check_review(current: ResultStatus, requested: ResultStatus) -> (r: Result<(), ResponseError>)
    ensures
        outcome(
            r,
            if spec_valid_transition(current, requested) {
                None
            } else {
                Some((ErrorKind::Conflict, "invalid result status transition"@))
            },
        ),
{
    if !valid_transition(current, requested) {
        return Err(conflict("invalid result status transition"));
    }
    Ok(())
}

/// A review changes the leaderboard when it moves a result into or out of the approved status.
pub fn review_changes_leaderboard(from: ResultStatus, to: ResultStatus) -> (b: bool)
    ensures
        b == (from == ResultStatus::Approved || to == ResultStatus::Approved),
{
    from == ResultStatus::Approved || to == ResultStatus::Approved
}

/// Checks a correction: a voided result is not corrected again.
pub fn check_correction(current: ResultStatus) -> (r: Result<(), ResponseError>)
    ensures
        outcome(
            r,
            if current == ResultStatus::Voided {
                Some((ErrorKind::Conflict, "voided result cannot be corrected again"@))
            } else {
                None
            },
        ),
{
    if current == ResultStatus::Voided {
        return Err(conflict("voided result cannot be corrected again"));
    }
    Ok(())
}

/// A submitted result.
pub struct ResultInput {
    pub registration_id: Option<i64>,
    pub chart_id: i64,
    pub score: i64,
    pub accuracy_millionths: i64,
    pub max_combo: i32,
    pub full_combo: bool,
    pub all_perfect: bool,
    pub judgments: serde_json::Value,
    pub metrics: serde_json::Value,
    /// Seconds since the Unix epoch.
    pub played_at: i64,
    pub evidence: Option<String>,
}

/// Where the registration that a result is filed under is looked up.
#[derive(Clone, Copy, PartialEq, Eq, Debug, Structural)]
pub enum RegistrationLookup {
    /// The registration with this id, in the tournament.
    ById(i64),
    /// The caller's own registration in the tournament.
    OfCaller,
}

/// Staff may file a result under a given registration; everybody else files under their own.
pub fn registration_lookup(staff_entry: bool, registration_id: Option<i64>) -> (r: RegistrationLookup)
    ensures
        r == (if staff_entry && registration_id is Some {
            RegistrationLookup::ById(registration_id->0)
        } else {
            RegistrationLookup::OfCaller
        }),
{
    if staff_entry {
        if let Some(id) = registration_id {
            return RegistrationLookup::ById(id);
        }
    }
    RegistrationLookup::OfCaller
}

/// What was looked up for a submission: the tournament (its stage and evidence policy) if it
/// exists, whether the chart belongs to it, the registration found (its id and status) and the
/// team that registration belongs to.
pub struct SubmissionContext {
    pub tournament: Option<TournamentFacts>,
    pub chart_in_tournament: bool,
    pub registration: Option<RegistrationFacts>,
    pub team_id: Option<i64>,
}

/// The stage and evidence policy of a tournament.
#[derive(Clone, Copy, PartialEq, Eq, Debug)]
pub struct TournamentFacts {
    pub lifecycle: Lifecycle,
    pub evidence_policy: EvidencePolicy,
}

/// The id and status of a registration.
#[derive(Clone, Copy, PartialEq, Eq, Debug)]
pub struct RegistrationFacts {
    pub id: i64,
    pub status: RegistrationStatus,
}

/// A result ready to be stored.
pub struct PreparedResult {
    pub tournament_id: i64,
    pub chart_id: i64,
    pub registration_id: i64,
    pub team_id_snapshot: Option<i64>,
    pub submitted_by: i64,
    pub score: i64,
    pub accuracy_millionths: i64,
    pub max_combo: i32,
    pub full_combo: bool,
    pub all_perfect: bool,
    pub judgments: serde_json::Value,
    pub metrics: serde_json::Value,
    /// Seconds since the Unix epoch.
    pub played_at: i64,
    pub evidence: Option<String>,
    pub status: ResultStatus,
    pub replaces_result_id: Option<i64>,
}

/// The first second after the Unix epoch that `chrono` represents (`DateTime::<Utc>::MIN_UTC`,
/// the start of the year -262143).
pub const UTC_MIN_SECS: i64 = -8334601228800;

/// The last second after the Unix epoch that `chrono` represents (`DateTime::<Utc>::MAX_UTC`,
/// the end of the year 262142).
pub const UTC_MAX_SECS: i64 = 8210266876799;

/// Whether `chrono` represents the instant `secs` seconds after the Unix epoch.
pub open spec fn utc_seconds_in_range(secs: int) -> bool {
    UTC_MIN_SECS <= secs <= UTC_MAX_SECS
}

/// `chrono::DateTime::<Utc>::from_timestamp(secs, 0).is_some()`: the instant lies between
/// `DateTime::<Utc>::MIN_UTC` and `MAX_UTC`, whose dates `NaiveDate::from_num_days_from_ce_opt`
/// accepts.
#[verifier::external_body]
fn utc_seconds_valid(secs: i64) -> (b: bool)
    ensures
        b == utc_seconds_in_range(secs as int),
{
    chrono::DateTime::<chrono::Utc>::from_timestamp(secs, 0).is_some()
}

/// The evidence text, or the empty text when there is none.
pub open spec fn evidence_text(e: Option<String>) -> Seq<char> {
    match e {
        Some(s) => s@,
        None => Seq::empty(),
    }
}

/// The error, if any, of a submission, in the order the checks run.
pub open spec fn submission_error(
    ctx: SubmissionContext,
    score: i64,
    accuracy: i64,
    max_combo: i32,
    played_at: i64,
    evidence: Option<String>,
    staff_entry: bool,
) -> Option<(ErrorKind, Seq<char>)> {
    if score < 0 || !(0 <= accuracy <= 100_000_000) || max_combo < 0 {
        Some((ErrorKind::BadRequest, "score, accuracy, or combo is out of range"@))
    } else if ctx.tournament is None {
        Some((ErrorKind::NotFound, "tournament not found"@))
    } else if (!staff_entry && ctx.tournament->0.lifecycle != Lifecycle::Running) || (staff_entry && !(
    ctx.tournament->0.lifecycle == Lifecycle::Running || ctx.tournament->0.lifecycle == Lifecycle::Review)) {
        Some(
            (
                ErrorKind::Conflict,
                "results can only be submitted while the tournament is running or under review"@,
            ),
        )
    } else if !ctx.chart_in_tournament {
        Some((ErrorKind::BadRequest, "chart does not belong to tournament"@))
    } else if ctx.registration is None || ctx.registration->0.status != RegistrationStatus::Approved {
        Some((ErrorKind::Forbidden, "approved registration required"@))
    } else if !staff_entry && ctx.tournament->0.evidence_policy == EvidencePolicy::Required && evidence_text(
        evidence,
    ).len() == 0 {
        Some((ErrorKind::BadRequest, "screenshot evidence is required"@))
    } else if !staff_entry && ctx.tournament->0.evidence_policy == EvidencePolicy::Disabled && evidence is Some {
        Some((ErrorKind::BadRequest, "screenshot evidence is disabled"@))
    } else if !utc_seconds_in_range(played_at as int) {
        Some((ErrorKind::BadRequest, "invalid played_at timestamp"@))
    } else {
        None
    }
}

/// Checks a submitted result and builds the record to store. Staff entries are approved at once
/// and may be made while the tournament is under review; a participant's entry waits for
/// review, is taken only while the tournament runs, and follows the evidence policy.
pub fn prepare(
    tournament_id: i64,
    token: &Token,
    input: ResultInput,
    staff_entry: bool,
    ctx: &SubmissionContext,
) -> (r: Result<PreparedResult, ResponseError>)
    ensures
        outcome(
            r,
            submission_error(
                *ctx,
                input.score,
                input.accuracy_millionths,
                input.max_combo,
                input.played_at,
                input.evidence,
                staff_entry,
            ),
        ),
        r matches Ok(p) ==> {
            &&& p.tournament_id == tournament_id
            &&& p.chart_id == input.chart_id
            &&& p.registration_id == ctx.registration->0.id
            &&& p.team_id_snapshot == ctx.team_id
            &&& p.submitted_by == token.id
            &&& p.score == input.score
            &&& p.accuracy_millionths == input.accuracy_millionths
            &&& p.max_combo == input.max_combo
            &&& p.full_combo == input.full_combo
            &&& p.all_perfect == input.all_perfect
            &&& p.judgments == input.judgments
            &&& p.metrics == input.metrics
            &&& p.played_at == input.played_at
            &&& p.evidence == input.evidence
            &&& p.status == (if staff_entry {
                ResultStatus::Approved
            } else {
                ResultStatus::Pending
            })
            &&& p.replaces_result_id is None
        },
{
    if input.score < 0 || !(0 <= input.accuracy_millionths && input.accuracy_millionths
        <= 100_000_000) || input.max_combo < 0 {
        return Err(bad_request("score, accuracy, or combo is out of range"));
    }
    let (lifecycle, policy) = match ctx.tournament {
        Some(t) => (t.lifecycle, t.evidence_policy),
        None => {
            return Err(not_found("tournament not found"));
        },
    };
    if (!staff_entry && lifecycle != Lifecycle::Running) || (staff_entry && !(lifecycle
        == Lifecycle::Running || lifecycle == Lifecycle::Review)) {
        return Err(
            conflict("results can only be submitted while the tournament is running or under review"),
        );
    }
    if !ctx.chart_in_tournament {
        return Err(bad_request("chart does not belong to tournament"));
    }
    let registration_id = match ctx.registration {
        Some(reg) => {
            if reg.status != RegistrationStatus::Approved {
                return Err(forbidden("approved registration required"));
            }
            reg.id
        },
        None => {
            return Err(forbidden("approved registration required"));
        },
    };
    if !staff_entry {
        match policy {
            EvidencePolicy::Required => {
                let empty = match &input.evidence {
                    Some(e) => e.as_str().is_empty(),
                    None => true,
                };
                if empty {
                    return Err(bad_request("screenshot evidence is required"));
                }
            },
            EvidencePolicy::Disabled => {
                if input.evidence.is_some() {
                    return Err(bad_request("screenshot evidence is disabled"));
                }
            },
            EvidencePolicy::Optional => {},
        }
    }
    if !utc_seconds_valid(input.played_at) {
        return Err(bad_request("invalid played_at timestamp"));
    }
    Ok(
        PreparedResult {
            tournament_id,
            chart_id: input.chart_id,
            registration_id,
            team_id_snapshot: ctx.team_id,
            submitted_by: token.id,
            score: input.score,
            accuracy_millionths: input.accuracy_millionths,
            max_combo: input.max_combo,
            full_combo: input.full_combo,
            all_perfect: input.all_perfect,
            judgments: input.judgments,
            metrics: input.metrics,
            played_at: input.played_at,
            evidence: input.evidence,
            status: if staff_entry {
                ResultStatus::Approved
            } else {
                ResultStatus::Pending
            },
            replaces_result_id: None,
        },
    )
}

/// Which results a caller may list.
#[derive(Clone, Copy, PartialEq, Eq, Debug, Structural)]
pub enum ResultScope {
    /// Every result of the tournament (staff).
    All,
    /// The results filed under this registration (the caller's own).
    Registration(i64),
}

/// Decides which results a caller sees: staff see all; anybody else needs an approved
/// registration in the tournament (`registration` is the caller's registration, if any) and
/// sees the results filed under it. A withdrawn, rejected or pending registration gives no
/// access to results.
pub fn result_scope(token: &Token, is_staff: bool, registration: Option<RegistrationFacts>) -> (r:
    Result<ResultScope, ResponseError>)
    ensures
        token.id <= 0 ==> r is Err && r->Err_0.is(ErrorKind::Unauthorized, "authentication required"@),
        token.id > 0 && is_staff ==> r == Ok::<ResultScope, ResponseError>(ResultScope::All),
        token.id > 0 && !is_staff && registration is None ==> r is Err && r->Err_0.is(
            ErrorKind::Forbidden,
            "registration required"@,
        ),
        token.id > 0 && !is_staff && registration is Some ==> if registration->0.status
            == RegistrationStatus::Approved {
            r == Ok::<ResultScope, ResponseError>(ResultScope::Registration(registration->0.id))
        } else {
            r is Err && r->Err_0.is(ErrorKind::Forbidden, "approved registration required"@)
        },
{
    authenticated(token)?;
    if is_staff {
        return Ok(ResultScope::All);
    }
    match registration {
        Some(reg) => {
            if reg.status == RegistrationStatus::Approved {
                Ok(ResultScope::Registration(reg.id))
            } else {
                Err(forbidden("approved registration required"))
            }
        },
        None => Err(forbidden("registration required")),
    }
}

/// One row of an import preview: its 1-based position, and the error that would reject it.
pub struct PreviewRow {
    pub row: usize,
    pub valid: bool,
    pub error: Option<String>,
}

/// The preview row for the row at 0-based `index`, given what checking it gave.
pub fn preview_row<T>(index: usize, checked: &Result<T, ResponseError>) -> (p: PreviewRow)
    requires
        index < usize::MAX,
    ensures
        p.row == index + 1,
        p.valid == checked is Ok,
        match checked {
            Ok(_) => p.error is None,
            Err(e) => p.error is Some && p.error->0@ == e.spec_describe(),
        },
{
    match checked {
        Ok(_) => PreviewRow { row: index + 1, valid: true, error: None },
        Err(e) => PreviewRow { row: index + 1, valid: false, error: Some(e.describe()) },
    }
}

/// An import needs at least one row.
pub fn check_import_not_empty(rows: usize) -> (r: Result<(), ResponseError>)
    ensures
        outcome(
            r,
            if rows == 0 {
                Some((ErrorKind::BadRequest, "import is empty"@))
            } else {
                None
            },
        ),
{
    if rows == 0 {
        return Err(bad_request("import is empty"));
    }
    Ok(())
}

/// A stored result is approved at once only when staff enter it, so only then does it change the
/// leaderboard.
pub fn submission_changes_leaderboard(status: ResultStatus) -> (b: bool)
    ensures
        b == (status == ResultStatus::Approved),
{
    status == ResultStatus::Approved
}

} // verus!
