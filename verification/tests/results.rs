use rhythm_arena::access::Token;
use rhythm_arena::error::ResponseError;
use rhythm_arena::results::{
    check_correction, check_import_not_empty, check_review, preview_row, result_scope,
    review_changes_leaderboard, valid_transition, ResultScope, ResultStatus,
};

#[test]
fn result_state_machine_is_append_only_after_review() {
    assert!(valid_transition(ResultStatus::Pending, ResultStatus::Approved));
    assert!(valid_transition(ResultStatus::Approved, ResultStatus::Voided));
    assert!(!valid_transition(ResultStatus::Rejected, ResultStatus::Approved));
    assert!(!valid_transition(ResultStatus::Voided, ResultStatus::Pending));
}

#[test]
fn review_and_correction_checks() {
    match check_review(ResultStatus::Voided, ResultStatus::Approved) {
        Err(ResponseError::Conflict(m)) => assert_eq!(m, "invalid result status transition"),
        other => panic!("unexpected {:?}", other),
    }
    assert!(check_review(ResultStatus::Pending, ResultStatus::Rejected).is_ok());
    assert!(review_changes_leaderboard(ResultStatus::Approved, ResultStatus::Voided));
    assert!(!review_changes_leaderboard(ResultStatus::Pending, ResultStatus::Rejected));
    match check_correction(ResultStatus::Voided) {
        Err(ResponseError::Conflict(m)) => assert_eq!(m, "voided result cannot be corrected again"),
        other => panic!("unexpected {:?}", other),
    }
    assert!(check_correction(ResultStatus::Approved).is_ok());
}

#[test]
fn result_listing_scope() {
    let anonymous = Token { id: 0, nickname: String::new(), permissions: vec![] };
    let user = Token { id: 5, nickname: "u".to_owned(), permissions: vec![] };
    assert!(matches!(result_scope(&anonymous, true, None), Err(ResponseError::Unauthorized(_))));
    assert_eq!(result_scope(&user, true, None).unwrap(), ResultScope::All);
    let reg = |status| Some(RegistrationFacts { id: 9, status });
    assert_eq!(result_scope(&user, false, reg(RegistrationStatus::Approved)).unwrap(), ResultScope::Registration(9));
    for status in [RegistrationStatus::Withdrawn, RegistrationStatus::Rejected, RegistrationStatus::Pending] {
        match result_scope(&user, false, reg(status)) {
            Err(ResponseError::Forbidden(m)) => assert_eq!(m, "approved registration required"),
            other => panic!("unexpected {:?}", other),
        }
    }
    match result_scope(&user, false, None) {
        Err(ResponseError::Forbidden(m)) => assert_eq!(m, "registration required"),
        other => panic!("unexpected {:?}", other),
    }
}

#[test]
fn import_preview_rows() {
    let ok: Result<(), ResponseError> = Ok(());
    let bad: Result<(), ResponseError> = Err(ResponseError::BadRequest("score out".to_owned()));
    let p = preview_row(0, &ok);
    assert_eq!((p.row, p.valid, p.error), (1, true, None));
    let q = preview_row(4, &bad);
    assert_eq!((q.row, q.valid), (5, false));
    assert_eq!(q.error.as_deref(), Some("bad request: score out"));
    match check_import_not_empty(0) {
        Err(ResponseError::BadRequest(m)) => assert_eq!(m, "import is empty"),
        other => panic!("unexpected {:?}", other),
    }
    assert!(check_import_not_empty(2).is_ok());
}

use rhythm_arena::lifecycle::Lifecycle;
use rhythm_arena::model::{EvidencePolicy, RegistrationStatus};
use rhythm_arena::results::{prepare, UTC_MAX_SECS, UTC_MIN_SECS, RegistrationFacts, ResultInput, SubmissionContext, TournamentFacts};

fn submission(played_at: i64, evidence: Option<&str>) -> ResultInput {
    ResultInput {
        registration_id: None,
        chart_id: 10,
        score: 990_000,
        accuracy_millionths: 99_500_000,
        max_combo: 512,
        full_combo: true,
        all_perfect: false,
        judgments: serde_json::Value::Object(serde_json::Map::new()),
        metrics: serde_json::Value::Object(serde_json::Map::new()),
        played_at,
        evidence: evidence.map(str::to_owned),
    }
}

fn context(lifecycle: Lifecycle, policy: EvidencePolicy) -> SubmissionContext {
    SubmissionContext {
        tournament: Some(TournamentFacts { lifecycle, evidence_policy: policy }),
        chart_in_tournament: true,
        registration: Some(RegistrationFacts { id: 3, status: RegistrationStatus::Approved }),
        team_id: Some(100),
    }
}

fn refusal(r: Result<rhythm_arena::results::PreparedResult, ResponseError>) -> (u16, String) {
    match r {
        Err(e) => (e.status(), e.body()),
        Ok(_) => panic!("refusal expected"),
    }
}

#[test]
fn submissions_are_checked_before_they_are_stored() {
    let user = Token { id: 5, nickname: "u".to_owned(), permissions: vec![] };
    let ctx = context(Lifecycle::Running, EvidencePolicy::Required);
    let ok = prepare(1, &user, submission(1_700_000_000, Some("shot.png")), false, &ctx).unwrap();
    assert_eq!((ok.registration_id, ok.team_id_snapshot, ok.submitted_by), (3, Some(100), 5));
    assert_eq!(ok.status, ResultStatus::Pending);
    let staff = prepare(1, &user, submission(1_700_000_000, None), true, &context(Lifecycle::Review, EvidencePolicy::Required)).unwrap();
    assert_eq!(staff.status, ResultStatus::Approved);
    assert_eq!(refusal(prepare(1, &user, submission(1_700_000_000, None), false, &ctx)), (400, "screenshot evidence is required".to_owned()));
    assert_eq!(refusal(prepare(1, &user, submission(1_700_000_000, Some("")), false, &ctx)), (400, "screenshot evidence is required".to_owned()));
    assert_eq!(
        refusal(prepare(1, &user, submission(1_700_000_000, Some("x")), false, &context(Lifecycle::Running, EvidencePolicy::Disabled))),
        (400, "screenshot evidence is disabled".to_owned())
    );
    assert_eq!(
        refusal(prepare(1, &user, submission(1_700_000_000, None), false, &context(Lifecycle::Review, EvidencePolicy::Optional))),
        (409, "results can only be submitted while the tournament is running or under review".to_owned())
    );
    assert_eq!(refusal(prepare(1, &user, submission(i64::MAX, Some("x")), false, &ctx)), (400, "invalid played_at timestamp".to_owned()));
    let mut bad = submission(0, Some("x"));
    bad.accuracy_millionths = 100_000_001;
    assert_eq!(refusal(prepare(1, &user, bad, false, &ctx)), (400, "score, accuracy, or combo is out of range".to_owned()));
    let mut no_chart = context(Lifecycle::Running, EvidencePolicy::Optional);
    no_chart.chart_in_tournament = false;
    assert_eq!(refusal(prepare(1, &user, submission(0, None), false, &no_chart)), (400, "chart does not belong to tournament".to_owned()));
    let mut pending = context(Lifecycle::Running, EvidencePolicy::Optional);
    pending.registration = Some(RegistrationFacts { id: 3, status: RegistrationStatus::Pending });
    assert_eq!(refusal(prepare(1, &user, submission(0, None), false, &pending)), (403, "approved registration required".to_owned()));
}

#[test]
fn played_at_must_lie_in_chronos_range() {
    let user = Token { id: 5, nickname: "u".to_owned(), permissions: vec![] };
    let ctx = context(Lifecycle::Running, EvidencePolicy::Optional);
    assert!(prepare(1, &user, submission(UTC_MAX_SECS, None), false, &ctx).is_ok());
    assert!(prepare(1, &user, submission(UTC_MIN_SECS, None), false, &ctx).is_ok());
    assert_eq!(refusal(prepare(1, &user, submission(UTC_MAX_SECS + 1, None), false, &ctx)), (400, "invalid played_at timestamp".to_owned()));
    assert_eq!(refusal(prepare(1, &user, submission(UTC_MIN_SECS - 1, None), false, &ctx)), (400, "invalid played_at timestamp".to_owned()));
    assert_eq!(chrono::DateTime::<chrono::Utc>::MAX_UTC.timestamp(), UTC_MAX_SECS);
    assert_eq!(chrono::DateTime::<chrono::Utc>::MIN_UTC.timestamp(), UTC_MIN_SECS);
}
