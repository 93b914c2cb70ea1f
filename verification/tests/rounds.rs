use rhythm_arena::error::ResponseError;
use rhythm_arena::lifecycle::Lifecycle;
use rhythm_arena::model::StaffRole;
use rhythm_arena::rounds::{
    audience_of, default_release_audience, end_round, is_visible, new_round, plan_enter_round,
    release_round, validate_audience, validate_schedule_values, visible_rounds,
    withdraw_round_release, Audience, EndMode, ReleaseAudience, ReleaseTiming, Round, RoundInput,
};

fn audience(words: &[&str]) -> ReleaseAudience {
    ReleaseAudience { items: Some(words.iter().map(|w| Some(w.to_string())).collect()) }
}

fn input(words: &[&str], timing: ReleaseTiming) -> RoundInput {
    RoundInput {
        name: "Round".to_owned(),
        description: None,
        order_index: 1,
        start_at: Some(100),
        end_at: Some(200),
        release_audience: audience(words),
        release_timing: timing,
        end_mode: EndMode::Manual,
        release_at: None,
    }
}

fn round(id: i64, words: &[&str], timing: ReleaseTiming) -> Round {
    let mut r = new_round(1, input(words, timing)).unwrap();
    r.id = id;
    r
}

fn err<T>(r: Result<T, ResponseError>) -> (u16, String) {
    match r {
        Err(e) => (e.status(), e.body()),
        Ok(_) => panic!("error expected"),
    }
}

#[test]
fn round_visibility_by_audience_and_timing() {
    let immediate = round(1, &["public"], ReleaseTiming::Immediate);
    assert!(is_visible(&immediate, Audience::Public, None));
    let participants = round(2, &["participants"], ReleaseTiming::Immediate);
    assert!(!is_visible(&participants, Audience::Public, None));
    assert!(is_visible(&participants, Audience::ApprovedParticipant, None));
    let on_enter = round(3, &["public"], ReleaseTiming::OnEnter);
    assert!(!is_visible(&on_enter, Audience::Public, None));
    assert!(is_visible(&on_enter, Audience::Public, Some(3)));
    let on_end = round(4, &["public"], ReleaseTiming::OnEnd);
    assert!(!is_visible(&on_end, Audience::Public, Some(4)));
    let released = release_round(round(5, &["public"], ReleaseTiming::OnEnd), 50);
    assert!(is_visible(&released, Audience::Public, None));
    assert_eq!(released.release_version, 1);
    let shown = visible_rounds(vec![immediate, participants, on_enter, on_end, released], Audience::Public, None);
    assert_eq!(shown.iter().map(|r| r.id).collect::<Vec<_>>(), vec![1, 5]);
    assert_eq!(audience_of(Some(StaffRole::Judge), 0, false), Audience::Staff);
    assert_eq!(audience_of(None, 3, true), Audience::ApprovedParticipant);
    assert_eq!(audience_of(None, 0, true), Audience::Public);
}

#[test]
fn round_configuration_checks() {
    assert!(validate_audience(&default_release_audience()).is_ok());
    assert_eq!(err(validate_audience(&ReleaseAudience { items: None })), (400, "release audience must be an array".to_owned()));
    assert_eq!(err(validate_audience(&audience(&[]))), (400, "invalid release audience".to_owned()));
    assert_eq!(err(validate_audience(&audience(&["public", "everyone"]))), (400, "invalid release audience".to_owned()));
    assert_eq!(err(validate_audience(&ReleaseAudience { items: Some(vec![None]) })), (400, "invalid release audience".to_owned()));
    assert_eq!(err(validate_schedule_values(None, None, None, EndMode::AtTime)), (400, "round end time is required".to_owned()));
    assert_eq!(err(validate_schedule_values(Some(5), Some(4), None, EndMode::Manual)), (400, "round end time must not precede start time".to_owned()));
    assert_eq!(err(validate_schedule_values(Some(5), None, Some(4), EndMode::AtTime)), (400, "round release time must not precede start time".to_owned()));
    assert!(validate_schedule_values(Some(5), Some(5), Some(5), EndMode::AtTime).is_ok());
    let fresh = round(9, &["staff"], ReleaseTiming::OnEnter);
    assert!(fresh.started_at.is_none() && !fresh.manually_released && fresh.release_version == 0);
}

#[test]
fn entering_and_ending_rounds() {
    let r = round(2, &["public"], ReleaseTiming::OnEnter);
    let plan = plan_enter_round(Lifecycle::Running, Some(1), 2, Some(&r), false, 150).unwrap();
    assert_eq!((plan.end_round, plan.start_round, plan.at), (Some(1), 2, 150));
    let again = plan_enter_round(Lifecycle::Running, Some(2), 2, Some(&r), false, 150).unwrap();
    assert_eq!(again.end_round, None);
    assert_eq!(err(plan_enter_round(Lifecycle::Review, None, 2, Some(&r), false, 150)), (409, "rounds can only be entered while tournament is running".to_owned()));
    assert_eq!(err(plan_enter_round(Lifecycle::Running, None, 2, None, false, 150)), (404, "round not found".to_owned()));
    let (code, text) = err(plan_enter_round(Lifecycle::Running, None, 2, Some(&r), false, 50));
    assert_eq!(code, 409);
    assert!(text.starts_with("round is scheduled for 1970-01-01"), "{text}");
    assert!(plan_enter_round(Lifecycle::Running, None, 2, Some(&r), true, 50).is_ok());
    let mut far = round(6, &["public"], ReleaseTiming::OnEnter);
    far.start_at = Some(i64::MAX);
    assert_eq!(
        err(plan_enter_round(Lifecycle::Running, None, 6, Some(&far), false, 0)),
        (409, format!("round is scheduled for {}", i64::MAX))
    );

    let mut started = round(2, &["public"], ReleaseTiming::OnEnter);
    started.started_at = Some(150);
    let ended = end_round(Lifecycle::Running, Some(2), 2, Some(started), 300).unwrap();
    assert_eq!((ended.ended_at, ended.manually_ended, ended.release_version), (Some(300), true, 1));
    assert_eq!(err(plan_enter_round(Lifecycle::Running, None, 2, Some(&ended), true, 400)), (409, "ended round cannot be entered".to_owned()));
    assert_eq!(err(end_round(Lifecycle::Running, Some(2), 2, Some(ended), 400)), (409, "only the current active round can be ended".to_owned()));
}

#[test]
fn withdrawing_a_release_restores_it() {
    let r = round(3, &["public"], ReleaseTiming::OnEnd);
    let back = withdraw_round_release(release_round(r, 10)).unwrap();
    assert!(!back.manually_released && back.released_at.is_none());
    assert_eq!(back.release_version, 2);
    let mut entered = release_round(round(3, &["public"], ReleaseTiming::OnEnd), 10);
    entered.started_at = Some(11);
    assert_eq!(err(withdraw_round_release(entered)), (409, "round release cannot be withdrawn after entering the round".to_owned()));
}
