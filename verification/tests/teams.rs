use rhythm_arena::access::Token;
use rhythm_arena::error::ResponseError;
use rhythm_arena::lifecycle::Lifecycle;
use rhythm_arena::model::{CompetitionMode, RegistrationStatus};
use rhythm_arena::results::RegistrationFacts;
use rhythm_arena::teams::{
    chart_tag_name, check_tag_delete, check_tag_move, create_team, ensure_chart_tag, ensure_round,
    join_team, leave_team, register, require_found, withdraw, ChartTagInput, RegistrationInput,
};

fn user() -> Token {
    Token { id: 4, nickname: "Nick".to_owned(), permissions: vec![] }
}

fn anonymous() -> Token {
    Token { id: 0, nickname: String::new(), permissions: vec![] }
}

fn err<T: std::fmt::Debug>(r: Result<T, ResponseError>) -> (u16, String) {
    match r {
        Err(e) => (e.status(), e.body()),
        Ok(v) => panic!("unexpected {:?}", v),
    }
}

fn approved() -> Option<RegistrationFacts> {
    Some(RegistrationFacts { id: 11, status: RegistrationStatus::Approved })
}

#[test]
fn registering_picks_the_shown_name() {
    let named = RegistrationInput { display_name: Some("Shown".to_owned()) };
    assert_eq!(register(&user(), Lifecycle::Registration, false, named).unwrap(), "Shown");
    let blank = RegistrationInput { display_name: Some("   ".to_owned()) };
    assert_eq!(register(&user(), Lifecycle::Registration, false, blank).unwrap(), "Nick");
    assert_eq!(register(&user(), Lifecycle::Registration, false, RegistrationInput { display_name: None }).unwrap(), "Nick");
    assert_eq!(err(register(&anonymous(), Lifecycle::Registration, false, RegistrationInput { display_name: None })), (401, "authentication required".to_owned()));
    assert_eq!(err(register(&user(), Lifecycle::Draft, false, RegistrationInput { display_name: None })), (409, "tournament is not accepting registrations".to_owned()));
    assert_eq!(err(register(&user(), Lifecycle::Registration, true, RegistrationInput { display_name: None })), (409, "user is already registered".to_owned()));
}

#[test]
fn withdrawing_until_the_tournament_runs() {
    assert_eq!(withdraw(&user(), Lifecycle::Registration, true).unwrap(), RegistrationStatus::Withdrawn);
    assert_eq!(err(withdraw(&user(), Lifecycle::Running, true)), (409, "registration is locked".to_owned()));
    assert_eq!(err(withdraw(&user(), Lifecycle::Draft, false)), (404, "registration not found".to_owned()));
}

#[test]
fn founding_and_joining_teams() {
    assert_eq!(create_team(&user(), Lifecycle::Registration, CompetitionMode::Team, approved(), false).unwrap(), 11);
    assert_eq!(err(create_team(&user(), Lifecycle::Review, CompetitionMode::Team, approved(), false)), (409, "team membership is locked".to_owned()));
    assert_eq!(err(create_team(&user(), Lifecycle::Draft, CompetitionMode::Individual, approved(), false)), (409, "tournament has no team competition".to_owned()));
    let pending = Some(RegistrationFacts { id: 11, status: RegistrationStatus::Pending });
    assert_eq!(err(create_team(&user(), Lifecycle::Draft, CompetitionMode::Both, pending, false)), (403, "approved registration required".to_owned()));
    assert_eq!(err(create_team(&user(), Lifecycle::Draft, CompetitionMode::Both, approved(), true)), (409, "registration already belongs to a team".to_owned()));

    assert_eq!(join_team(&user(), Lifecycle::Draft, true, approved(), false, 2, 3).unwrap(), 11);
    assert_eq!(err(join_team(&user(), Lifecycle::Draft, true, approved(), false, 3, 3)), (409, "team is full".to_owned()));
    assert_eq!(err(join_team(&user(), Lifecycle::Draft, false, approved(), false, 0, 3)), (404, "team not found".to_owned()));
    assert_eq!(err(join_team(&user(), Lifecycle::Running, true, approved(), false, 0, 3)), (409, "team membership is locked".to_owned()));
    assert!(join_team(&user(), Lifecycle::Draft, true, approved(), false, u64::MAX - 1, -1).is_ok());
    assert_eq!(err(join_team(&user(), Lifecycle::Draft, true, approved(), false, u64::MAX, -1)), (409, "team is full".to_owned()));
}

#[test]
fn leaving_teams() {
    assert!(leave_team(&user(), Lifecycle::Registration, Some(11), Some(3), Some(12)).is_ok());
    assert_eq!(err(leave_team(&user(), Lifecycle::Registration, Some(11), Some(3), Some(11))), (409, "captain cannot leave the team".to_owned()));
    assert_eq!(err(leave_team(&user(), Lifecycle::Registration, None, None, None)), (404, "registration not found".to_owned()));
    assert_eq!(err(leave_team(&user(), Lifecycle::Registration, Some(11), None, None)), (404, "team membership not found".to_owned()));
    assert_eq!(err(leave_team(&user(), Lifecycle::Registration, Some(11), Some(3), None)), (404, "team not found".to_owned()));
    assert_eq!(err(leave_team(&user(), Lifecycle::Finished, Some(11), Some(3), Some(12))), (409, "team membership is locked".to_owned()));
}

#[test]
fn chart_tags_and_lookups() {
    assert_eq!(chart_tag_name(&ChartTagInput { round_id: 1, name: "  Hard  ".to_owned(), order_index: 0 }).unwrap(), "Hard");
    assert_eq!(err(chart_tag_name(&ChartTagInput { round_id: 1, name: " ".to_owned(), order_index: 0 })), (400, "tag name is required".to_owned()));
    assert_eq!(err(check_tag_move(1, 2, 3)), (409, "chart tag with charts cannot move to another round".to_owned()));
    assert!(check_tag_move(1, 2, 0).is_ok());
    assert!(check_tag_move(1, 1, 5).is_ok());
    assert_eq!(err(check_tag_delete(1)), (409, "chart tag is still used by charts".to_owned()));
    assert!(check_tag_delete(0).is_ok());
    assert!(ensure_round(5, Some(5)).is_ok());
    assert_eq!(err(ensure_round(5, Some(6))), (400, "round does not belong to tournament".to_owned()));
    assert!(ensure_chart_tag(5, 2, Some((5, 2))).is_ok());
    assert_eq!(err(ensure_chart_tag(5, 2, Some((5, 3)))), (400, "chart tag does not belong to tournament round".to_owned()));
    assert_eq!(require_found(Some(3), "round not found").unwrap(), 3);
    assert_eq!(err(require_found::<i64>(None, "round not found")), (404, "round not found".to_owned()));
}
