use rhythm_arena::access::Token;
use rhythm_arena::error::ResponseError;
use rhythm_arena::lifecycle::{Lifecycle, LifecycleScheduleMode};
use rhythm_arena::model::{CompetitionMode, EvidencePolicy, LeaderboardVisibility, Permission, StaffRole};
use rhythm_arena::tournament::{check_delete, create, update, CreateTournament, Tournament, UpdateTournament};

fn token(id: i64, permissions: Vec<Permission>) -> Token {
    Token { id, nickname: "nick".to_owned(), permissions }
}

fn request(name: &str, min: Option<i32>, max: Option<i32>) -> CreateTournament {
    CreateTournament {
        name: name.to_owned(),
        brief: "brief".to_owned(),
        description: None,
        competition_mode: None,
        evidence_policy: Some(EvidencePolicy::Required),
        leaderboard_visibility: None,
        cover: None,
        team_size_min: min,
        team_size_max: max,
        registration_start_at: Some(5),
        registration_end_at: None,
        start_at: None,
        end_at: None,
        rules: None,
        rules_visible: Some(true),
        announcements_visible: None,
    }
}

fn empty_update() -> UpdateTournament {
    UpdateTournament {
        name: None,
        brief: None,
        description: None,
        rules: None,
        rules_visible: None,
        announcements_visible: None,
        lifecycle: None,
        competition_mode: None,
        evidence_policy: None,
        leaderboard_visibility: None,
        cover: None,
        team_size_min: None,
        team_size_max: None,
        registration_start_at: None,
        registration_end_at: None,
        start_at: None,
        end_at: None,
        registration_schedule: None,
        registration_at: None,
        running_schedule: None,
        running_at: None,
        review_schedule: None,
        review_at: None,
        finished_schedule: None,
        finished_at: None,
        organizer_can_edit_archived: None,
    }
}

fn created(lifecycle: Lifecycle) -> Tournament {
    let mut t = create(&token(7, vec![]), request("  Spring Cup ", None, Some(3)), 100).unwrap();
    t.lifecycle = lifecycle;
    t
}

fn err_text(r: Result<impl std::fmt::Debug, ResponseError>) -> (u16, String) {
    match r {
        Err(e) => (e.status(), e.body()),
        Ok(v) => panic!("unexpected {:?}", v),
    }
}

#[test]
fn creating_a_tournament_applies_defaults() {
    let t = created(Lifecycle::Draft);
    assert_eq!(t.name, "Spring Cup");
    assert_eq!(t.owner_id, 7);
    assert_eq!(t.lifecycle, Lifecycle::Draft);
    assert_eq!(t.competition_mode, CompetitionMode::Individual);
    assert_eq!(t.evidence_policy, EvidencePolicy::Required);
    assert_eq!(t.leaderboard_visibility, LeaderboardVisibility::Live);
    assert_eq!((t.team_size_min, t.team_size_max), (1, 3));
    assert!(t.rules_visible && !t.announcements_visible);
    assert_eq!(t.schedule.running_schedule, LifecycleScheduleMode::Manual);
    assert_eq!((t.created_at, t.updated_at), (100, 100));
    let t = create(&token(7, vec![]), request("x", Some(4), None), 1).unwrap();
    assert_eq!((t.team_size_min, t.team_size_max), (4, 4));
}

#[test]
fn creating_a_tournament_refuses_bad_requests() {
    assert_eq!(err_text(create(&token(0, vec![]), request("x", None, None), 1)), (401, "authentication required".to_owned()));
    assert_eq!(err_text(create(&token(1, vec![]), request(" \n", None, None), 1)), (400, "tournament name is required".to_owned()));
    assert_eq!(err_text(create(&token(1, vec![]), request("x", Some(0), None), 1)), (400, "invalid team size range".to_owned()));
    assert_eq!(err_text(create(&token(1, vec![]), request("x", Some(3), Some(2)), 1)), (400, "invalid team size range".to_owned()));
}

#[test]
fn updates_follow_the_lifecycle_and_permissions() {
    let organizer = Some(StaffRole::Organizer);
    let mut input = empty_update();
    input.lifecycle = Some(Lifecycle::Registration);
    input.name = Some("Renamed".to_owned());
    let done = update(created(Lifecycle::Draft), &token(2, vec![]), organizer, input, 500).unwrap();
    assert_eq!(done.tournament.lifecycle, Lifecycle::Registration);
    assert_eq!(done.tournament.name, "Renamed");
    assert_eq!(done.tournament.updated_at, 500);
    assert!(done.recompute);

    let same = update(created(Lifecycle::Draft), &token(2, vec![]), organizer, empty_update(), 9).unwrap();
    assert!(!same.recompute);
    assert_eq!(same.tournament.name, "Spring Cup");

    let mut skip = empty_update();
    skip.lifecycle = Some(Lifecycle::Running);
    assert_eq!(
        err_text(update(created(Lifecycle::Draft), &token(2, vec![]), organizer, skip, 9)),
        (409, "invalid tournament lifecycle transition".to_owned())
    );
    assert_eq!(
        err_text(update(created(Lifecycle::Draft), &token(2, vec![]), Some(StaffRole::Judge), empty_update(), 9)),
        (403, "organizer access required".to_owned())
    );
    assert_eq!(
        err_text(update(created(Lifecycle::Archived), &token(2, vec![]), organizer, empty_update(), 9)),
        (403, "archived tournament is locked".to_owned())
    );
    let mut unlock = empty_update();
    unlock.organizer_can_edit_archived = Some(true);
    assert_eq!(
        err_text(update(created(Lifecycle::Draft), &token(2, vec![]), organizer, unlock, 9)),
        (403, "devops access required".to_owned())
    );
    let mut unlock = empty_update();
    unlock.organizer_can_edit_archived = Some(true);
    let devops = token(3, vec![Permission::DevOps]);
    assert!(update(created(Lifecycle::Archived), &devops, None, unlock, 9).unwrap().tournament.organizer_can_edit_archived);
    let mut reopen = empty_update();
    reopen.lifecycle = Some(Lifecycle::Finished);
    let mut open_archive = created(Lifecycle::Archived);
    open_archive.organizer_can_edit_archived = true;
    assert_eq!(
        err_text(update(open_archive, &token(2, vec![]), organizer, reopen, 9)),
        (403, "only devops can reopen archived tournaments".to_owned())
    );
    let mut sizes = empty_update();
    sizes.team_size_max = Some(0);
    assert_eq!(
        err_text(update(created(Lifecycle::Draft), &token(2, vec![]), organizer, sizes, 9)),
        (400, "invalid team size range".to_owned())
    );
    let mut sched = empty_update();
    sched.review_schedule = Some(LifecycleScheduleMode::Scheduled);
    assert_eq!(
        err_text(update(created(Lifecycle::Draft), &token(2, vec![]), organizer, sched, 9)),
        (400, "review stage start time is required for scheduled stages".to_owned())
    );
    let mut sched = empty_update();
    sched.running_at = Some(Some(50));
    assert_eq!(
        err_text(update(created(Lifecycle::Draft), &token(2, vec![]), organizer, sched, 9)),
        (400, "running stage start time cannot be earlier than tournament creation".to_owned())
    );
    let mut sched = empty_update();
    sched.registration_at = Some(Some(300));
    sched.finished_at = Some(Some(200));
    assert_eq!(
        err_text(update(created(Lifecycle::Draft), &token(2, vec![]), organizer, sched, 9)),
        (400, "lifecycle stage start times must be in chronological order".to_owned())
    );
    let mut vis = empty_update();
    vis.leaderboard_visibility = Some(LeaderboardVisibility::Frozen);
    vis.running_at = Some(Some(150));
    let done = update(created(Lifecycle::Running), &token(2, vec![]), organizer, vis, 9).unwrap();
    assert!(done.recompute);
    assert_eq!(done.tournament.schedule.running_at, Some(150));
}

#[test]
fn deleting_a_tournament() {
    let user = token(2, vec![]);
    assert_eq!(err_text(check_delete(&user, None, Some(Lifecycle::Draft))), (403, "tournament staff access required".to_owned()));
    assert_eq!(err_text(check_delete(&user, Some(StaffRole::Organizer), Some(Lifecycle::Draft))), (403, "owner access required".to_owned()));
    assert!(check_delete(&user, Some(StaffRole::Owner), Some(Lifecycle::Draft)).is_ok());
    assert_eq!(err_text(check_delete(&user, Some(StaffRole::Owner), Some(Lifecycle::Running))), (409, "only draft tournaments can be deleted".to_owned()));
    assert_eq!(err_text(check_delete(&user, Some(StaffRole::Owner), None)), (404, "tournament not found".to_owned()));
    let admin = token(2, vec![Permission::Statistics]);
    assert!(check_delete(&admin, None, Some(Lifecycle::Archived)).is_ok());
}
