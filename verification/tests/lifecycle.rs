use rhythm_arena::lifecycle::{
    due_transition, next_schedule, settle, validate_lifecycle_schedule, Lifecycle, LifecycleSchedule,
    LifecycleScheduleMode, StageInput,
};
use rhythm_arena::error::ResponseError;
use rhythm_arena::lifecycle::LifecycleScheduleMode::{Manual, Scheduled};

fn schedule(at: [Option<i64>; 4], modes: [LifecycleScheduleMode; 4]) -> LifecycleSchedule {
    LifecycleSchedule {
        registration_schedule: modes[0],
        registration_at: at[0],
        running_schedule: modes[1],
        running_at: at[1],
        review_schedule: modes[2],
        review_at: at[2],
        finished_schedule: modes[3],
        finished_at: at[3],
    }
}

#[test]
fn lifecycle_only_moves_forward_one_step() {
    assert!(Lifecycle::Draft.can_transition_to(Lifecycle::Registration));
    assert!(Lifecycle::Review.can_transition_to(Lifecycle::Finished));
    assert!(!Lifecycle::Draft.can_transition_to(Lifecycle::Running));
    assert!(!Lifecycle::Finished.can_transition_to(Lifecycle::Review));
}

#[test]
fn teams_lock_from_running_on() {
    assert!(!Lifecycle::Draft.locks_teams());
    assert!(!Lifecycle::Registration.locks_teams());
    assert!(Lifecycle::Running.locks_teams());
    assert!(Lifecycle::Archived.locks_teams());
}

#[test]
fn worker_follows_due_schedule() {
    let s = schedule([Some(10), Some(20), Some(30), None], [Scheduled, Scheduled, Manual, Scheduled]);
    assert_eq!(next_schedule(&s, Lifecycle::Draft), Some((Lifecycle::Registration, Scheduled, Some(10))));
    assert_eq!(next_schedule(&s, Lifecycle::Finished), None);
    assert_eq!(due_transition(&s, Lifecycle::Draft, 9), None);
    assert_eq!(due_transition(&s, Lifecycle::Draft, 10), Some(Lifecycle::Registration));
    assert_eq!(due_transition(&s, Lifecycle::Running, 100), None);
    let (end, steps) = settle(&s, Lifecycle::Draft, 25);
    assert_eq!(end, Lifecycle::Running);
    assert_eq!(steps, vec![Lifecycle::Registration, Lifecycle::Running]);
    for (i, step) in steps.iter().enumerate() {
        let from = if i == 0 { Lifecycle::Draft } else { steps[i - 1] };
        assert_eq!(due_transition(&s, from, 25), Some(*step));
    }
    let (end, steps) = settle(&s, Lifecycle::Draft, 5);
    assert_eq!(end, Lifecycle::Draft);
    assert!(steps.is_empty());
}

fn stages<'a>(at: [Option<i64>; 4], modes: [LifecycleScheduleMode; 4]) -> [StageInput<'a>; 4] {
    let names = ["registration", "running", "review", "finished"];
    [0, 1, 2, 3].map(|i| StageInput { mode: modes[i], at: at[i], name: names[i] })
}

fn message(r: Result<(), ResponseError>) -> String {
    match r {
        Err(ResponseError::BadRequest(m)) => m,
        other => panic!("unexpected {:?}", other),
    }
}

#[test]
fn lifecycle_schedule_validation() {
    assert!(validate_lifecycle_schedule(0, &stages([None; 4], [Manual; 4])).is_ok());
    assert_eq!(
        message(validate_lifecycle_schedule(0, &stages([None; 4], [Manual, Scheduled, Manual, Manual]))),
        "running stage start time is required for scheduled stages"
    );
    assert_eq!(
        message(validate_lifecycle_schedule(50, &stages([Some(40), None, None, None], [Manual; 4]))),
        "registration stage start time cannot be earlier than tournament creation"
    );
    assert_eq!(
        message(validate_lifecycle_schedule(0, &stages([Some(40), None, Some(30), None], [Manual; 4]))),
        "lifecycle stage start times must be in chronological order"
    );
    assert!(validate_lifecycle_schedule(0, &stages([Some(10), None, Some(10), Some(20)], [Scheduled, Manual, Scheduled, Scheduled])).is_ok());
}
