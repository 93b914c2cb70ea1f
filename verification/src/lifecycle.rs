//! The tournament lifecycle: its stages, the moves between them, and the schedule that the
//! background worker follows.
//!
//! Instants are microseconds since the Unix epoch, the resolution at which they are stored.
use vstd::prelude::*;
use vstd::string::StringExecFns;

use crate::error::{ErrorKind, ResponseError};
use crate::text::owned;

verus! {

/// The stage of a tournament.
#[derive(Clone, Copy, PartialEq, Eq, Debug, Structural)]
pub enum Lifecycle {
    Draft,
    Registration,
    Running,
    Review,
    Finished,
    Archived,
}

/// How a lifecycle stage is entered: by hand, or by the worker at a set time.
#[derive(Clone, Copy, PartialEq, Eq, Debug, Structural)]
pub enum LifecycleScheduleMode {
    Manual,
    Scheduled,
}

/// The position of a stage in the lifecycle, from 0 (draft) to 5 (archived).
pub open spec fn stage_index(l: Lifecycle) -> int {
    match l {
        Lifecycle::Draft => 0,
        Lifecycle::Registration => 1,
        Lifecycle::Running => 2,
        Lifecycle::Review => 3,
        Lifecycle::Finished => 4,
        Lifecycle::Archived => 5,
    }
}

impl Lifecycle {
    /// A tournament may move from `self` to `next` only one stage forward.
    pub fn can_transition_to(self, next: Self) -> (b: bool)
        ensures
            b == (stage_index(next) == stage_index(self) + 1),
    {
        match (self, next) {
            (Lifecycle::Draft, Lifecycle::Registration) => true,
            (Lifecycle::Registration, Lifecycle::Running) => true,
            (Lifecycle::Running, Lifecycle::Review) => true,
            (Lifecycle::Review, Lifecycle::Finished) => true,
            (Lifecycle::Finished, Lifecycle::Archived) => true,
            _ => false,
        }
    }

    /// From the running stage on, registrations and team membership are frozen.
    pub fn locks_teams(self) -> (b: bool)
        ensures
            b == (stage_index(self) >= 2),
    {
        match self {
            Lifecycle::Running | Lifecycle::Review | Lifecycle::Finished | Lifecycle::Archived => true,
            _ => false,
        }
    }
}

/// How each of the four later stages is entered, and when.
#[derive(Clone, Copy, PartialEq, Eq, Debug)]
pub struct LifecycleSchedule {
    pub registration_schedule: LifecycleScheduleMode,
    pub registration_at: Option<i64>,
    pub running_schedule: LifecycleScheduleMode,
    pub running_at: Option<i64>,
    pub review_schedule: LifecycleScheduleMode,
    pub review_at: Option<i64>,
    pub finished_schedule: LifecycleScheduleMode,
    pub finished_at: Option<i64>,
}

/// The stage that follows `l` on the schedule, with how and when it is entered; none after the
/// finished stage (archiving is never scheduled).
pub open spec fn spec_next_schedule(s: LifecycleSchedule, l: Lifecycle) -> Option<
    (Lifecycle, LifecycleScheduleMode, Option<i64>),
> {
    match l {
        Lifecycle::Draft => Some(
            (Lifecycle::Registration, s.registration_schedule, s.registration_at),
        ),
        Lifecycle::Registration => Some((Lifecycle::Running, s.running_schedule, s.running_at)),
        Lifecycle::Running => Some((Lifecycle::Review, s.review_schedule, s.review_at)),
        Lifecycle::Review => Some((Lifecycle::Finished, s.finished_schedule, s.finished_at)),
        _ => None,
    }
}

/// The stage that follows `lifecycle` on the schedule, with its mode and time.
pub fn next_schedule(row: &LifecycleSchedule, lifecycle: Lifecycle) -> (r: Option<
    (Lifecycle, LifecycleScheduleMode, Option<i64>),
>)
    ensures
        r == spec_next_schedule(*row, lifecycle),
{
    match lifecycle {
        Lifecycle::Draft => Some(
            (Lifecycle::Registration, row.registration_schedule, row.registration_at),
        ),
        Lifecycle::Registration => Some((Lifecycle::Running, row.running_schedule, row.running_at)),
        Lifecycle::Running => Some((Lifecycle::Review, row.review_schedule, row.review_at)),
        Lifecycle::Review => Some((Lifecycle::Finished, row.finished_schedule, row.finished_at)),
        Lifecycle::Finished | Lifecycle::Archived => None,
    }
}

/// The stage that the worker moves a tournament in stage `l` to at instant `now`: the next stage
/// when it is scheduled and its time has come.
pub open spec fn spec_due(s: LifecycleSchedule, l: Lifecycle, now: i64) -> Option<Lifecycle> {
    match spec_next_schedule(s, l) {
        Some((next, LifecycleScheduleMode::Scheduled, Some(at))) => if at <= now {
            Some(next)
        } else {
            None
        },
        _ => None,
    }
}

/// One step of the scheduling worker: the stage to move to now, if any.
pub fn due_transition(row: &LifecycleSchedule, lifecycle: Lifecycle, now: i64) -> (r: Option<
    Lifecycle,
>)
    ensures
        r == spec_due(*row, lifecycle, now),
{
    match next_schedule(row, lifecycle) {
        Some((next, LifecycleScheduleMode::Scheduled, Some(at))) => {
            if at <= now {
                Some(next)
            } else {
                None
            }
        },
        _ => None,
    }
}

/// The stage reached by taking every due step from `l`.
pub open spec fn spec_settle(s: LifecycleSchedule, l: Lifecycle, now: i64) -> Lifecycle
    decreases 5 - stage_index(l),
{
    match spec_due(s, l, now) {
        Some(next) => if stage_index(next) > stage_index(l) {
            spec_settle(s, next, now)
        } else {
            l
        },
        None => l,
    }
}

/// Every step that the worker takes is an allowed lifecycle move.
pub proof fn lemma_due_is_forward_step(s: LifecycleSchedule, l: Lifecycle, now: i64)
    ensures
        spec_due(s, l, now) matches Some(next) ==> stage_index(next) == stage_index(l) + 1,
{
}

/// Taking due steps ends: the stage that settles has no further due step, and lies at or after
/// the start.
pub proof fn lemma_settle_is_fixpoint(s: LifecycleSchedule, l: Lifecycle, now: i64)
    ensures
        spec_due(s, spec_settle(s, l, now), now) is None,
        stage_index(spec_settle(s, l, now)) >= stage_index(l),
    decreases 5 - stage_index(l),
{
    if let Some(next) = spec_due(s, l, now) {
        lemma_settle_is_fixpoint(s, next, now);
    }
}

/// `next` follows `l` on the schedule `s`, is entered by the worker, and its time is at or
/// before `now`.
pub open spec fn scheduled_by(s: LifecycleSchedule, l: Lifecycle, next: Lifecycle, now: i64) -> bool {
    match spec_next_schedule(s, l) {
        Some((n, mode, at)) => n == next && mode == LifecycleScheduleMode::Scheduled && match at {
            Some(t) => t <= now,
            None => false,
        },
        None => false,
    }
}

/// The stage that a worker's step `i` of `steps` starts from: `start` for the first, else the
/// stage of the step before.
pub open spec fn stage_before(start: Lifecycle, steps: Seq<Lifecycle>, i: int) -> Lifecycle {
    if i == 0 {
        start
    } else {
        steps[i - 1]
    }
}

/// The worker moves a tournament only into the next stage, only when that stage is scheduled
/// and its time has come, and never out of the finished or archived stage.
pub proof fn lemma_due_only_when_scheduled(s: LifecycleSchedule, l: Lifecycle, now: i64)
    ensures
        spec_due(s, l, now) matches Some(next) ==> scheduled_by(s, l, next, now),
        l == Lifecycle::Finished || l == Lifecycle::Archived ==> spec_due(s, l, now) is None,
{
}

/// Every stage that is due at some instant is still due at any later instant.
pub proof fn lemma_due_is_monotonic(s: LifecycleSchedule, l: Lifecycle, now: i64, later: i64)
    requires
        now <= later,
    ensures
        spec_due(s, l, now) is Some ==> spec_due(s, l, later) == spec_due(s, l, now),
{
}

/// The stages that the worker moves a tournament through from `lifecycle` at instant `now`,
/// in order, when every move goes through.
pub fn settle(row: &LifecycleSchedule, lifecycle: Lifecycle, now: i64) -> (r: (Lifecycle, Vec<Lifecycle>))
    ensures
        r.0 == spec_settle(*row, lifecycle, now),
        spec_due(*row, r.0, now) is None,
        forall|i: int| 0 <= i < r.1.len() ==> stage_index(#[trigger] r.1@[i]) == stage_index(lifecycle) + i + 1,
        r.1.len() == stage_index(r.0) - stage_index(lifecycle),
        forall|i: int|
            0 <= i < r.1.len() ==> spec_due(*row, stage_before(lifecycle, r.1@, i), now) == Some(#[trigger] r.1@[i]),
{
    let mut current = lifecycle;
    let mut steps: Vec<Lifecycle> = Vec::new();
    proof {
        lemma_settle_is_fixpoint(*row, lifecycle, now);
    }
    loop
        invariant
            spec_settle(*row, current, now) == spec_settle(*row, lifecycle, now),
            stage_index(current) == stage_index(lifecycle) + steps.len(),
            forall|i: int| 0 <= i < steps.len() ==> stage_index(#[trigger] steps@[i]) == stage_index(lifecycle) + i + 1,
            forall|i: int|
                0 <= i < steps.len() ==> spec_due(*row, stage_before(lifecycle, steps@, i), now) == Some(#[trigger] steps@[i]),
            steps.len() == 0 ==> current == lifecycle,
            steps.len() > 0 ==> current == steps@[steps.len() - 1],
        decreases 5 - stage_index(current),
    {
        match due_transition(row, current, now) {
            Some(next) => {
                let ghost before = steps@;
                steps.push(next);
                proof {
                    assert forall|i: int| 0 <= i < steps.len() implies spec_due(
                        *row,
                        stage_before(lifecycle, steps@, i),
                        now,
                    ) == Some(#[trigger] steps@[i]) by {
                        if i < before.len() {
                            assert(steps@[i] == before[i]);
                            assert(stage_before(lifecycle, steps@, i) == stage_before(lifecycle, before, i));
                        } else {
                            assert(stage_before(lifecycle, steps@, i) == current);
                        }
                    }
                    lemma_due_is_forward_step(*row, current, now);
                }
                current = next;
            },
            None => {
                proof {
                    lemma_settle_is_fixpoint(*row, lifecycle, now);
                }
                return (current, steps);
            },
        }
    }
}

/// One stage of a lifecycle schedule as it is validated: its mode, its time and its name.
pub struct StageInput<'a> {
    pub mode: LifecycleScheduleMode,
    pub at: Option<i64>,
    pub name: &'a str,
}

/// The error, if any, of the stages `stages[i..]` of a schedule, where `previous` is the latest
/// time set before them.
pub open spec fn spec_schedule_error(
    created_at: i64,
    stages: Seq<(LifecycleScheduleMode, Option<i64>, Seq<char>)>,
    i: int,
    previous: Option<i64>,
) -> Option<(ErrorKind, Seq<char>)>
    decreases stages.len() - i,
{
    if i < 0 || i >= stages.len() {
        None
    } else {
        let (mode, at, name) = stages[i];
        if mode == LifecycleScheduleMode::Scheduled && at is None {
            Some(
                (
                    ErrorKind::BadRequest,
                    name + " stage start time is required for scheduled stages"@,
                ),
            )
        } else {
            match at {
                Some(value) => if value < created_at {
                    Some(
                        (
                            ErrorKind::BadRequest,
                            name + " stage start time cannot be earlier than tournament creation"@,
                        ),
                    )
                } else if previous matches Some(p) && value < p {
                    Some(
                        (
                            ErrorKind::BadRequest,
                            "lifecycle stage start times must be in chronological order"@,
                        ),
                    )
                } else {
                    spec_schedule_error(created_at, stages, i + 1, Some(value))
                },
                None => spec_schedule_error(created_at, stages, i + 1, previous),
            }
        }
    }
}

/// One stage on its own passes: a scheduled stage has a time, and a time that is set is not
/// earlier than the tournament's creation.
pub open spec fn stage_acceptable(created_at: i64, st: (LifecycleScheduleMode, Option<i64>, Seq<char>)) -> bool {
    &&& st.0 == LifecycleScheduleMode::Scheduled ==> st.1 is Some
    &&& st.1 matches Some(v) ==> created_at <= v
}

/// The times set on the stages never go back: a stage's set time is never earlier than that of
/// a stage before it.
pub open spec fn set_times_in_order(stages: Seq<(LifecycleScheduleMode, Option<i64>, Seq<char>)>) -> bool {
    forall|j: int, k: int|
        0 <= j < k < stages.len() && (#[trigger] stages[j]).1 is Some && (#[trigger] stages[k]).1 is Some
            ==> stages[j].1->0 <= stages[k].1->0
}

proof fn lemma_schedule_from(
    created_at: i64,
    s: Seq<(LifecycleScheduleMode, Option<i64>, Seq<char>)>,
    i: int,
    previous: Option<i64>,
)
    requires
        0 <= i <= s.len(),
    ensures
        spec_schedule_error(created_at, s, i, previous) is None <==> {
            &&& forall|j: int| i <= j < s.len() ==> stage_acceptable(created_at, #[trigger] s[j])
            &&& forall|j: int|
                i <= j < s.len() && (#[trigger] s[j]).1 is Some && previous is Some ==> previous->0
                    <= s[j].1->0
            &&& forall|j: int, k: int|
                i <= j < k < s.len() && (#[trigger] s[j]).1 is Some && (#[trigger] s[k]).1 is Some
                    ==> s[j].1->0 <= s[k].1->0
        },
        (forall|j: int| i <= j < s.len() ==> stage_acceptable(created_at, #[trigger] s[j]))
            && spec_schedule_error(created_at, s, i, previous) is Some ==> spec_schedule_error(
            created_at,
            s,
            i,
            previous,
        ) == Some((ErrorKind::BadRequest, "lifecycle stage start times must be in chronological order"@)),
    decreases s.len() - i,
{
    if i < s.len() {
        let (mode, at, name) = s[i];
        if mode == LifecycleScheduleMode::Scheduled && at is None {
            assert(!stage_acceptable(created_at, s[i]));
        } else {
            match at {
                Some(value) => {
                    if value < created_at {
                        assert(!stage_acceptable(created_at, s[i]));
                    } else if previous matches Some(p) && value < p {
                    } else {
                        lemma_schedule_from(created_at, s, i + 1, Some(value));
                        if spec_schedule_error(created_at, s, i + 1, Some(value)) is None {
                            assert forall|j: int|
                                i <= j < s.len() && (#[trigger] s[j]).1 is Some && previous is Some implies previous->0
                                <= s[j].1->0 by {
                                if j > i {
                                    assert(s[j].1->0 >= value);
                                }
                            }
                            assert forall|j: int, k: int|
                                i <= j < k < s.len() && (#[trigger] s[j]).1 is Some && (#[trigger] s[k]).1 is Some
                                    implies s[j].1->0 <= s[k].1->0 by {
                                if j == i {
                                    assert(s[k].1->0 >= value);
                                }
                            }
                        } else {
                            if (forall|j: int| i <= j < s.len() ==> stage_acceptable(created_at, #[trigger] s[j]))
                                && (forall|j: int|
                                i <= j < s.len() && (#[trigger] s[j]).1 is Some && previous is Some ==> previous->0
                                    <= s[j].1->0) && (forall|j: int, k: int|
                                i <= j < k < s.len() && (#[trigger] s[j]).1 is Some && (#[trigger] s[k]).1
                                    is Some ==> s[j].1->0 <= s[k].1->0) {
                                assert forall|j: int|
                                    i + 1 <= j < s.len() && (#[trigger] s[j]).1 is Some implies value <= s[j].1->0 by {
                                    assert(s[i].1 is Some);
                                }
                                assert(false);
                            }
                        }
                    }
                },
                None => {
                    lemma_schedule_from(created_at, s, i + 1, previous);
                },
            }
        }
    }
}

/// Which lifecycle schedules are accepted: exactly those where every scheduled stage has a
/// time, no time that is set precedes the tournament's creation, and the times that are set
/// never go back. A schedule whose stages each pass on their own but whose set times go back
/// (a stage's time earlier than that of a stage before it) is refused as out of chronological
/// order.
pub proof fn lemma_schedule_acceptance(created_at: i64, stages: Seq<(LifecycleScheduleMode, Option<i64>, Seq<char>)>)
    ensures
        spec_schedule_error(created_at, stages, 0, None) is None <==> (forall|j: int|
            0 <= j < stages.len() ==> stage_acceptable(created_at, #[trigger] stages[j])) && set_times_in_order(
            stages,
        ),
        (forall|j: int| 0 <= j < stages.len() ==> stage_acceptable(created_at, #[trigger] stages[j]))
            && !set_times_in_order(stages) ==> spec_schedule_error(created_at, stages, 0, None) == Some(
            (ErrorKind::BadRequest, "lifecycle stage start times must be in chronological order"@),
        ),
{
    lemma_schedule_from(created_at, stages, 0, None);
}

/// The refusal of a stage that fails on its own: a scheduled stage without a time, else a time
/// earlier than the tournament's creation.
pub open spec fn stage_refusal(st: (LifecycleScheduleMode, Option<i64>, Seq<char>)) -> (ErrorKind, Seq<char>) {
    if st.0 == LifecycleScheduleMode::Scheduled && st.1 is None {
        (ErrorKind::BadRequest, st.2 + " stage start time is required for scheduled stages"@)
    } else {
        (ErrorKind::BadRequest, st.2 + " stage start time cannot be earlier than tournament creation"@)
    }
}

proof fn lemma_schedule_first_fault(
    created_at: i64,
    s: Seq<(LifecycleScheduleMode, Option<i64>, Seq<char>)>,
    i: int,
    previous: Option<i64>,
    m: int,
)
    requires
        0 <= i <= m < s.len(),
        forall|j: int| i <= j < m ==> stage_acceptable(created_at, #[trigger] s[j]),
        forall|j: int| i <= j < m && (#[trigger] s[j]).1 is Some && previous is Some ==> previous->0 <= s[j].1->0,
        forall|j: int, k: int|
            i <= j < k < m && (#[trigger] s[j]).1 is Some && (#[trigger] s[k]).1 is Some ==> s[j].1->0 <= s[k].1->0,
        !stage_acceptable(created_at, s[m]),
    ensures
        spec_schedule_error(created_at, s, i, previous) == Some(stage_refusal(s[m])),
    decreases m - i,
{
    if i < m {
        assert(stage_acceptable(created_at, s[i]));
        match s[i].1 {
            Some(value) => {
                assert forall|j: int| i + 1 <= j < m && (#[trigger] s[j]).1 is Some implies value <= s[j].1->0 by {
                    assert(s[i].1 is Some);
                }
                lemma_schedule_first_fault(created_at, s, i + 1, Some(value), m);
            },
            None => {
                lemma_schedule_first_fault(created_at, s, i + 1, previous, m);
            },
        }
    }
}

/// The first stage that fails on its own decides the refusal, when every stage before it
/// passes and their set times do not go back: a scheduled stage without a time is refused as
/// requiring one, and a time earlier than the tournament's creation as too early, each naming
/// the stage.
pub proof fn lemma_schedule_refusals(
    created_at: i64,
    stages: Seq<(LifecycleScheduleMode, Option<i64>, Seq<char>)>,
    m: int,
)
    requires
        0 <= m < stages.len(),
        forall|j: int| 0 <= j < m ==> stage_acceptable(created_at, #[trigger] stages[j]),
        forall|j: int, k: int|
            0 <= j < k < m && (#[trigger] stages[j]).1 is Some && (#[trigger] stages[k]).1 is Some
                ==> stages[j].1->0 <= stages[k].1->0,
        !stage_acceptable(created_at, stages[m]),
    ensures
        stages[m].0 == LifecycleScheduleMode::Scheduled && stages[m].1 is None ==> spec_schedule_error(
            created_at,
            stages,
            0,
            None,
        ) == Some((ErrorKind::BadRequest, stages[m].2 + " stage start time is required for scheduled stages"@)),
        !(stages[m].0 == LifecycleScheduleMode::Scheduled && stages[m].1 is None) ==> spec_schedule_error(
            created_at,
            stages,
            0,
            None,
        ) == Some(
            (ErrorKind::BadRequest, stages[m].2 + " stage start time cannot be earlier than tournament creation"@),
        ),
{
    lemma_schedule_first_fault(created_at, stages, 0, None, m);
}

/// The stages as plain values.
pub open spec fn stage_values(stages: Seq<StageInput>) -> Seq<(LifecycleScheduleMode, Option<i64>, Seq<char>)> {
    stages.map_values(|s: StageInput| (s.mode, s.at, s.name@))
}

/// Checks a lifecycle schedule: a scheduled stage needs a time; no time precedes the
/// tournament's creation; the times that are set run in chronological order.
pub fn validate_lifecycle_schedule(created_at: i64, stages: &[StageInput; 4]) -> (r: Result<
    (),
    ResponseError,
>)
    ensures
        crate::error::outcome(r, spec_schedule_error(created_at, stage_values(stages@), 0, None)),
{
    let mut previous: Option<i64> = None;
    let mut i: usize = 0;
    let ghost all = stage_values(stages@);
    while i < 4
        invariant
            i <= 4,
            stages@.len() == 4,
            all == stage_values(stages@),
            spec_schedule_error(created_at, all, 0, None) == spec_schedule_error(
                created_at,
                all,
                i as int,
                previous,
            ),
        decreases 4 - i,
    {
        let stage = &stages[i];
        assert(all[i as int] == (stage.mode, stage.at, stage.name@));
        if stage.mode == LifecycleScheduleMode::Scheduled && stage.at.is_none() {
            let msg = owned(stage.name).concat(" stage start time is required for scheduled stages");
            return Err(ResponseError::BadRequest(msg));
        }
        if let Some(value) = stage.at {
            if value < created_at {
                let msg = owned(stage.name).concat(
                    " stage start time cannot be earlier than tournament creation",
                );
                return Err(ResponseError::BadRequest(msg));
            }
            if let Some(p) = previous {
                if value < p {
                    return Err(
                        ResponseError::BadRequest(
                            owned("lifecycle stage start times must be in chronological order"),
                        ),
                    );
                }
            }
            previous = Some(value);
        }
        i = i + 1;
    }
    Ok(())
}

} // verus!
