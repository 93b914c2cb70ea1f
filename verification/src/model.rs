//! The enumerations that tournament records carry.
use vstd::prelude::*;

verus! {

/// The state of a registration.
#[derive(Clone, Copy, PartialEq, Eq, Debug, Structural)]
pub enum RegistrationStatus {
    Pending,
    Approved,
    Rejected,
    Withdrawn,
}

/// Whether a tournament ranks individuals, teams, or both.
#[derive(Clone, Copy, PartialEq, Eq, Debug, Structural)]
pub enum CompetitionMode {
    Individual,
    Team,
    Both,
}

/// Whether a participant's result needs, may have, or must not have screenshot evidence.
#[derive(Clone, Copy, PartialEq, Eq, Debug, Structural)]
pub enum EvidencePolicy {
    Optional,
    Required,
    Disabled,
}

/// When a leaderboard snapshot is public.
#[derive(Clone, Copy, PartialEq, Eq, Debug, Structural)]
pub enum LeaderboardVisibility {
    Live,
    Frozen,
    AfterEnd,
}

/// The role of a tournament staff member.
#[derive(Clone, Copy, PartialEq, Eq, Debug, Structural)]
pub enum StaffRole {
    Owner,
    Organizer,
    Judge,
}

/// A platform permission of a user.
#[derive(Clone, Copy, PartialEq, Eq, Debug, Structural)]
pub enum Permission {
    User,
    Statistics,
    DevOps,
    ChartLibrary,
}

/// The kind of a leaderboard.
#[derive(Clone, Copy, PartialEq, Eq, Debug, Structural)]
pub enum LeaderboardKind {
    Individual,
    Team,
}

/// Who may see a chart linked to a tournament in the public chart library.
#[derive(Clone, Copy, PartialEq, Eq, Debug, Structural)]
pub enum ChartVisibility {
    Private,
    Public,
    AfterArchive,
}

/// The review state of a chart library entry.
#[derive(Clone, Copy, PartialEq, Eq, Debug, Structural)]
pub enum ChartStatus {
    Pending,
    Approved,
    Rejected,
}

} // verus!
