//! The small request bodies of the service, and what they decide.
use vstd::prelude::*;

verus! {

/// The request that enters, releases, withdraws or ends a round; `force` enters a round before
/// its scheduled start.
#[derive(Clone, Copy, Debug, Default)]
pub struct RoundActionInput {
    pub force: bool,
}

/// The request that creates a scoring script version: its name, the template it starts from,
/// and its own text (which takes the template's place).
pub struct ScriptInput {
    pub name: String,
    pub template_key: String,
    pub source: Option<String>,
}

/// The request that checks a scoring script without storing it.
pub struct ValidateInput {
    pub source: String,
}

/// The query of a leaderboard read; staff may ask for the live board.
#[derive(Clone, Copy, Debug)]
pub struct LeaderboardQuery {
    pub staff_live: Option<bool>,
}

/// The request that imports a Phira chart into the library.
#[derive(Clone, Copy, Debug)]
pub struct PhiraImportInput {
    pub external_id: i64,
}

/// The request that reviews a result: the status it moves to, and why.
pub struct ReviewInput {
    pub status: crate::results::ResultStatus,
    pub reason: Option<String>,
}

/// The request that adds a staff member.
#[derive(Clone, Copy, Debug)]
pub struct StaffInput {
    pub user_id: i64,
    pub role: crate::model::StaffRole,
}

/// The request that changes a staff member's role.
#[derive(Clone, Copy, Debug)]
pub struct StaffRoleInput {
    pub role: crate::model::StaffRole,
}

/// The name under which a client of the event stream is logged: the one it gives, else a
/// placeholder.
pub fn client_name(client: Option<String>) -> (name: String)
    ensures
        match client {
            Some(c) => name == c,
            None => name@ == "Unspecified v0.0.0"@,
        },
{
    match client {
        Some(c) => c,
        None => crate::text::owned("Unspecified v0.0.0"),
    }
}

} // verus!
