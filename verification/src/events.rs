//! The events that the service pushes to the clients of a tournament.
use vstd::prelude::*;

verus! {

/// What happened in a tournament.
#[derive(Clone, Copy, PartialEq, Eq, Debug, Structural)]
pub enum TournamentEventType {
    LifecycleChanged,
    LeaderboardUpdated,
    NewNotification,
    ResultReviewed,
    ChatMessage,
}

/// An event of a tournament: what happened, who did it, and an optional text.
pub struct TournamentEvent {
    pub event_type: TournamentEventType,
    pub actor_id: Option<i64>,
    pub message: Option<String>,
}

/// What happened to the service itself.
#[derive(Clone, Copy, PartialEq, Eq, Debug, Structural)]
pub enum DevopsEventType {
    ServerPanic,
}

/// An event of the service, for its operators.
pub struct DevopsEvent {
    pub event_type: DevopsEventType,
    pub message: Option<String>,
}

/// Either kind of event.
pub enum Event {
    Tournament(TournamentEvent),
    Devops(DevopsEvent),
}

/// An event addressed to the clients of one tournament.
pub struct EventContainer {
    pub tournament_id: i64,
    pub event: Event,
}

/// What the event channel carries: an event to publish, or a heartbeat.
pub enum Broadcast {
    Publish(Box<EventContainer>),
    Heartbeat,
}

/// The event `c` is the tournament event of `kind` by `actor` with text `message` in
/// tournament `tournament_id`.
pub open spec fn is_tournament_event(
    c: EventContainer,
    tournament_id: i64,
    kind: TournamentEventType,
    actor: Option<i64>,
    message: Option<Seq<char>>,
) -> bool {
    &&& c.tournament_id == tournament_id
    &&& c.event matches Event::Tournament(e) && e.event_type == kind && e.actor_id == actor && match (
        e.message,
        message,
    ) {
        (Some(m), Some(t)) => m@ == t,
        (None, None) => true,
        _ => false,
    }
}

/// The event that announces a new notification with title `title`, published by `actor`.
pub fn notification_event(tournament_id: i64, actor: i64, title: String) -> (c: EventContainer)
    ensures
        is_tournament_event(
            c,
            tournament_id,
            TournamentEventType::NewNotification,
            Some(actor),
            Some(title@),
        ),
{
    EventContainer {
        tournament_id,
        event: Event::Tournament(
            TournamentEvent {
                event_type: TournamentEventType::NewNotification,
                actor_id: Some(actor),
                message: Some(title),
            },
        ),
    }
}

/// The event that announces a chat message by `actor` (without its text).
pub fn chat_event(tournament_id: i64, actor: i64) -> (c: EventContainer)
    ensures
        is_tournament_event(c, tournament_id, TournamentEventType::ChatMessage, Some(actor), None),
{
    EventContainer {
        tournament_id,
        event: Event::Tournament(
            TournamentEvent {
                event_type: TournamentEventType::ChatMessage,
                actor_id: Some(actor),
                message: None,
            },
        ),
    }
}

} // verus!
