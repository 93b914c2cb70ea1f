use rhythm_arena::access::Token;
use rhythm_arena::communication::{
    can_chat, chat_text, check_connect, notification_text, require_chat, ChatInput, NotificationInput,
};
use rhythm_arena::error::ResponseError;
use rhythm_arena::events::{chat_event, notification_event, Event, TournamentEventType};
use rhythm_arena::inputs::client_name;

fn err<T: std::fmt::Debug>(r: Result<T, ResponseError>) -> (u16, String) {
    match r {
        Err(e) => (e.status(), e.body()),
        Ok(v) => panic!("unexpected {:?}", v),
    }
}

#[test]
fn notifications_need_title_and_content() {
    let ok = notification_text(&NotificationInput { title: " News ".to_owned(), content: "\tBody ".to_owned() }).unwrap();
    assert_eq!(ok, ("News".to_owned(), "Body".to_owned()));
    let long = NotificationInput { title: "é".repeat(128), content: "x".to_owned() };
    assert_eq!(err(notification_text(&long)), (400, "notification title and content are required".to_owned()));
    let max = NotificationInput { title: "é".repeat(127), content: "x".to_owned() };
    assert!(notification_text(&max).is_ok());
    let empty = NotificationInput { title: "t".to_owned(), content: "  ".to_owned() };
    assert!(notification_text(&empty).is_err());
}

#[test]
fn chat_access_and_length() {
    let user = Token { id: 3, nickname: "n".to_owned(), permissions: vec![] };
    let anonymous = Token { id: 0, nickname: "n".to_owned(), permissions: vec![] };
    assert_eq!(can_chat(&user, false, true).unwrap(), true);
    assert_eq!(can_chat(&user, false, false).unwrap(), false);
    assert!(can_chat(&anonymous, true, true).is_err());
    assert_eq!(err(require_chat(false)), (403, "approved registration or staff access required".to_owned()));
    assert_eq!(chat_text(&ChatInput { content: " hi ".to_owned() }).unwrap(), "hi");
    assert!(chat_text(&ChatInput { content: "字".repeat(4000) }).is_ok());
    assert_eq!(err(chat_text(&ChatInput { content: "字".repeat(4001) })), (400, "chat message must contain between 1 and 4000 characters".to_owned()));
    assert!(chat_text(&ChatInput { content: " ".to_owned() }).is_err());
}

#[test]
fn event_stream_connections() {
    let user = Token { id: 3, nickname: "n".to_owned(), permissions: vec![] };
    let anonymous = Token { id: 0, nickname: "n".to_owned(), permissions: vec![] };
    assert_eq!(err(check_connect(&anonymous, true, true, true)), (401, "please login first".to_owned()));
    assert!(check_connect(&user, true, false, true).is_ok());
    assert_eq!(err(check_connect(&user, false, true, true)), (403, "permission denied".to_owned()));
    assert_eq!(err(check_connect(&user, true, false, false)), (403, "permission denied".to_owned()));
    assert_eq!(client_name(None), "Unspecified v0.0.0");
    assert_eq!(client_name(Some("web 1.0".to_owned())), "web 1.0");
}

#[test]
fn events_carry_their_actor() {
    let c = notification_event(8, 2, "Title".to_owned());
    assert_eq!(c.tournament_id, 8);
    match c.event {
        Event::Tournament(e) => {
            assert_eq!(e.event_type, TournamentEventType::NewNotification);
            assert_eq!(e.actor_id, Some(2));
            assert_eq!(e.message.as_deref(), Some("Title"));
        },
        Event::Devops(_) => panic!("wrong kind"),
    }
    match chat_event(8, 5).event {
        Event::Tournament(e) => {
            assert_eq!(e.event_type, TournamentEventType::ChatMessage);
            assert!(e.message.is_none());
        },
        Event::Devops(_) => panic!("wrong kind"),
    }
}
