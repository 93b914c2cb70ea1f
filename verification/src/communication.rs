//! Tournament notifications and chat: who may post, and what a post must hold.
use vstd::prelude::*;

use crate::access::Token;
use crate::error::{bad_request, forbidden, outcome, unauthorized, ErrorKind, ResponseError};
use crate::text::{owned, trim, trimmed};
use crate::validation::char_len;

verus! {

/// The request that publishes a notification.
pub struct NotificationInput {
    pub title: String,
    pub content: String,
}

/// A notification needs a title of at most 127 characters and a content, both trimmed and
/// not empty.
pub open spec fn notification_error(input: NotificationInput) -> Option<(ErrorKind, Seq<char>)> {
    let title = trimmed(input.title@);
    let content = trimmed(input.content@);
    if title.len() == 0 || title.len() > 127 || content.len() == 0 {
        Some((ErrorKind::BadRequest, "notification title and content are required"@))
    } else {
        None
    }
}

/// The trimmed title and content of a notification, or why they are refused.
pub fn notification_text(input: &NotificationInput) -> (r: Result<(String, String), ResponseError>)
    ensures
        outcome(r, notification_error(*input)),
        r matches Ok(p) ==> p.0@ == trimmed(input.title@) && p.1@ == trimmed(input.content@),
{
    let title = trim(input.title.as_str());
    let content = trim(input.content.as_str());
    if title.unicode_len() == 0 || char_len(title) > 127 || content.unicode_len() == 0 {
        return Err(bad_request("notification title and content are required"));
    }
    Ok((owned(title), owned(content)))
}

/// The request that posts a chat message.
pub struct ChatInput {
    pub content: String,
}

/// Whether the caller may read and post chat: staff, or holders of an approved registration.
/// Nobody who is not signed in may.
pub fn can_chat(token: &Token, is_staff: bool, approved_registration: bool) -> (r: Result<bool, ResponseError>)
    ensures
        token.id <= 0 ==> r is Err && r->Err_0.is(ErrorKind::Unauthorized, "authentication required"@),
        token.id > 0 ==> r == Ok::<bool, ResponseError>(is_staff || approved_registration),
{
    crate::access::authenticated(token)?;
    Ok(is_staff || approved_registration)
}

/// Refuses a caller who may not chat.
pub fn require_chat(allowed: bool) -> (r: Result<(), ResponseError>)
    ensures
        outcome(
            r,
            if allowed {
                None
            } else {
                Some((ErrorKind::Forbidden, "approved registration or staff access required"@))
            },
        ),
{
    if allowed {
        Ok(())
    } else {
        Err(forbidden("approved registration or staff access required"))
    }
}

/// A chat message holds between 1 and 4000 characters once trimmed.
pub open spec fn chat_error(input: ChatInput) -> Option<(ErrorKind, Seq<char>)> {
    let content = trimmed(input.content@);
    if content.len() == 0 || content.len() > 4000 {
        Some((ErrorKind::BadRequest, "chat message must contain between 1 and 4000 characters"@))
    } else {
        None
    }
}

/// The trimmed text of a chat message, or why it is refused.
pub fn chat_text(input: &ChatInput) -> (r: Result<String, ResponseError>)
    ensures
        outcome(r, chat_error(*input)),
        r matches Ok(s) ==> s@ == trimmed(input.content@),
{
    let content = trim(input.content.as_str());
    let n = char_len(content);
    if n == 0 || n > 4000 {
        return Err(bad_request("chat message must contain between 1 and 4000 characters"));
    }
    Ok(owned(content))
}

/// Whether a connection to a tournament's event stream is accepted: the caller must be signed
/// in, and the tournament must exist and count the caller as registered or as staff.
pub fn check_connect(token: &Token, tournament_exists: bool, registered: bool, staff: bool) -> (r: Result<
    (),
    ResponseError,
>)
    ensures
        outcome(
            r,
            if token.id <= 0 {
                Some((ErrorKind::Unauthorized, "please login first"@))
            } else if tournament_exists && (registered || staff) {
                None
            } else {
                Some((ErrorKind::Forbidden, "permission denied"@))
            },
        ),
{
    if token.id <= 0 {
        return Err(unauthorized("please login first"));
    }
    if tournament_exists && (registered || staff) {
        Ok(())
    } else {
        Err(forbidden("permission denied"))
    }
}

} // verus!
