use rhythm_arena::error::{
    CacheFault, DbFault, EngineFault, MediaFault, OAuthFault, QueueFault, ResponseError,
};

fn answer(e: ResponseError) -> (u16, String) {
    (e.status(), e.body())
}

#[test]
fn plain_errors_answer_with_their_text() {
    assert_eq!(answer(ResponseError::BadRequest("b".to_owned())), (400, "b".to_owned()));
    assert_eq!(answer(ResponseError::Unauthorized("u".to_owned())), (401, "u".to_owned()));
    assert_eq!(answer(ResponseError::Forbidden("f".to_owned())), (403, "f".to_owned()));
    assert_eq!(answer(ResponseError::NotFound("n".to_owned())), (404, "n".to_owned()));
    assert_eq!(answer(ResponseError::Gone("g".to_owned())), (410, "g".to_owned()));
    assert_eq!(answer(ResponseError::Conflict("c".to_owned())), (409, "c".to_owned()));
    assert_eq!(answer(ResponseError::PreconditionFailed("p".to_owned())), (412, "p".to_owned()));
    assert_eq!(answer(ResponseError::TooManyRequests("t".to_owned())), (429, "t".to_owned()));
    assert_eq!(answer(ResponseError::InternalServerError("i".to_owned())), (500, "i".to_owned()));
}

#[test]
fn wrapped_failures_answer_with_a_summary() {
    let d = |f| ResponseError::DatabaseError(f, "db text".to_owned());
    assert_eq!(answer(d(DbFault::RecordNotFound("user 4".to_owned()))), (404, "record not found: user 4".to_owned()));
    assert_eq!(answer(d(DbFault::Json)), (500, "data cruptted".to_owned()));
    assert_eq!(answer(d(DbFault::Other)), (500, "database internal error".to_owned()));
    assert_eq!(answer(ResponseError::CacheError(CacheFault::DomainNeeded, String::new())), (400, "cache domain needed".to_owned()));
    assert_eq!(answer(ResponseError::CacheError(CacheFault::Redis, String::new())), (500, "cache server seems down".to_owned()));
    assert_eq!(answer(ResponseError::QueueError(QueueFault::Publish, String::new())), (500, "message queue refused publishing".to_owned()));
    assert_eq!(answer(ResponseError::MediaError(MediaFault::UnsupportedFileType, String::new())), (400, "unsupported file type".to_owned()));
    assert_eq!(answer(ResponseError::OAuthError(OAuthFault::Other, String::new())), (403, "failed to login with 3rd account".to_owned()));
    assert_eq!(answer(ResponseError::OAuthError(OAuthFault::Network, String::new())), (500, "missing OAuth config".to_owned()));
    assert_eq!(answer(ResponseError::EngineError(EngineFault::ScriptError, String::new())), (412, "scoring script rejected the input".to_owned()));
    assert_eq!(
        answer(ResponseError::EngineError(EngineFault::MissingFunction("\"rank\"".to_owned()), String::new())),
        (412, "missing script function: \"rank\"".to_owned())
    );
    assert_eq!(answer(ResponseError::EngineError(EngineFault::ExecError, String::new())), (500, "failed to execute scoring script".to_owned()));
    assert_eq!(answer(ResponseError::SerializeError("x".to_owned())), (500, "failed to serialize data".to_owned()));
    assert_eq!(answer(ResponseError::StringDecodeError("x".to_owned())), (500, "failed to decode string".to_owned()));
}

#[test]
fn descriptions_prefix_the_variant() {
    assert_eq!(ResponseError::Conflict("c".to_owned()).describe(), "conflict: c");
    assert_eq!(ResponseError::Gone("g".to_owned()).describe(), "resource is outdated: g");
    assert_eq!(ResponseError::DatabaseError(DbFault::Other, "broken".to_owned()).describe(), "database error: broken");
    assert_eq!(ResponseError::EngineError(EngineFault::Other, "e".to_owned()).describe(), "script engine error: e");
}
