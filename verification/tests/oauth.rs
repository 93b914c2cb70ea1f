use rhythm_arena::oauth::{read_oauth_answer, OAuthError, ScriptAnswer};

fn text(key: &str, value: &str) -> (String, Result<String, String>) {
    (key.to_owned(), Ok(value.to_owned()))
}

#[test]
fn oauth_answer_gives_its_members_in_order() {
    let answer = ScriptAnswer::Object(vec![text("name", "Player"), text("auth_key", "k-1")]);
    let data = read_oauth_answer(answer).unwrap();
    assert_eq!(data, vec![("name".to_owned(), "Player".to_owned()), ("auth_key".to_owned(), "k-1".to_owned())]);
}

#[test]
fn oauth_answer_without_auth_key_is_missing_a_field() {
    let answer = ScriptAnswer::Object(vec![text("name", "Player"), ("id".to_owned(), Err("not text".to_owned()))]);
    assert!(matches!(read_oauth_answer(answer), Err(OAuthError::MissingField(f)) if f == "auth_key"));
    assert!(matches!(read_oauth_answer(ScriptAnswer::Object(vec![])), Err(OAuthError::MissingField(_))));
}

#[test]
fn oauth_answer_with_a_value_that_is_not_text() {
    let answer = ScriptAnswer::Object(vec![
        text("auth_key", "k"),
        ("id".to_owned(), Err("expected String, found i64".to_owned())),
        ("flag".to_owned(), Err("expected String, found bool".to_owned())),
    ]);
    assert!(matches!(read_oauth_answer(answer), Err(OAuthError::EngineError(e)) if e == "expected String, found i64"));
}

#[test]
fn oauth_answer_that_is_an_error_or_no_result() {
    assert!(matches!(
        read_oauth_answer(ScriptAnswer::Refused),
        Err(OAuthError::ScriptError(t)) if t == "unexpected value in oauth script"
    ));
    assert!(matches!(
        read_oauth_answer(ScriptAnswer::Malformed("expected Result".to_owned())),
        Err(OAuthError::EngineError(t)) if t == "expected Result"
    ));
}
