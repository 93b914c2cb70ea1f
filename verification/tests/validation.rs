use rhythm_arena::error::ResponseError;
use rhythm_arena::validation::{
    char_len, validate_account, validate_email, validate_nickname, validate_password,
    validate_register_request, validate_required,
};

fn message(r: Result<(), ResponseError>) -> String {
    match r {
        Err(ResponseError::BadRequest(m)) => m,
        other => panic!("unexpected {:?}", other),
    }
}

#[test]
fn register_validation_accepts_frontend_valid_fields() {
    assert!(validate_register_request("Valid_User_01", "测试用户", "user@example.com", "StrongPass1").is_ok());
}

#[test]
fn register_validation_rejects_invalid_accounts_after_filtering() {
    assert!(validate_account("abc").is_err());
    assert!(validate_account("a".repeat(33).as_str()).is_err());
    assert!(validate_account("bad-user").is_err());
    assert!(validate_account("bad user").is_err());
    assert!(validate_account("测试_user").is_err());
}

#[test]
fn register_validation_rejects_invalid_nickname_email_and_password() {
    assert!(validate_nickname("a").is_err());
    assert!(validate_nickname("a".repeat(33).as_str()).is_err());
    assert!(validate_email("not-an-email").is_err());
    assert!(validate_email("user@example").is_err());
    assert!(validate_password("weakpass1").is_err());
    assert!(validate_password("WEAKPASS1").is_err());
    assert!(validate_password("WeakPass").is_err());
    assert!(validate_password("Aa1".repeat(14).as_str()).is_err());
}

#[test]
fn validation_messages_and_bounds() {
    assert_eq!(message(validate_account("abc")), "account must be at least 4 characters");
    assert_eq!(message(validate_account(&"a".repeat(33))), "account must be at most 32 characters");
    assert_eq!(message(validate_account("bad-user")), "account contains invalid characters");
    assert!(validate_account("abcd").is_ok());
    assert!(validate_account(&"Z9_".repeat(10)).is_ok());
    assert_eq!(message(validate_nickname("a")), "nickname must be at least 2 characters");
    assert!(validate_nickname("测试").is_ok());
    assert_eq!(message(validate_email("a@b@c.com")), "invalid email");
    assert_eq!(message(validate_email("a b@c.com")), "invalid email");
    assert_eq!(message(validate_email("a@-c.com")), "invalid email");
    assert_eq!(message(validate_email("a@c..com")), "invalid email");
    assert!(validate_email("a@sub.example.org").is_ok());
    assert_eq!(message(validate_password("Short1a")), "password is too weak");
    assert!(validate_password("Aa1aaaaa").is_ok());
    assert!(validate_password(&"Aa1".repeat(13)).is_ok());
    assert_eq!(message(validate_register_request("abc", "x", "bad", "weak")), "account must be at least 4 characters");
    assert_eq!(message(validate_register_request("abcd", "x", "bad", "weak")), "nickname must be at least 2 characters");
    assert_eq!(message(validate_required("  \t", "title")), "title is required");
    assert!(validate_required(" x ", "title").is_ok());
    assert_eq!(char_len("测试✓a"), 4);
}

#[test]
fn email_labels_split_at_dots() {
    for bad in ["a@b..c", "a@-b.c", "a@b-.c", "a@b@c.d", "a@.b.c", "a@b.c.", "@b.c", "a@", "a@bc"] {
        assert!(validate_email(bad).is_err(), "{bad}");
    }
    for good in ["a@b.c", "a.b@c-d.e", "x@a.b-c.d"] {
        assert!(validate_email(good).is_ok(), "{good}");
    }
}
