use rhythm_arena::error::{PhiraError, ResponseError};
use rhythm_arena::phira::{
    chart_url, check_identity, check_login, check_status, login_url, me_url, popular_url, Identity, LoginReply,
};

#[test]
fn status_codes() {
    assert!(check_status(200).is_ok());
    assert!(check_status(299).is_ok());
    assert!(matches!(check_status(401), Err(PhiraError::Authentication)));
    assert!(matches!(check_status(403), Err(PhiraError::Authentication)));
    assert!(matches!(check_status(500), Err(PhiraError::InvalidResponse)));
    assert!(matches!(check_status(302), Err(PhiraError::InvalidResponse)));
}

#[test]
fn login_and_identity() {
    assert!(matches!(check_login(true, None), Err(PhiraError::Authentication)));
    assert!(matches!(check_login(false, None), Err(PhiraError::InvalidResponse)));
    let empty = LoginReply { id: 1, token: String::new() };
    assert!(matches!(check_login(false, Some(empty)), Err(PhiraError::InvalidResponse)));
    let good = check_login(false, Some(LoginReply { id: 1, token: "t".to_owned() })).unwrap();
    assert_eq!((good.id, good.token.as_str()), (1, "t"));
    let me = Identity { id: 1, name: "Player".to_owned(), avatar: None };
    assert_eq!(check_identity(1, Some(me)).unwrap().name, "Player");
    assert!(check_identity(2, Some(Identity { id: 1, name: "P".to_owned(), avatar: None })).is_err());
    assert!(check_identity(1, Some(Identity { id: 1, name: " ".to_owned(), avatar: None })).is_err());
    assert!(check_identity(1, None).is_err());
}

#[test]
fn addresses() {
    assert_eq!(chart_url(42), "https://phira.5wyxi.com/chart/42");
    assert_eq!(popular_url(0, 99), "https://phira.5wyxi.com/chart?page=1&pageNum=30&type=-1");
    assert_eq!(popular_url(3, 0), "https://phira.5wyxi.com/chart?page=3&pageNum=1&type=-1");
    assert_eq!(popular_url(2, 12), "https://phira.5wyxi.com/chart?page=2&pageNum=12&type=-1");
    assert_eq!(login_url(), "https://phira.5wyxi.com/login");
    assert_eq!(me_url(), "https://phira.5wyxi.com/me");
}

#[test]
fn phira_errors_answer_with_gateway_codes() {
    let auth = ResponseError::PhiraError(PhiraError::Authentication);
    assert_eq!((auth.status(), auth.body()), (403, "phira email or password is wrong".to_owned()));
    let down = ResponseError::PhiraError(PhiraError::Request("timeout".to_owned()));
    assert_eq!((down.status(), down.body()), (502, "phira service is unavailable".to_owned()));
    assert_eq!(down.describe(), "phira error: phira service request failed");
    let bad = ResponseError::PhiraError(PhiraError::InvalidResponse);
    assert_eq!((bad.status(), bad.body()), (502, "invalid response from Phira".to_owned()));
}
