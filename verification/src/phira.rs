//! The Phira service client: the addresses it asks and how it reads the service's answers.
use vstd::prelude::*;
use vstd::string::StringExecFns;

use crate::error::PhiraError;
use crate::text::{blank, decimal, is_blank, owned, push_decimal};

verus! {

/// The address of the Phira service.
pub const PHIRA_URL: &'static str = "https://phira.5wyxi.com";

/// A Phira account, as the service describes the signed-in user.
pub struct Identity {
    pub id: i64,
    pub name: String,
    pub avatar: Option<String>,
}

/// The service's answer to a login: the account id and the session token.
pub struct LoginReply {
    pub id: i64,
    pub token: String,
}

/// How a status code of the service is read: 401 and 403 mean the credentials were refused;
/// any other code outside 200..=299 is an invalid answer.
pub open spec fn status_error(status: u16) -> Option<PhiraError> {
    if status == 401 || status == 403 {
        Some(PhiraError::Authentication)
    } else if !(200 <= status <= 299) {
        Some(PhiraError::InvalidResponse)
    } else {
        None
    }
}

/// Reads a status code of the service.
pub fn check_status(status: u16) -> (r: Result<(), PhiraError>)
    ensures
        match status_error(status) {
            None => r is Ok,
            Some(e) => r matches Err(x) && x == e,
        },
{
    if status == 401 || status == 403 {
        Err(PhiraError::Authentication)
    } else if status < 200 || status > 299 {
        Err(PhiraError::InvalidResponse)
    } else {
        Ok(())
    }
}

/// Reads the body of a login answer: a body with an `error` text means the credentials were
/// refused; a body that is not a login reply, or whose token is empty, is an invalid answer.
/// `has_error` says whether the body has an `error` text, and `reply` is the body read as a
/// login reply, if it is one.
pub fn check_login(has_error: bool, reply: Option<LoginReply>) -> (r: Result<LoginReply, PhiraError>)
    ensures
        has_error ==> r matches Err(PhiraError::Authentication),
        !has_error ==> match reply {
            None => r matches Err(PhiraError::InvalidResponse),
            Some(l) => if l.token@.len() == 0 {
                r matches Err(PhiraError::InvalidResponse)
            } else {
                r matches Ok(x) && x == l
            },
        },
{
    if has_error {
        return Err(PhiraError::Authentication);
    }
    match reply {
        None => Err(PhiraError::InvalidResponse),
        Some(l) => {
            if l.token.as_str().unicode_len() == 0 {
                Err(PhiraError::InvalidResponse)
            } else {
                Ok(l)
            }
        },
    }
}

/// Reads the account that the service describes after a login as `login_id`: it must be that
/// account, with a name that is not blank.
pub fn check_identity(login_id: i64, identity: Option<Identity>) -> (r: Result<Identity, PhiraError>)
    ensures
        match identity {
            None => r matches Err(PhiraError::InvalidResponse),
            Some(i) => if i.id != login_id || is_blank(i.name@) {
                r matches Err(PhiraError::InvalidResponse)
            } else {
                r matches Ok(x) && x == i
            },
        },
{
    match identity {
        None => Err(PhiraError::InvalidResponse),
        Some(i) => {
            if i.id != login_id || blank(i.name.as_str()) {
                Err(PhiraError::InvalidResponse)
            } else {
                Ok(i)
            }
        },
    }
}

/// The address of the chart with id `id`.
pub fn chart_url(id: i64) -> (url: String)
    ensures
        url@ == PHIRA_URL@ + "/chart/"@ + decimal(id as int),
{
    let mut url = owned(PHIRA_URL).concat("/chart/");
    push_decimal(&mut url, id);
    url
}

/// The page of the popular charts that is asked for: at least the first.
pub open spec fn page_asked(page: u32) -> u32 {
    if page < 1 {
        1
    } else {
        page
    }
}

/// The size of a page of popular charts: between 1 and 30.
pub open spec fn page_size(page_num: u32) -> u32 {
    if page_num < 1 {
        1
    } else if page_num > 30 {
        30
    } else {
        page_num
    }
}

/// The address of a page of the popular charts.
pub fn popular_url(page: u32, page_num: u32) -> (url: String)
    ensures
        url@ == PHIRA_URL@ + "/chart?page="@ + decimal(page_asked(page) as int) + "&pageNum="@
            + decimal(page_size(page_num) as int) + "&type=-1"@,
{
    let p: u32 = if page < 1 {
        1
    } else {
        page
    };
    let n: u32 = if page_num < 1 {
        1
    } else if page_num > 30 {
        30
    } else {
        page_num
    };
    let mut url = owned(PHIRA_URL).concat("/chart?page=");
    push_decimal(&mut url, p as i64);
    let mut url = url.concat("&pageNum=");
    push_decimal(&mut url, n as i64);
    url.concat("&type=-1")
}

/// The address of the login.
pub fn login_url() -> (url: String)
    ensures
        url@ == PHIRA_URL@ + "/login"@,
{
    owned(PHIRA_URL).concat("/login")
}

/// The address that describes the signed-in account.
pub fn me_url() -> (url: String)
    ensures
        url@ == PHIRA_URL@ + "/me"@,
{
    owned(PHIRA_URL).concat("/me")
}

} // verus!
