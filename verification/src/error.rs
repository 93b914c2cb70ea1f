//! The errors that the service answers with, and the status line each one maps to.
use vstd::prelude::*;
use vstd::string::StringExecFns;

use crate::text::owned;

verus! {

/// Why a request to the Phira service failed.
#[derive(Clone, Debug)]
pub enum PhiraError {
    Authentication,
    /// The transport failure, as its text.
    Request(String),
    InvalidResponse,
}

/// What a database failure was, as far as the answer tells it apart.
#[derive(Clone, Debug)]
pub enum DbFault {
    /// A record was missing; the text names it.
    RecordNotFound(String),
    /// Stored data could not be read back.
    Json,
    Other,
}

/// What a cache failure was.
#[derive(Clone, Copy, PartialEq, Eq, Debug, Structural)]
pub enum CacheFault {
    DomainNeeded,
    ConfigNeeded,
    Redis,
    Serde,
    Other,
}

/// What a message queue failure was.
#[derive(Clone, Copy, PartialEq, Eq, Debug, Structural)]
pub enum QueueFault {
    Publish,
    Other,
}

/// What a media storage failure was.
#[derive(Clone, Copy, PartialEq, Eq, Debug, Structural)]
pub enum MediaFault {
    ParseContentType,
    UnsupportedFileType,
    StoragePathNotConfigured,
    Other,
}

/// What an OAuth failure was.
#[derive(Clone, Copy, PartialEq, Eq, Debug, Structural)]
pub enum OAuthFault {
    Network,
    Other,
}

/// What a script engine failure was.
#[derive(Clone, Debug)]
pub enum EngineFault {
    MissingScript,
    /// The missing function, as its debug text.
    MissingFunction(String),
    CompileError,
    AllocError,
    ExecError,
    MissingResultField,
    BuildError,
    SourceError,
    RuneError,
    RuneRuntimeError,
    ScriptError,
    Other,
}

/// The error answer of a request handler. The variants that wrap a failure of another part
/// of the service hold what the answer tells apart of it and, as text, the failure's own
/// description.
#[derive(Clone, Debug)]
pub enum ResponseError {
    InternalServerError(String),
    Unauthorized(String),
    BadRequest(String),
    Forbidden(String),
    NotFound(String),
    Gone(String),
    Conflict(String),
    PreconditionFailed(String),
    TooManyRequests(String),
    DatabaseError(DbFault, String),
    CacheError(CacheFault, String),
    QueueError(QueueFault, String),
    CaptchaError(String),
    PasswordHashError(String),
    SerializeError(String),
    MediaError(MediaFault, String),
    FileIoError(String),
    OAuthError(OAuthFault, String),
    PhiraError(PhiraError),
    EngineError(EngineFault, String),
    StringDecodeError(String),
}

/// The variant of a [`ResponseError`], without its content.
#[derive(Clone, Copy, PartialEq, Eq, Debug)]
pub enum ErrorKind {
    InternalServerError,
    Unauthorized,
    BadRequest,
    Forbidden,
    NotFound,
    Gone,
    Conflict,
    PreconditionFailed,
    TooManyRequests,
    DatabaseError,
    CacheError,
    QueueError,
    CaptchaError,
    PasswordHashError,
    SerializeError,
    MediaError,
    FileIoError,
    OAuthError,
    PhiraError,
    EngineError,
    StringDecodeError,
}

impl ResponseError {
    pub open spec fn kind(&self) -> ErrorKind {
        match self {
            ResponseError::InternalServerError(_) => ErrorKind::InternalServerError,
            ResponseError::Unauthorized(_) => ErrorKind::Unauthorized,
            ResponseError::BadRequest(_) => ErrorKind::BadRequest,
            ResponseError::Forbidden(_) => ErrorKind::Forbidden,
            ResponseError::NotFound(_) => ErrorKind::NotFound,
            ResponseError::Gone(_) => ErrorKind::Gone,
            ResponseError::Conflict(_) => ErrorKind::Conflict,
            ResponseError::PreconditionFailed(_) => ErrorKind::PreconditionFailed,
            ResponseError::TooManyRequests(_) => ErrorKind::TooManyRequests,
            ResponseError::DatabaseError(..) => ErrorKind::DatabaseError,
            ResponseError::CacheError(..) => ErrorKind::CacheError,
            ResponseError::QueueError(..) => ErrorKind::QueueError,
            ResponseError::CaptchaError(_) => ErrorKind::CaptchaError,
            ResponseError::PasswordHashError(_) => ErrorKind::PasswordHashError,
            ResponseError::SerializeError(_) => ErrorKind::SerializeError,
            ResponseError::MediaError(..) => ErrorKind::MediaError,
            ResponseError::FileIoError(_) => ErrorKind::FileIoError,
            ResponseError::OAuthError(..) => ErrorKind::OAuthError,
            ResponseError::PhiraError(_) => ErrorKind::PhiraError,
            ResponseError::EngineError(..) => ErrorKind::EngineError,
            ResponseError::StringDecodeError(_) => ErrorKind::StringDecodeError,
        }
    }

    /// The text that the error holds; empty for a Phira error.
    pub open spec fn detail(&self) -> Seq<char> {
        match self {
            ResponseError::InternalServerError(s) => s@,
            ResponseError::Unauthorized(s) => s@,
            ResponseError::BadRequest(s) => s@,
            ResponseError::Forbidden(s) => s@,
            ResponseError::NotFound(s) => s@,
            ResponseError::Gone(s) => s@,
            ResponseError::Conflict(s) => s@,
            ResponseError::PreconditionFailed(s) => s@,
            ResponseError::TooManyRequests(s) => s@,
            ResponseError::DatabaseError(_, s) => s@,
            ResponseError::CacheError(_, s) => s@,
            ResponseError::QueueError(_, s) => s@,
            ResponseError::CaptchaError(s) => s@,
            ResponseError::PasswordHashError(s) => s@,
            ResponseError::SerializeError(s) => s@,
            ResponseError::MediaError(_, s) => s@,
            ResponseError::FileIoError(s) => s@,
            ResponseError::OAuthError(_, s) => s@,
            ResponseError::PhiraError(_) => Seq::empty(),
            ResponseError::EngineError(_, s) => s@,
            ResponseError::StringDecodeError(s) => s@,
        }
    }

    /// `self` is the error of variant `kind` with text `msg`.
    pub open spec fn is(&self, kind: ErrorKind, msg: Seq<char>) -> bool {
        self.kind() == kind && self.detail() == msg
    }

    /// The HTTP status code that the error is answered with.
    pub open spec fn spec_status(&self) -> u16 {
        match self {
            ResponseError::InternalServerError(_) => 500,
            ResponseError::Unauthorized(_) => 401,
            ResponseError::BadRequest(_) => 400,
            ResponseError::Forbidden(_) => 403,
            ResponseError::NotFound(_) => 404,
            ResponseError::Gone(_) => 410,
            ResponseError::Conflict(_) => 409,
            ResponseError::PreconditionFailed(_) => 412,
            ResponseError::TooManyRequests(_) => 429,
            ResponseError::DatabaseError(DbFault::RecordNotFound(_), _) => 404,
            ResponseError::CacheError(CacheFault::DomainNeeded, _) => 400,
            ResponseError::MediaError(MediaFault::ParseContentType, _) => 400,
            ResponseError::MediaError(MediaFault::UnsupportedFileType, _) => 400,
            ResponseError::OAuthError(OAuthFault::Other, _) => 403,
            ResponseError::PhiraError(PhiraError::Authentication) => 403,
            ResponseError::PhiraError(_) => 502,
            ResponseError::EngineError(EngineFault::MissingScript, _) => 412,
            ResponseError::EngineError(EngineFault::MissingFunction(_), _) => 412,
            ResponseError::EngineError(EngineFault::CompileError, _) => 412,
            ResponseError::EngineError(EngineFault::ScriptError, _) => 412,
            _ => 500,
        }
    }

    /// The body text that the error is answered with: the text of a plain error, else a
    /// summary of the failure.
    pub open spec fn spec_body(&self) -> Seq<char> {
        match self {
            ResponseError::DatabaseError(DbFault::RecordNotFound(s), _) => "record not found: "@ + s@,
            ResponseError::DatabaseError(DbFault::Json, _) => "data cruptted"@,
            ResponseError::DatabaseError(DbFault::Other, _) => "database internal error"@,
            ResponseError::CacheError(CacheFault::DomainNeeded, _) => "cache domain needed"@,
            ResponseError::CacheError(CacheFault::ConfigNeeded, _) => "missing cache"@,
            ResponseError::CacheError(CacheFault::Redis, _) => "cache server seems down"@,
            ResponseError::CacheError(CacheFault::Serde, _) => "cached data consistency is compromised"@,
            ResponseError::CacheError(CacheFault::Other, _) => "cache internal error"@,
            ResponseError::QueueError(QueueFault::Publish, _) => "message queue refused publishing"@,
            ResponseError::QueueError(QueueFault::Other, _) => "queue internal error"@,
            ResponseError::CaptchaError(_) => "failed to generate captcha"@,
            ResponseError::PasswordHashError(_) => "failed to hash password"@,
            ResponseError::SerializeError(_) => "failed to serialize data"@,
            ResponseError::MediaError(MediaFault::ParseContentType, _) => "failed to parse content type"@,
            ResponseError::MediaError(MediaFault::UnsupportedFileType, _) => "unsupported file type"@,
            ResponseError::MediaError(MediaFault::StoragePathNotConfigured, _) => "media storage path not configured"@,
            ResponseError::MediaError(MediaFault::Other, _) => "media internal error"@,
            ResponseError::FileIoError(_) => "file io error"@,
            ResponseError::OAuthError(OAuthFault::Network, _) => "missing OAuth config"@,
            ResponseError::OAuthError(OAuthFault::Other, _) => "failed to login with 3rd account"@,
            ResponseError::PhiraError(PhiraError::Authentication) => "phira email or password is wrong"@,
            ResponseError::PhiraError(PhiraError::Request(_)) => "phira service is unavailable"@,
            ResponseError::PhiraError(PhiraError::InvalidResponse) => "invalid response from Phira"@,
            ResponseError::EngineError(f, _) => engine_body(*f),
            ResponseError::StringDecodeError(_) => "failed to decode string"@,
            _ => self.detail(),
        }
    }

    /// The status code of the answer.
    pub fn status(&self) -> (code: u16)
        ensures
            code == self.spec_status(),
    {
        match self {
            ResponseError::InternalServerError(_) => 500,
            ResponseError::Unauthorized(_) => 401,
            ResponseError::BadRequest(_) => 400,
            ResponseError::Forbidden(_) => 403,
            ResponseError::NotFound(_) => 404,
            ResponseError::Gone(_) => 410,
            ResponseError::Conflict(_) => 409,
            ResponseError::PreconditionFailed(_) => 412,
            ResponseError::TooManyRequests(_) => 429,
            ResponseError::DatabaseError(DbFault::RecordNotFound(_), _) => 404,
            ResponseError::CacheError(CacheFault::DomainNeeded, _) => 400,
            ResponseError::MediaError(MediaFault::ParseContentType, _) => 400,
            ResponseError::MediaError(MediaFault::UnsupportedFileType, _) => 400,
            ResponseError::OAuthError(OAuthFault::Other, _) => 403,
            ResponseError::PhiraError(PhiraError::Authentication) => 403,
            ResponseError::PhiraError(_) => 502,
            ResponseError::EngineError(EngineFault::MissingScript, _) => 412,
            ResponseError::EngineError(EngineFault::MissingFunction(_), _) => 412,
            ResponseError::EngineError(EngineFault::CompileError, _) => 412,
            ResponseError::EngineError(EngineFault::ScriptError, _) => 412,
            _ => 500,
        }
    }

    /// The body of the answer.
    pub fn body(&self) -> (text: String)
        ensures
            text@ == self.spec_body(),
    {
        match self {
            ResponseError::InternalServerError(s) => s.clone(),
            ResponseError::Unauthorized(s) => s.clone(),
            ResponseError::BadRequest(s) => s.clone(),
            ResponseError::Forbidden(s) => s.clone(),
            ResponseError::NotFound(s) => s.clone(),
            ResponseError::Gone(s) => s.clone(),
            ResponseError::Conflict(s) => s.clone(),
            ResponseError::PreconditionFailed(s) => s.clone(),
            ResponseError::TooManyRequests(s) => s.clone(),
            ResponseError::DatabaseError(DbFault::RecordNotFound(s), _) => owned(
                "record not found: ",
            ).concat(s.as_str()),
            ResponseError::DatabaseError(DbFault::Json, _) => owned("data cruptted"),
            ResponseError::DatabaseError(DbFault::Other, _) => owned("database internal error"),
            ResponseError::CacheError(CacheFault::DomainNeeded, _) => owned("cache domain needed"),
            ResponseError::CacheError(CacheFault::ConfigNeeded, _) => owned("missing cache"),
            ResponseError::CacheError(CacheFault::Redis, _) => owned("cache server seems down"),
            ResponseError::CacheError(CacheFault::Serde, _) => owned(
                "cached data consistency is compromised",
            ),
            ResponseError::CacheError(CacheFault::Other, _) => owned("cache internal error"),
            ResponseError::QueueError(QueueFault::Publish, _) => owned(
                "message queue refused publishing",
            ),
            ResponseError::QueueError(QueueFault::Other, _) => owned("queue internal error"),
            ResponseError::CaptchaError(_) => owned("failed to generate captcha"),
            ResponseError::PasswordHashError(_) => owned("failed to hash password"),
            ResponseError::SerializeError(_) => owned("failed to serialize data"),
            ResponseError::MediaError(MediaFault::ParseContentType, _) => owned(
                "failed to parse content type",
            ),
            ResponseError::MediaError(MediaFault::UnsupportedFileType, _) => owned(
                "unsupported file type",
            ),
            ResponseError::MediaError(MediaFault::StoragePathNotConfigured, _) => owned(
                "media storage path not configured",
            ),
            ResponseError::MediaError(MediaFault::Other, _) => owned("media internal error"),
            ResponseError::FileIoError(_) => owned("file io error"),
            ResponseError::OAuthError(OAuthFault::Network, _) => owned("missing OAuth config"),
            ResponseError::OAuthError(OAuthFault::Other, _) => owned(
                "failed to login with 3rd account",
            ),
            ResponseError::PhiraError(PhiraError::Authentication) => owned(
                "phira email or password is wrong",
            ),
            ResponseError::PhiraError(PhiraError::Request(_)) => owned(
                "phira service is unavailable",
            ),
            ResponseError::PhiraError(PhiraError::InvalidResponse) => owned(
                "invalid response from Phira",
            ),
            ResponseError::EngineError(f, _) => f.body(),
            ResponseError::StringDecodeError(_) => owned("failed to decode string"),
        }
    }

    /// The one-line description of the error (its `Display` text).
    pub open spec fn spec_describe(&self) -> Seq<char> {
        match self {
            ResponseError::InternalServerError(s) => "internal server error: "@ + s@,
            ResponseError::Unauthorized(s) => "unauthorized: "@ + s@,
            ResponseError::BadRequest(s) => "bad request: "@ + s@,
            ResponseError::Forbidden(s) => "forbidden: "@ + s@,
            ResponseError::NotFound(s) => "not found: "@ + s@,
            ResponseError::Gone(s) => "resource is outdated: "@ + s@,
            ResponseError::Conflict(s) => "conflict: "@ + s@,
            ResponseError::PreconditionFailed(s) => "precondition failed: "@ + s@,
            ResponseError::TooManyRequests(s) => "too many requests: "@ + s@,
            ResponseError::DatabaseError(_, s) => "database error: "@ + s@,
            ResponseError::CacheError(_, s) => "cache error: "@ + s@,
            ResponseError::QueueError(_, s) => "queue error: "@ + s@,
            ResponseError::CaptchaError(s) => "captcha error: "@ + s@,
            ResponseError::PasswordHashError(s) => "password hashing error: "@ + s@,
            ResponseError::SerializeError(s) => "serialize error: "@ + s@,
            ResponseError::MediaError(_, s) => "media storage error: "@ + s@,
            ResponseError::FileIoError(s) => "file io error: "@ + s@,
            ResponseError::OAuthError(_, s) => "oauth error: "@ + s@,
            ResponseError::PhiraError(e) => "phira error: "@ + phira_describe(*e),
            ResponseError::EngineError(_, s) => "script engine error: "@ + s@,
            ResponseError::StringDecodeError(s) => "string decode error: "@ + s@,
        }
    }

    /// `to_string()` of the error.
    pub fn describe(&self) -> (text: String)
        ensures
            text@ == self.spec_describe(),
    {
        match self {
            ResponseError::InternalServerError(s) => owned("internal server error: ").concat(
                s.as_str(),
            ),
            ResponseError::Unauthorized(s) => owned("unauthorized: ").concat(s.as_str()),
            ResponseError::BadRequest(s) => owned("bad request: ").concat(s.as_str()),
            ResponseError::Forbidden(s) => owned("forbidden: ").concat(s.as_str()),
            ResponseError::NotFound(s) => owned("not found: ").concat(s.as_str()),
            ResponseError::Gone(s) => owned("resource is outdated: ").concat(s.as_str()),
            ResponseError::Conflict(s) => owned("conflict: ").concat(s.as_str()),
            ResponseError::PreconditionFailed(s) => owned("precondition failed: ").concat(
                s.as_str(),
            ),
            ResponseError::TooManyRequests(s) => owned("too many requests: ").concat(s.as_str()),
            ResponseError::DatabaseError(_, s) => owned("database error: ").concat(s.as_str()),
            ResponseError::CacheError(_, s) => owned("cache error: ").concat(s.as_str()),
            ResponseError::QueueError(_, s) => owned("queue error: ").concat(s.as_str()),
            ResponseError::CaptchaError(s) => owned("captcha error: ").concat(s.as_str()),
            ResponseError::PasswordHashError(s) => owned("password hashing error: ").concat(
                s.as_str(),
            ),
            ResponseError::SerializeError(s) => owned("serialize error: ").concat(s.as_str()),
            ResponseError::MediaError(_, s) => owned("media storage error: ").concat(s.as_str()),
            ResponseError::FileIoError(s) => owned("file io error: ").concat(s.as_str()),
            ResponseError::OAuthError(_, s) => owned("oauth error: ").concat(s.as_str()),
            ResponseError::PhiraError(e) => {
                let tail = e.describe();
                owned("phira error: ").concat(tail.as_str())
            },
            ResponseError::EngineError(_, s) => owned("script engine error: ").concat(s.as_str()),
            ResponseError::StringDecodeError(s) => owned("string decode error: ").concat(
                s.as_str(),
            ),
        }
    }
}

/// The body text of a script engine failure.
pub open spec fn engine_body(f: EngineFault) -> Seq<char> {
    match f {
        EngineFault::MissingScript => "missing scoring script"@,
        EngineFault::MissingFunction(d) => "missing script function: "@ + d@,
        EngineFault::CompileError => "failed to compile scoring script"@,
        EngineFault::AllocError => "failed to build scoring script engine"@,
        EngineFault::ExecError => "failed to execute scoring script"@,
        EngineFault::MissingResultField => "missing values in scoring script results"@,
        EngineFault::BuildError => "failed to build scoring script unit"@,
        EngineFault::SourceError => "failed to load scoring script source"@,
        EngineFault::RuneError => "error occurred in scoring script context; check server logs"@,
        EngineFault::RuneRuntimeError => "error occurred in scoring script engine; check server logs"@,
        EngineFault::ScriptError => "scoring script rejected the input"@,
        EngineFault::Other => "scoring script internal error"@,
    }
}

impl EngineFault {
    /// The body text of the failure.
    pub fn body(&self) -> (text: String)
        ensures
            text@ == engine_body(*self),
    {
        match self {
            EngineFault::MissingScript => owned("missing scoring script"),
            EngineFault::MissingFunction(d) => owned("missing script function: ").concat(d.as_str()),
            EngineFault::CompileError => owned("failed to compile scoring script"),
            EngineFault::AllocError => owned("failed to build scoring script engine"),
            EngineFault::ExecError => owned("failed to execute scoring script"),
            EngineFault::MissingResultField => owned("missing values in scoring script results"),
            EngineFault::BuildError => owned("failed to build scoring script unit"),
            EngineFault::SourceError => owned("failed to load scoring script source"),
            EngineFault::RuneError => owned(
                "error occurred in scoring script context; check server logs",
            ),
            EngineFault::RuneRuntimeError => owned(
                "error occurred in scoring script engine; check server logs",
            ),
            EngineFault::ScriptError => owned("scoring script rejected the input"),
            EngineFault::Other => owned("scoring script internal error"),
        }
    }
}

/// The `Display` text of a Phira error.
pub open spec fn phira_describe(e: PhiraError) -> Seq<char> {
    match e {
        PhiraError::Authentication => "phira authentication failed"@,
        PhiraError::Request(_) => "phira service request failed"@,
        PhiraError::InvalidResponse => "phira service returned an invalid response"@,
    }
}

impl PhiraError {
    /// `to_string()` of the error.
    pub fn describe(&self) -> (text: String)
        ensures
            text@ == phira_describe(*self),
    {
        match self {
            PhiraError::Authentication => owned("phira authentication failed"),
            PhiraError::Request(_) => owned("phira service request failed"),
            PhiraError::InvalidResponse => owned("phira service returned an invalid response"),
        }
    }
}

/// A bad-request error with text `msg`.
pub fn bad_request(msg: &str) -> (e: ResponseError)
    ensures
        e.is(ErrorKind::BadRequest, msg@),
{
    ResponseError::BadRequest(owned(msg))
}

/// A forbidden error with text `msg`.
pub fn forbidden(msg: &str) -> (e: ResponseError)
    ensures
        e.is(ErrorKind::Forbidden, msg@),
{
    ResponseError::Forbidden(owned(msg))
}

/// A conflict error with text `msg`.
pub fn conflict(msg: &str) -> (e: ResponseError)
    ensures
        e.is(ErrorKind::Conflict, msg@),
{
    ResponseError::Conflict(owned(msg))
}

/// A not-found error with text `msg`.
pub fn not_found(msg: &str) -> (e: ResponseError)
    ensures
        e.is(ErrorKind::NotFound, msg@),
{
    ResponseError::NotFound(owned(msg))
}

/// An unauthorized error with text `msg`.
pub fn unauthorized(msg: &str) -> (e: ResponseError)
    ensures
        e.is(ErrorKind::Unauthorized, msg@),
{
    ResponseError::Unauthorized(owned(msg))
}

/// The outcome `r` of a check is success when `expected` is `None`, and the error of the given
/// variant and text otherwise.
pub open spec fn outcome<T>(r: Result<T, ResponseError>, expected: Option<(ErrorKind, Seq<char>)>) -> bool {
    match expected {
        None => r is Ok,
        Some((k, m)) => r is Err && r->Err_0.is(k, m),
    }
}

} // verus!
