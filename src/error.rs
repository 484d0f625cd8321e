//! Errors of the web layer, and what a client is told of them.
use vstd::prelude::*;
use crate::ctx::CtxExtError;

verus! {

#[derive(Debug, Clone, PartialEq, Eq)]
pub enum Error {
    ConfigMissingEnv(String),
    LoginFail,
    LoginFailUsernameNotFound,
    LoginFailUserHasNotPwd { user_id: i64 },
    LoginFailPwdNotMatching { user_id: i64 },
    /// A new token could not be minted for the cookie.
    CannotSetTokenCookie,
    // -- Auth fail
    AuthFailNoAuthTokenCookie,
    AuthFailTokenWrongFormat,
    AuthFailCtxNotInRequestExt,
    CtxExt(CtxExtError),
    // -- Rpc
    RpcMethodUnknown(String),
    RpcIntoParamsMissing,
    RpcParamsMalformed(String),
    // -- Model errors
    TicketDeleteFaillIdNotFound { id: u64 },
}

/// What a client is told of an error.
#[allow(non_camel_case_types)]
#[derive(Debug, Clone, Copy, PartialEq, Eq, Structural)]
pub enum ClientError {
    LOGIN_FAIL,
    NO_AUTH,
    INVALID_PARAMS,
    SERVICE_ERROR,
}

/// The HTTP status and the client error that `e` maps to: failed logins and
/// failed authentication are forbidden, bad requests are invalid parameters,
/// and the rest (a failing store among them) is an internal error.
pub open spec fn client_status_spec(e: Error) -> (u16, ClientError) {
    match e {
        Error::LoginFail
        | Error::LoginFailUsernameNotFound
        | Error::LoginFailUserHasNotPwd { .. }
        | Error::LoginFailPwdNotMatching { .. } => (403, ClientError::LOGIN_FAIL),
        Error::AuthFailNoAuthTokenCookie
        | Error::AuthFailCtxNotInRequestExt
        | Error::AuthFailTokenWrongFormat => (403, ClientError::NO_AUTH),
        Error::CtxExt(CtxExtError::ModelAccessError(_)) => (500, ClientError::SERVICE_ERROR),
        Error::CtxExt(_) => (403, ClientError::NO_AUTH),
        Error::TicketDeleteFaillIdNotFound { .. }
        | Error::RpcMethodUnknown(_)
        | Error::RpcIntoParamsMissing
        | Error::RpcParamsMalformed(_) => (400, ClientError::INVALID_PARAMS),
        _ => (500, ClientError::SERVICE_ERROR),
    }
}

impl Error {
    /// The HTTP status and the client error that this error maps to.
    pub fn client_status_and_error(&self) -> (r: (u16, ClientError))
        ensures
            r == client_status_spec(*self),
    {
        match self {
            Error::LoginFail
            | Error::LoginFailUsernameNotFound
            | Error::LoginFailUserHasNotPwd { .. }
            | Error::LoginFailPwdNotMatching { .. } => (403, ClientError::LOGIN_FAIL),
            Error::AuthFailNoAuthTokenCookie
            | Error::AuthFailCtxNotInRequestExt
            | Error::AuthFailTokenWrongFormat => (403, ClientError::NO_AUTH),
            Error::CtxExt(CtxExtError::ModelAccessError(_)) => (500, ClientError::SERVICE_ERROR),
            Error::CtxExt(_) => (403, ClientError::NO_AUTH),
            Error::TicketDeleteFaillIdNotFound { .. }
            | Error::RpcMethodUnknown(_)
            | Error::RpcIntoParamsMissing
            | Error::RpcParamsMalformed(_) => (400, ClientError::INVALID_PARAMS),
            _ => (500, ClientError::SERVICE_ERROR),
        }
    }
}

} // verus!
