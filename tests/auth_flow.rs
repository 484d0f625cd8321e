use web_core::ctx::{
    ctx_require, ctx_resolve_user, should_remove_cookie, token_from_cookie, Ctx, CtxError, CtxExtError,
    CtxW, UserForAuth,
};
use web_core::error::{ClientError, Error};
use web_core::login::{login, UserForLogin};
use web_core::pwd::{hash_pwd, ContentToHash};
use web_core::time::UtcTime;
use web_core::token::{generate_token, Token};

const PWD_KEY: &[u8] = b"pwd-key";
const TOKEN_KEY: &[u8] = b"token-key";
const PWD_SALT: [u8; 16] = [3; 16];
const TOKEN_SALT: [u8; 16] = [7; 16];

fn t(year: u16, month: u8, day: u8, hour: u8, minute: u8, second: u8) -> UtcTime {
    UtcTime { year, month, day, hour, minute, second }
}

fn demo_user() -> UserForLogin {
    let stored = hash_pwd(
        PWD_KEY,
        &ContentToHash { content: "welcome".to_string(), salt: PWD_SALT },
    )
    .unwrap();
    UserForLogin {
        id: 1000,
        username: "demo1".to_string(),
        pwd: Some(stored),
        pwd_salt: PWD_SALT,
        token_salt: TOKEN_SALT,
    }
}

fn demo_auth() -> UserForAuth {
    UserForAuth { id: 1000, username: "demo1".to_string(), token_salt: TOKEN_SALT }
}

#[test]
fn login_then_resolve_refreshes_cookie() {
    let login_time = t(2024, 3, 10, 8, 0, 0);
    let cookie = login(Some(demo_user()), "welcome", PWD_KEY, TOKEN_KEY, &login_time, 1800).unwrap();

    let token = token_from_cookie(Some(cookie.as_str())).unwrap();
    assert_eq!(token.ident, "demo1");
    assert_eq!(token.exp, t(2024, 3, 10, 8, 30, 0));

    let later = t(2024, 3, 10, 8, 10, 0);
    let (ctx, refreshed) =
        ctx_resolve_user(&token, Ok(Some(demo_auth())), TOKEN_KEY, &later, 1800).unwrap();
    assert_eq!(ctx.0.user_id(), 1000);
    let refreshed_token = Token::parse(&refreshed).unwrap();
    assert_eq!(refreshed_token.ident, "demo1");
    assert_eq!(refreshed_token.exp, t(2024, 3, 10, 8, 40, 0));
    assert!(token.exp.is_before(&refreshed_token.exp));
}

#[test]
fn request_without_cookie_is_rejected() {
    let outcome = token_from_cookie(None).map(|_| CtxW(Ctx::root_ctx()));
    assert!(matches!(outcome, Err(CtxExtError::TokenNotInCookie)));
    assert!(!should_remove_cookie(&outcome));
    let required = ctx_require(Some(outcome));
    assert!(matches!(required, Err(Error::CtxExt(CtxExtError::TokenNotInCookie))));
}

#[test]
fn login_failures() {
    let now = t(2024, 3, 10, 8, 0, 0);
    assert_eq!(
        login(None, "welcome", PWD_KEY, TOKEN_KEY, &now, 1800),
        Err(Error::LoginFailUsernameNotFound)
    );
    assert_eq!(
        login(Some(demo_user()), "wrong", PWD_KEY, TOKEN_KEY, &now, 1800),
        Err(Error::LoginFailPwdNotMatching { user_id: 1000 })
    );
    let mut no_pwd = demo_user();
    no_pwd.pwd = None;
    assert_eq!(
        login(Some(no_pwd), "welcome", PWD_KEY, TOKEN_KEY, &now, 1800),
        Err(Error::LoginFailUserHasNotPwd { user_id: 1000 })
    );
}

#[test]
fn resolve_failures() {
    let now = t(2024, 3, 10, 8, 0, 0);
    let token = generate_token("demo1", t(2024, 3, 10, 8, 30, 0), &TOKEN_SALT, TOKEN_KEY);
    assert_eq!(
        ctx_resolve_user(&token, Err("db down".to_string()), TOKEN_KEY, &now, 1800),
        Err(CtxExtError::ModelAccessError("db down".to_string()))
    );
    assert_eq!(ctx_resolve_user(&token, Ok(None), TOKEN_KEY, &now, 1800), Err(CtxExtError::UserNotFound));
    let other_salt = UserForAuth { id: 1000, username: "demo1".to_string(), token_salt: [9; 16] };
    assert_eq!(
        ctx_resolve_user(&token, Ok(Some(other_salt)), TOKEN_KEY, &now, 1800),
        Err(CtxExtError::FailValidate)
    );
    let expired_at = t(2024, 3, 10, 9, 0, 0);
    assert_eq!(
        ctx_resolve_user(&token, Ok(Some(demo_auth())), TOKEN_KEY, &expired_at, 1800),
        Err(CtxExtError::FailValidate)
    );
    let root = UserForAuth { id: 0, username: "demo1".to_string(), token_salt: TOKEN_SALT };
    assert!(matches!(
        ctx_resolve_user(&token, Ok(Some(root)), TOKEN_KEY, &now, 1800),
        Err(CtxExtError::CtxCreateFail(_))
    ));
    let late_token = generate_token("demo1", t(9999, 12, 31, 23, 59, 0), &TOKEN_SALT, TOKEN_KEY);
    assert_eq!(
        ctx_resolve_user(&late_token, Ok(Some(demo_auth())), TOKEN_KEY, &t(9999, 12, 31, 23, 0, 0), 7200),
        Err(CtxExtError::CannotSetTokenCookie)
    );
}

#[test]
fn bad_cookie_is_wrong_format_and_cleared() {
    let outcome = token_from_cookie(Some("garbage")).map(|_| CtxW(Ctx::root_ctx()));
    assert!(matches!(outcome, Err(CtxExtError::TokenWrongFormat)));
    assert!(should_remove_cookie(&outcome));
    assert!(!should_remove_cookie(&Ok(CtxW(Ctx::root_ctx()))));
    assert!(should_remove_cookie(&Err(CtxExtError::FailValidate)));
}

#[test]
fn ctx_require_outcomes() {
    assert!(matches!(ctx_require(None), Err(Error::CtxExt(CtxExtError::CtxNotInRequestExt))));
    let ctx = CtxW(Ctx::new(7).unwrap());
    assert_eq!(ctx_require(Some(Ok(ctx))), Ok(ctx));
    assert_eq!(Ctx::new(0), Err(CtxError::CtxCannotNewRootCtx));
    assert_eq!(Ctx::root_ctx().user_id(), 0);
}

#[test]
fn client_status_mapping() {
    assert_eq!(Error::LoginFail.client_status_and_error(), (403, ClientError::LOGIN_FAIL));
    assert_eq!(
        Error::LoginFailPwdNotMatching { user_id: 1 }.client_status_and_error(),
        (403, ClientError::LOGIN_FAIL)
    );
    assert_eq!(Error::AuthFailNoAuthTokenCookie.client_status_and_error(), (403, ClientError::NO_AUTH));
    assert_eq!(
        Error::CtxExt(CtxExtError::FailValidate).client_status_and_error(),
        (403, ClientError::NO_AUTH)
    );
    assert_eq!(
        Error::CtxExt(CtxExtError::ModelAccessError("x".to_string())).client_status_and_error(),
        (500, ClientError::SERVICE_ERROR)
    );
    assert_eq!(
        Error::TicketDeleteFaillIdNotFound { id: 3 }.client_status_and_error(),
        (400, ClientError::INVALID_PARAMS)
    );
    assert_eq!(
        Error::RpcMethodUnknown("m".to_string()).client_status_and_error(),
        (400, ClientError::INVALID_PARAMS)
    );
    assert_eq!(Error::RpcIntoParamsMissing.client_status_and_error(), (400, ClientError::INVALID_PARAMS));
    assert_eq!(
        Error::ConfigMissingEnv("KEY".to_string()).client_status_and_error(),
        (500, ClientError::SERVICE_ERROR)
    );
}

#[test]
fn tampered_cookie_never_resolves() {
    let now = t(2024, 3, 10, 8, 0, 0);
    let cookie = login(Some(demo_user()), "welcome", PWD_KEY, TOKEN_KEY, &now, 1800).unwrap();
    let sign_start = cookie.rfind('.').unwrap() + 1;
    let mut bytes = cookie.into_bytes();
    bytes[sign_start] = if bytes[sign_start] == b'A' { b'B' } else { b'A' };
    let tampered = String::from_utf8(bytes).unwrap();
    let token = token_from_cookie(Some(tampered.as_str())).unwrap();
    assert_eq!(
        ctx_resolve_user(&token, Ok(Some(demo_auth())), TOKEN_KEY, &now, 1800),
        Err(CtxExtError::FailValidate)
    );
}
