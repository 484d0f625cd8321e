//! The request identity, and the steps that resolve it from the auth cookie.
//!
//! Resolution runs in two verified steps around the user lookup that the
//! caller performs: `token_from_cookie` reads the cookie, the caller looks up
//! the user named by the token (as the root identity), and `ctx_resolve_user`
//! validates the token and mints the refreshed cookie value.
use vstd::prelude::*;
use vstd::utf8::*;
use crate::error::Error;
use crate::time::UtcTime;
use crate::crypt::Error as CryptError;
use crate::encoding::{encoded_text, is_b64u_text};
use crate::token::{
    generate_web_token, is_fresh_cookie, lemma_tamper_detection, lemma_token_round_trip,
    parse_spec, token_sign, token_text, validate_spec, validate_web_token, Token,
};

verus! {

/// The name of the cookie that carries the token.
pub const AUTH_TOKEN: &'static str = "auth-token";

/// The authenticated principal of one request.
#[derive(Debug, Clone, Copy, PartialEq, Eq, Structural)]
pub struct Ctx {
    user_id: i64,
}

#[derive(Debug, Clone, Copy, PartialEq, Eq, Structural)]
pub enum CtxError {
    CtxCannotNewRootCtx,
}

impl Ctx {
    pub closed spec fn spec_user_id(self) -> i64 {
        self.user_id
    }

    /// The identity of the system itself, for work done before any user is known.
    pub fn root_ctx() -> (r: Ctx)
        ensures
            r.spec_user_id() == 0,
    {
        Ctx { user_id: 0 }
    }

    /// The identity of user `user_id`; the root id 0 is refused.
    pub fn new(user_id: i64) -> (r: Result<Ctx, CtxError>)
        ensures
            user_id == 0 ==> r == Err::<Ctx, CtxError>(CtxError::CtxCannotNewRootCtx),
            user_id != 0 ==> (r matches Ok(c) && c.spec_user_id() == user_id),
    {
        if user_id == 0 {
            Err(CtxError::CtxCannotNewRootCtx)
        } else {
            Ok(Ctx { user_id })
        }
    }

    pub fn user_id(&self) -> (r: i64)
        ensures
            r == self.spec_user_id(),
    {
        self.user_id
    }
}

/// The identity that a request carries once resolved.
#[derive(Debug, Clone, Copy, PartialEq, Eq, Structural)]
pub struct CtxW(pub Ctx);

#[derive(Debug, Clone, PartialEq, Eq)]
pub enum CtxExtError {
    TokenNotInCookie,
    TokenWrongFormat,
    CtxNotInRequestExt,
    UserNotFound,
    ModelAccessError(String),
    FailValidate,
    CannotSetTokenCookie,
    CtxCreateFail(String),
}

/// What authentication needs of a user record.
pub struct UserForAuth {
    pub id: i64,
    pub username: String,
    pub token_salt: [u8; 16],
}

/// How resolution ends once the user named by the token has been found.
#[derive(Debug, Clone, Copy, PartialEq, Eq, Structural)]
pub enum Resolve {
    FailValidate,
    CannotSetTokenCookie,
    CtxCreateFail,
    Resolved,
}

/// How resolution ends for a token with these parts, at `now`, when the user
/// found has id `id` and token salt `salt`; the refreshed token would last
/// `duration` seconds.
pub open spec fn resolve_spec(
    key: Seq<u8>,
    now: UtcTime,
    duration: int,
    ident: Seq<char>,
    exp: UtcTime,
    sign: Seq<char>,
    id: i64,
    salt: Seq<u8>,
) -> Resolve {
    if validate_spec(key, salt, now, ident, exp, sign) is Err {
        Resolve::FailValidate
    } else if now.spec_unix_secs() + duration > crate::time::MAX_UNIX_SECS {
        Resolve::CannotSetTokenCookie
    } else if id == 0 {
        Resolve::CtxCreateFail
    } else {
        Resolve::Resolved
    }
}

/// Reads the token from the auth cookie's value, if there is one.
pub fn token_from_cookie(cookie: Option<&str>) -> (r: Result<Token, CtxExtError>)
    ensures
        match cookie {
            None => r matches Err(CtxExtError::TokenNotInCookie),
            Some(c) => match parse_spec(encode_utf8(c@)) {
                Ok((ident, exp, sign)) => r matches Ok(t) && t.ident@ == ident && t.exp == exp
                    && t.sign_b64u@ == sign && t.exp.wf(),
                Err(_) => r matches Err(CtxExtError::TokenWrongFormat),
            },
        },
{
    match cookie {
        None => Err(CtxExtError::TokenNotInCookie),
        Some(c) => match Token::parse(c) {
            Ok(t) => Ok(t),
            Err(_) => Err(CtxExtError::TokenWrongFormat),
        },
    }
}

/// Finishes resolution once the user named by `token` has been looked up:
/// `user` is the lookup's outcome (`Err` with the store's message when the
/// lookup itself failed). On success, returns the identity and the refreshed
/// cookie value, valid `duration_secs` seconds from `now`.
pub fn ctx_resolve_user(
    token: &Token,
    user: Result<Option<UserForAuth>, String>,
    key: &[u8],
    now: &UtcTime,
    duration_secs: u64,
) -> (r: Result<(CtxW, String), CtxExtError>)
    requires
        token.exp.wf(),
        now.wf(),
    ensures
        match user {
            Err(m) => r matches Err(CtxExtError::ModelAccessError(m2)) && m2@ == m@,
            Ok(None) => r matches Err(CtxExtError::UserNotFound),
            Ok(Some(u)) => match resolve_spec(
                key@,
                *now,
                duration_secs as int,
                token.ident@,
                token.exp,
                token.sign_b64u@,
                u.id,
                u.token_salt@,
            ) {
                Resolve::FailValidate => r matches Err(CtxExtError::FailValidate),
                Resolve::CannotSetTokenCookie => r matches Err(CtxExtError::CannotSetTokenCookie),
                Resolve::CtxCreateFail => r matches Err(CtxExtError::CtxCreateFail(_)),
                Resolve::Resolved => r matches Ok((ctx, cookie)) && ctx.0.spec_user_id() == u.id
                    && is_fresh_cookie(cookie@, u.username@, key@, u.token_salt@, *now, duration_secs as int),
            },
        },
{
    let user = match user {
        Err(m) => return Err(CtxExtError::ModelAccessError(m)),
        Ok(None) => return Err(CtxExtError::UserNotFound),
        Ok(Some(u)) => u,
    };
    if validate_web_token(token, &user.token_salt, key, now).is_err() {
        return Err(CtxExtError::FailValidate);
    }
    let fresh = match generate_web_token(user.username.as_str(), &user.token_salt, key, now, duration_secs) {
        Some(t) => t,
        None => return Err(CtxExtError::CannotSetTokenCookie),
    };
    let cookie = fresh.to_string();
    match Ctx::new(user.id) {
        Ok(ctx) => Ok((CtxW(ctx), cookie)),
        Err(_) => Err(CtxExtError::CtxCreateFail(String::from_str("CtxCannotNewRootCtx"))),
    }
}

/// Whether a resolution outcome clears the auth cookie: every failure does,
/// except a missing cookie.
pub fn should_remove_cookie(outcome: &Result<CtxW, CtxExtError>) -> (r: bool)
    ensures
        r == (outcome is Err && !(outcome matches Err(CtxExtError::TokenNotInCookie))),
{
    match outcome {
        Ok(_) => false,
        Err(CtxExtError::TokenNotInCookie) => false,
        Err(_) => true,
    }
}

/// The identity for a stage that requires one, from the outcome attached to
/// the request (`None` when resolution never ran).
pub fn ctx_require(outcome: Option<Result<CtxW, CtxExtError>>) -> (r: Result<CtxW, Error>)
    ensures
        match outcome {
            None => r matches Err(Error::CtxExt(CtxExtError::CtxNotInRequestExt)),
            Some(Ok(c)) => r matches Ok(c2) && c2 == c,
            Some(Err(e)) => r matches Err(Error::CtxExt(e2)) && e2 == e,
        },
{
    match outcome {
        None => Err(Error::CtxExt(CtxExtError::CtxNotInRequestExt)),
        Some(Ok(c)) => Ok(c),
        Some(Err(e)) => Err(Error::CtxExt(e)),
    }
}

/// A cookie holding a token minted for `ident` (its parts encoded as
/// `Token::to_string` reports) reads back as that identifier and expiration,
/// and resolves to the user at any time up to the expiration, when the user's
/// id is not the root id and the refreshed token can be written.
pub proof fn lemma_resolve_round_trip(
    ident: Seq<char>,
    exp: UtcTime,
    key: Seq<u8>,
    salt: Seq<u8>,
    now: UtcTime,
    duration: int,
    id: i64,
)
    requires
        exp.wf(),
        encoded_text(encode_utf8(ident)),
        encoded_text(exp.iso_bytes()),
        is_b64u_text(token_sign(key, ident, exp, salt)),
        !exp.spec_is_before(now),
        now.spec_unix_secs() + duration <= crate::time::MAX_UNIX_SECS,
        id != 0,
    ensures
        parse_spec(encode_utf8(token_text(ident, exp, token_sign(key, ident, exp, salt)))) == Ok::<
            (Seq<char>, UtcTime, Seq<char>),
            CryptError,
        >((ident, exp, token_sign(key, ident, exp, salt))),
        resolve_spec(key, now, duration, ident, exp, token_sign(key, ident, exp, salt), id, salt)
            == Resolve::Resolved,
{
    lemma_token_round_trip(ident, exp, key, salt, now);
}

/// A token minted at `minted` to last `lifetime` seconds resolves at every
/// time from its minting to its expiration.
pub proof fn lemma_resolve_fresh(
    ident: Seq<char>,
    exp: UtcTime,
    key: Seq<u8>,
    salt: Seq<u8>,
    minted: UtcTime,
    lifetime: nat,
    now: UtcTime,
    duration: int,
    id: i64,
)
    requires
        exp.wf(),
        exp.spec_unix_secs() == minted.spec_unix_secs() + lifetime,
        minted.spec_unix_secs() <= now.spec_unix_secs() <= exp.spec_unix_secs(),
        encoded_text(encode_utf8(ident)),
        encoded_text(exp.iso_bytes()),
        is_b64u_text(token_sign(key, ident, exp, salt)),
        now.spec_unix_secs() + duration <= crate::time::MAX_UNIX_SECS,
        id != 0,
    ensures
        resolve_spec(key, now, duration, ident, exp, token_sign(key, ident, exp, salt), id, salt)
            == Resolve::Resolved,
{
    lemma_resolve_round_trip(ident, exp, key, salt, now, duration, id);
}

/// A cookie whose signature part has one byte changed never resolves: either
/// it no longer reads as a token (so `token_from_cookie` reports
/// `TokenWrongFormat`), or resolution fails validation.
pub proof fn lemma_resolve_tamper(
    ident: Seq<char>,
    exp: UtcTime,
    key: Seq<u8>,
    salt: Seq<u8>,
    now: UtcTime,
    duration: int,
    id: i64,
    p: int,
    x: u8,
)
    requires
        exp.wf(),
        encoded_text(encode_utf8(ident)),
        encoded_text(exp.iso_bytes()),
        is_b64u_text(token_sign(key, ident, exp, salt)),
        ({
            let b = encode_utf8(token_text(ident, exp, token_sign(key, ident, exp, salt)));
            &&& b.len() - encode_utf8(token_sign(key, ident, exp, salt)).len() <= p < b.len()
            &&& x != b[p]
        }),
    ensures
        ({
            let b = encode_utf8(token_text(ident, exp, token_sign(key, ident, exp, salt)));
            parse_spec(b.update(p, x)) matches Ok((i, e, g)) ==> resolve_spec(
                key,
                now,
                duration,
                i,
                e,
                g,
                id,
                salt,
            ) == Resolve::FailValidate
        }),
{
    lemma_tamper_detection(ident, exp, key, salt, now, p, x);
}

/// Each successful resolution refreshes the cookie with a later expiration:
/// a token that was minted at `minted` to last `duration` seconds is replaced,
/// at a later `now`, by one expiring `duration` seconds after `now`.
pub proof fn lemma_sliding_refresh(
    cookie: Seq<char>,
    user: Seq<char>,
    key: Seq<u8>,
    salt: Seq<u8>,
    old_exp: UtcTime,
    minted: UtcTime,
    now: UtcTime,
    duration: int,
)
    requires
        old_exp.spec_unix_secs() == minted.spec_unix_secs() + duration,
        minted.spec_unix_secs() < now.spec_unix_secs(),
        is_fresh_cookie(cookie, user, key, salt, now, duration),
    ensures
        exists|exp: UtcTime|
            {
                &&& exp.wf()
                &&& old_exp.spec_is_before(exp)
                &&& #[trigger] token_text(user, exp, token_sign(key, user, exp, salt)) == cookie
            },
{
    let exp = choose|exp: UtcTime|
        {
            &&& exp.wf()
            &&& exp.spec_unix_secs() == now.spec_unix_secs() + duration
            &&& #[trigger] token_text(user, exp, token_sign(key, user, exp, salt)) == cookie
        };
    assert(old_exp.spec_is_before(exp));
}

/// The cookie that login or a resolution sets reads back as the user's token,
/// and resolves to the user at any later time up to its expiration (when the
/// user's id is not the root id and the next refresh can be written).
pub proof fn lemma_fresh_cookie_resolves(
    cookie: Seq<char>,
    user: Seq<char>,
    key: Seq<u8>,
    salt: Seq<u8>,
    issued: UtcTime,
    duration: nat,
    now: UtcTime,
    next_duration: int,
    id: i64,
)
    requires
        is_fresh_cookie(cookie, user, key, salt, issued, duration as int),
        issued.spec_unix_secs() <= now.spec_unix_secs() <= issued.spec_unix_secs() + duration,
        now.spec_unix_secs() + next_duration <= crate::time::MAX_UNIX_SECS,
        id != 0,
    ensures
        exists|exp: UtcTime|
            {
                &&& #[trigger] parse_spec(encode_utf8(cookie)) == Ok::<
                    (Seq<char>, UtcTime, Seq<char>),
                    CryptError,
                >((user, exp, token_sign(key, user, exp, salt)))
                &&& resolve_spec(key, now, next_duration, user, exp, token_sign(key, user, exp, salt), id, salt)
                    == Resolve::Resolved
            },
{
    let exp = choose|exp: UtcTime|
        {
            &&& exp.wf()
            &&& exp.spec_unix_secs() == issued.spec_unix_secs() + duration
            &&& #[trigger] token_text(user, exp, token_sign(key, user, exp, salt)) == cookie
            &&& encoded_text(encode_utf8(user))
            &&& encoded_text(exp.iso_bytes())
            &&& is_b64u_text(token_sign(key, user, exp, salt))
        };
    lemma_resolve_round_trip(user, exp, key, salt, now, next_duration, id);
}

} // verus!
