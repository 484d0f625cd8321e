//! The login decision: check a clear-text password against the stored hash
//! and mint the auth cookie value.
use vstd::prelude::*;
use vstd::utf8::*;
use vstd::string::*;
use crate::error::Error;
use crate::pwd::{validate_outcome, validate_pwd, ContentToHash};
use crate::time::UtcTime;
use crate::token::{generate_web_token, is_fresh_cookie};

verus! {

/// What login needs of a user record.
pub struct UserForLogin {
    pub id: i64,
    pub username: String,
    /// The stored `#<scheme>#<hash>`, if the user has a password.
    pub pwd: Option<String>,
    pub pwd_salt: [u8; 16],
    pub token_salt: [u8; 16],
}

/// Logs in `user` (the lookup's result for the submitted user name) with the
/// clear-text password `pwd_clear`; on success returns the auth cookie value,
/// valid `duration_secs` seconds from `now`.
pub fn login(
    user: Option<UserForLogin>,
    pwd_clear: &str,
    pwd_key: &[u8],
    token_key: &[u8],
    now: &UtcTime,
    duration_secs: u64,
) -> (r: Result<String, Error>)
    requires
        now.wf(),
    ensures
        match user {
            None => r matches Err(Error::LoginFailUsernameNotFound),
            Some(u) => match u.pwd {
                None => r matches Err(Error::LoginFailUserHasNotPwd { user_id }) && user_id == u.id,
                Some(p) => if !(validate_outcome(pwd_key@, pwd_clear@, u.pwd_salt@, p@) is Valid) {
                    r matches Err(Error::LoginFailPwdNotMatching { user_id }) && user_id == u.id
                } else if now.spec_unix_secs() + duration_secs > crate::time::MAX_UNIX_SECS {
                    r matches Err(Error::CannotSetTokenCookie)
                } else {
                    r matches Ok(cookie) && is_fresh_cookie(
                        cookie@,
                        u.username@,
                        token_key@,
                        u.token_salt@,
                        *now,
                        duration_secs as int,
                    )
                },
            },
        },
{
    let user = match user {
        None => return Err(Error::LoginFailUsernameNotFound),
        Some(u) => u,
    };
    let user_id = user.id;
    let pwd = match user.pwd {
        None => return Err(Error::LoginFailUserHasNotPwd { user_id }),
        Some(p) => p,
    };
    let to_hash = ContentToHash { content: String::from_str(pwd_clear), salt: user.pwd_salt };
    if validate_pwd(pwd_key, &to_hash, pwd.as_str()).is_err() {
        return Err(Error::LoginFailPwdNotMatching { user_id });
    }
    match generate_web_token(user.username.as_str(), &user.token_salt, token_key, now, duration_secs) {
        Some(t) => Ok(t.to_string()),
        None => Err(Error::CannotSetTokenCookie),
    }
}

} // verus!
