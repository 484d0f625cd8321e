//! Errors of the signing primitives, and the fixed scheme-"01" password form.
use vstd::prelude::*;
use vstd::utf8::*;
use vstd::string::*;
use crate::encoding::{b64u_encode, b64u_of, bytes_eq};
use crate::scheme::{hmac_sha512, hmac_sha512_of};

verus! {

#[derive(Debug, Clone, Copy, PartialEq, Eq, Structural)]
pub enum Error {
    // -- Key
    KeyFailHmac,
    // -- Pwd
    PwdNotMatching,
    // -- Token
    TokenInvalidFormat,
    TokenCannotDecodeIdent,
    TokenCannotDecodeExp,
    TokenSignatureNotMatching,
    /// The expiration is not of the form `YYYY-MM-DDTHH:MM:SSZ`.
    TokenExpNotIso,
    TokenExpired,
}

/// A clear-text content and the salt it is hashed with, both as text.
pub struct EncryptContent {
    pub content: String,
    pub salt: String,
}

/// `#01#` followed by the base64 text of the HMAC-SHA-512 of the content
/// followed by the salt.
pub open spec fn encrypted_text(key: Seq<u8>, content: Seq<char>, salt: Seq<char>) -> Seq<char> {
    seq!['#', '0', '1', '#'] + b64u_of(hmac_sha512_of(key, encode_utf8(content) + encode_utf8(salt)))
}

/// Hashes the content under scheme "01", in the form `#01#<hash>`.
pub fn encrypt_pwd(key: &[u8], enc_content: &EncryptContent) -> (r: Result<String, Error>)
    ensures
        r matches Ok(t) && t@ == encrypted_text(key@, enc_content.content@, enc_content.salt@),
{
    let mac = hmac_sha512(key, enc_content.content.as_str().as_bytes(), enc_content.salt.as_str().as_bytes());
    let text = b64u_encode(mac.as_slice());
    let mut out = String::from_str("#01#");
    out.append(text.as_str());
    proof {
        reveal_strlit("#01#");
        assert(out@ =~= encrypted_text(key@, enc_content.content@, enc_content.salt@));
    }
    Ok(out)
}

/// Whether the content hashes, under scheme "01", to `pwd_ref`.
pub fn validate_pwd(key: &[u8], enc_content: &EncryptContent, pwd_ref: &str) -> (r: Result<(), Error>)
    ensures
        r is Ok <==> pwd_ref@ == encrypted_text(key@, enc_content.content@, enc_content.salt@),
        r matches Err(e) ==> e == Error::PwdNotMatching,
{
    let pwd = match encrypt_pwd(key, enc_content) {
        Ok(p) => p,
        Err(e) => return Err(e),
    };
    let same = bytes_eq(pwd.as_str().as_bytes(), pwd_ref.as_bytes());
    proof {
        encode_utf8_decode_utf8(pwd@);
        encode_utf8_decode_utf8(pwd_ref@);
    }
    if same {
        Ok(())
    } else {
        Err(Error::PwdNotMatching)
    }
}

} // verus!
