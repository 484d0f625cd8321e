//! The registry of versioned password hashing schemes.
use argon2::{Algorithm, Argon2, Params, Version};
use hmac::{Hmac, Mac};
use sha2::Sha512;
use vstd::prelude::*;
use vstd::utf8::*;
use vstd::string::*;
use crate::encoding::{ascii_bytes, b64u_encode, b64u_of, bytes_eq, lemma_b64u_ascii};

verus! {

/// The HMAC-SHA-512 tag of `msg` under `key`.
pub uninterp spec fn hmac_sha512_of(key: Seq<u8>, msg: Seq<u8>) -> Seq<u8>;

/// The 32-byte Argon2id hash of `pwd` with `salt`, keyed by the secret `key`.
pub uninterp spec fn argon2id_of(key: Seq<u8>, pwd: Seq<u8>, salt: Seq<u8>) -> Seq<u8>;

/// Relies on hmac's `Hmac<Sha512>`: `new_from_slice` takes a key of any length,
/// the two `update` calls feed `content` then `salt`, and `finalize` gives the
/// 64-byte tag.
#[verifier::external_body]
pub(crate) fn hmac_sha512(key: &[u8], content: &[u8], salt: &[u8]) -> (r: Vec<u8>)
    ensures
        r@ == hmac_sha512_of(key@, content@ + salt@),
        r@.len() == 64,
{
    let mut mac = match Hmac::<Sha512>::new_from_slice(key) {
        Ok(mac) => mac,
        Err(_) => return Vec::new(),
    };
    mac.update(content);
    mac.update(salt);
    mac.finalize().into_bytes().to_vec()
}

/// Relies on argon2's `Argon2::new_with_secret` (Argon2id, version 0x13,
/// default parameters) and `hash_password_into` with a 32-byte output: they
/// fail only when the secret or the password is longer than 0xFFFF_FFFF bytes
/// (a 16-byte salt is within bounds).
#[verifier::external_body]
fn argon2id_hash(key: &[u8], pwd: &[u8], salt: &[u8]) -> (r: Option<Vec<u8>>)
    requires
        salt@.len() == 16,
    ensures
        r is Some <==> (key@.len() <= 0xFFFF_FFFF && pwd@.len() <= 0xFFFF_FFFF),
        r matches Some(v) ==> v@ == argon2id_of(key@, pwd@, salt@),
{
    let argon = Argon2::new_with_secret(key, Algorithm::Argon2id, Version::V0x13, Params::default())
        .ok()?;
    let mut out = vec![0u8; 32];
    argon.hash_password_into(pwd, salt, &mut out).ok()?;
    Some(out)
}

#[derive(Debug)]
pub enum Error {
    /// The key cannot drive the hash primitive.
    Key,
    /// The content does not hash to the stored reference.
    PwdValidate,
    SchemeNotFound(String),
}

/// What validating a password reference tells the caller.
#[derive(Debug, Clone, Copy, PartialEq, Eq, Structural)]
pub enum SchemeStatus {
    /// The reference uses the default scheme.
    Current,
    /// The reference uses an older scheme and should be hashed again.
    Outdated,
}

/// Scheme "01": HMAC-SHA-512 over the content followed by the salt.
#[derive(Debug, Clone, Copy, PartialEq, Eq, Structural)]
pub struct Scheme01;

/// Scheme "02": Argon2id of the content with the salt, keyed by the secret key.
#[derive(Debug, Clone, Copy, PartialEq, Eq, Structural)]
pub struct Scheme02;

/// One registered scheme.
#[derive(Debug, Clone, Copy, PartialEq, Eq, Structural)]
pub enum SchemeDispatcher {
    Scheme01(Scheme01),
    Scheme02(Scheme02),
}

/// The tag of scheme "01".
pub open spec fn tag_01() -> Seq<u8> {
    seq![48u8, 49u8]
}

/// The tag of scheme "02".
pub open spec fn tag_02() -> Seq<u8> {
    seq![48u8, 50u8]
}

/// The tag of the scheme that new hashes use.
pub open spec fn default_tag() -> Seq<u8> {
    tag_02()
}

/// The scheme registered under the tag with these bytes.
pub open spec fn scheme_of_tag(tag: Seq<u8>) -> Option<SchemeDispatcher> {
    if tag == tag_01() {
        Some(SchemeDispatcher::Scheme01(Scheme01))
    } else if tag == tag_02() {
        Some(SchemeDispatcher::Scheme02(Scheme02))
    } else {
        None
    }
}

/// The bytes that both validation and hashing feed to a scheme for `content`.
pub open spec fn content_bytes(content: Seq<char>) -> Seq<u8> {
    encode_utf8(content)
}

/// What scheme `s` hashes to, or `None` where the key cannot drive it.
pub open spec fn spec_hash(s: SchemeDispatcher, key: Seq<u8>, content: Seq<u8>, salt: Seq<u8>) -> Option<Seq<u8>> {
    match s {
        SchemeDispatcher::Scheme01(_) => Some(hmac_sha512_of(key, content + salt)),
        SchemeDispatcher::Scheme02(_) => {
            if key.len() <= 0xFFFF_FFFF && content.len() <= 0xFFFF_FFFF {
                Some(argon2id_of(key, content, salt))
            } else {
                None
            }
        },
    }
}

/// The text that a scheme's raw hash is stored as.
pub open spec fn hash_text(h: Seq<u8>) -> Seq<u8> {
    ascii_bytes(b64u_of(h))
}

impl Scheme01 {
    /// The HMAC-SHA-512 of the content followed by the salt, keyed by `key`.
    pub fn hash(&self, key: &[u8], content: &str, salt: &[u8; 16]) -> (r: Result<Vec<u8>, Error>)
        ensures
            r matches Ok(v) && Some(v@) == spec_hash(
                SchemeDispatcher::Scheme01(*self),
                key@,
                content_bytes(content@),
                salt@,
            ),
    {
        Ok(hmac_sha512(key, content.as_bytes(), salt.as_slice()))
    }
}

impl Scheme02 {
    /// The Argon2id hash of the content with the salt, keyed by `key`.
    pub fn hash(&self, key: &[u8], content: &str, salt: &[u8; 16]) -> (r: Result<Vec<u8>, Error>)
        ensures
            match r {
                Ok(v) => Some(v@) == spec_hash(
                    SchemeDispatcher::Scheme02(*self),
                    key@,
                    content_bytes(content@),
                    salt@,
                ),
                Err(e) => e is Key && spec_hash(
                    SchemeDispatcher::Scheme02(*self),
                    key@,
                    content_bytes(content@),
                    salt@,
                ) is None,
            },
    {
        match argon2id_hash(key, content.as_bytes(), salt.as_slice()) {
            Some(v) => Ok(v),
            None => Err(Error::Key),
        }
    }
}

impl SchemeDispatcher {
    /// The raw hash of `content` and `salt` under this scheme, keyed by `key`.
    pub fn hash(&self, key: &[u8], content: &str, salt: &[u8; 16]) -> (r: Result<Vec<u8>, Error>)
        ensures
            match r {
                Ok(v) => Some(v@) == spec_hash(*self, key@, content_bytes(content@), salt@),
                Err(e) => e is Key && spec_hash(*self, key@, content_bytes(content@), salt@) is None,
            },
    {
        match self {
            SchemeDispatcher::Scheme01(s) => s.hash(key, content, salt),
            SchemeDispatcher::Scheme02(s) => s.hash(key, content, salt),
        }
    }

    /// Whether `content` and `salt` hash, under this scheme, to the stored text
    /// `raw_pwd_ref`.
    pub fn validate(&self, key: &[u8], content: &str, salt: &[u8; 16], raw_pwd_ref: &[u8]) -> (r: Result<(), Error>)
        ensures
            match spec_hash(*self, key@, content_bytes(content@), salt@) {
                None => r matches Err(e) && e is Key,
                Some(h) => if hash_text(h) == raw_pwd_ref@ {
                    r is Ok
                } else {
                    r matches Err(e) && e is PwdValidate
                },
            },
    {
        let raw = self.hash(key, content, salt)?;
        let text = b64u_encode(raw.as_slice());
        proof {
            lemma_b64u_ascii(text@);
        }
        if bytes_eq(text.as_str().as_bytes(), raw_pwd_ref) {
            Ok(())
        } else {
            Err(Error::PwdValidate)
        }
    }
}

/// The scheme registered under the tag `tag`.
pub fn scheme_for_tag(tag: &[u8]) -> (r: Option<SchemeDispatcher>)
    ensures
        r == scheme_of_tag(tag@),
{
    if tag.len() == 2 && tag[0] == 48 && tag[1] == 49 {
        assert(tag@ =~= tag_01());
        Some(SchemeDispatcher::Scheme01(Scheme01))
    } else if tag.len() == 2 && tag[0] == 48 && tag[1] == 50 {
        assert(tag@ =~= tag_02());
        Some(SchemeDispatcher::Scheme02(Scheme02))
    } else {
        proof {
            if tag@ == tag_01() || tag@ == tag_02() {
                assert(tag@[0] == 48);
            }
        }
        None
    }
}

/// Whether `tag` names the default scheme.
pub fn is_default_tag(tag: &[u8]) -> (r: bool)
    ensures
        r == (tag@ == default_tag()),
{
    let r = tag.len() == 2 && tag[0] == 48 && tag[1] == 50;
    proof {
        if r {
            assert(tag@ =~= default_tag());
        }
    }
    r
}

/// The scheme registered under the name `scheme_name`.
pub fn get_scheme(scheme_name: &str) -> (r: Result<SchemeDispatcher, Error>)
    ensures
        match scheme_of_tag(encode_utf8(scheme_name@)) {
            Some(s) => r == Ok::<SchemeDispatcher, Error>(s),
            None => r matches Err(Error::SchemeNotFound(n)) && n@ == scheme_name@,
        },
{
    match scheme_for_tag(scheme_name.as_bytes()) {
        Some(s) => Ok(s),
        None => Err(Error::SchemeNotFound(scheme_name.to_owned())),
    }
}

} // verus!
