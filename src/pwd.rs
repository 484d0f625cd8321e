//! Hashing passwords under the default scheme, and validating stored hashes
//! of the form `#<scheme>#<hash>` under the scheme they name.
use vstd::prelude::*;
use vstd::utf8::*;
use vstd::string::*;
use regex_syntax::try_is_word_character;
use crate::encoding::{
    ascii_bytes, b64u_encode, b64u_of, chars_of, copy_range, is_b64u_char, is_b64u_text,
    lemma_ascii_chars_bytes, lemma_b64u_ascii, string_of_chars,
};
use crate::scheme::{
    content_bytes, default_tag, get_scheme, hash_text, is_default_tag, scheme_for_tag,
    scheme_of_tag, spec_hash, tag_01, tag_02, SchemeStatus,
};
use crate::scheme::Error as SchemeError;

verus! {

/// A clear-text content and the salt it is hashed with.
pub struct ContentToHash {
    pub content: String,
    pub salt: [u8; 16],
}

#[derive(Debug)]
pub enum Error {
    /// The stored hash is not of the form `#<scheme>#<hash>`.
    PwdWithSchemeParseFail,
    Scheme(SchemeError),
}

/// Whether `c`, a character outside ASCII, is a Unicode word character:
/// alphabetic, a mark, a decimal digit, connector punctuation or a join control.
pub uninterp spec fn unicode_word_of(c: char) -> bool;

/// A word character, as `\w` matches it: `[0-9A-Za-z_]` within ASCII, and the
/// Unicode word characters beyond.
pub open spec fn is_word_char(c: char) -> bool {
    if (c as u32) < 128 {
        ('0' <= c <= '9') || ('A' <= c <= 'Z') || ('a' <= c <= 'z') || c == '_'
    } else {
        unicode_word_of(c)
    }
}

/// Relies on regex-syntax's `try_is_word_character`, the class that `\w`
/// matches: with the crate's default `unicode-perl` feature it never errs, and
/// within ASCII its table holds exactly `[0-9A-Za-z_]`.
#[verifier::external_body]
fn word_char(c: char) -> (r: bool)
    ensures
        (c as u32) < 128 ==> r == (('0' <= c <= '9') || ('A' <= c <= 'Z') || ('a' <= c <= 'z') || c == '_'),
        (c as u32) >= 128 ==> r == unicode_word_of(c),
{
    try_is_word_character(c).unwrap_or(false)
}

/// The first index from `i` on that does not hold a word character.
pub open spec fn word_end(s: Seq<char>, i: int) -> int
    decreases s.len() - i,
{
    if i < 0 || i >= s.len() || !is_word_char(s[i]) {
        i
    } else {
        word_end(s, i + 1)
    }
}

/// The first index from `i` on that holds a line feed, or the length.
pub open spec fn line_end(s: Seq<char>, i: int) -> int
    decreases s.len() - i,
{
    if i < 0 || i >= s.len() || s[i] == '\n' {
        i
    } else {
        line_end(s, i + 1)
    }
}

/// The scheme tag and the raw hash of a stored `#<scheme>#<hash>`: the tag is
/// a non-empty run of word characters followed by `#`, and the hash runs to
/// the end of the line.
pub open spec fn pwd_parts(s: Seq<char>) -> Option<(Seq<char>, Seq<char>)> {
    if s.len() >= 1 && s[0] == '#' && word_end(s, 1) > 1 && word_end(s, 1) < s.len() && s[word_end(
        s,
        1,
    )] == '#' {
        let j = word_end(s, 1);
        Some((s.subrange(1, j), s.subrange(j + 1, line_end(s, j + 1))))
    } else {
        None
    }
}

/// The stored form `#<name>#<hash text>` of the raw hash `h`.
pub open spec fn hashed_text(name: Seq<char>, h: Seq<u8>) -> Seq<char> {
    seq!['#'] + name + seq!['#'] + b64u_of(h)
}

/// The outcome of validating content against a stored hash.
#[derive(Debug, Clone, Copy, PartialEq, Eq, Structural)]
pub enum PwdCheck {
    ParseFail,
    SchemeNotFound,
    KeyFail,
    Mismatch,
    Valid(SchemeStatus),
}

/// The outcome of validating `content` and `salt` against the stored text `stored`.
pub open spec fn validate_outcome(key: Seq<u8>, content: Seq<char>, salt: Seq<u8>, stored: Seq<char>) -> PwdCheck {
    match pwd_parts(stored) {
        None => PwdCheck::ParseFail,
        Some((tag, raw)) => match scheme_of_tag(encode_utf8(tag)) {
            None => PwdCheck::SchemeNotFound,
            Some(s) => match spec_hash(s, key, content_bytes(content), salt) {
                None => PwdCheck::KeyFail,
                Some(h) => if hash_text(h) == encode_utf8(raw) {
                    PwdCheck::Valid(
                        if encode_utf8(tag) == default_tag() {
                            SchemeStatus::Current
                        } else {
                            SchemeStatus::Outdated
                        },
                    )
                } else {
                    PwdCheck::Mismatch
                },
            },
        },
    }
}

/// `r` is the result that the outcome `c` of validating against `stored` calls
/// for; an unknown scheme is reported under the tag's text.
pub open spec fn result_is(r: Result<SchemeStatus, Error>, stored: Seq<char>, c: PwdCheck) -> bool {
    match c {
        PwdCheck::ParseFail => r matches Err(Error::PwdWithSchemeParseFail),
        PwdCheck::SchemeNotFound => r matches Err(Error::Scheme(SchemeError::SchemeNotFound(n)))
            && pwd_parts(stored) matches Some((tag, _)) && n@ == tag,
        PwdCheck::KeyFail => r matches Err(Error::Scheme(SchemeError::Key)),
        PwdCheck::Mismatch => r matches Err(Error::Scheme(SchemeError::PwdValidate)),
        PwdCheck::Valid(st) => r == Ok::<SchemeStatus, Error>(st),
    }
}

struct PwdParts {
    /// The scheme only (e.g. "01").
    scheme_name: String,
    /// The raw hash, without the scheme name.
    raw: String,
}

/// Splits a stored `#<scheme>#<hash>` into its scheme tag and raw hash.
fn parse_pwd_parts(text: &str) -> (r: Option<PwdParts>)
    ensures
        match r {
            Some(p) => pwd_parts(text@) == Some((p.scheme_name@, p.raw@)),
            None => pwd_parts(text@) is None,
        },
{
    let s = chars_of(text);
    if s.len() < 1 || s[0] != '#' {
        return None;
    }
    let mut j: usize = 1;
    while j < s.len() && word_char(s[j])
        invariant
            1 <= j <= s@.len(),
            word_end(s@, j as int) == word_end(s@, 1),
        decreases s@.len() - j,
    {
        j = j + 1;
    }
    if j <= 1 || j >= s.len() || s[j] != '#' {
        return None;
    }
    let mut k: usize = j + 1;
    while k < s.len() && s[k] != '\n'
        invariant
            j + 1 <= k <= s@.len(),
            line_end(s@, k as int) == line_end(s@, j + 1),
        decreases s@.len() - k,
    {
        k = k + 1;
    }
    let tag = copy_range(s.as_slice(), 1, j);
    let raw = copy_range(s.as_slice(), j + 1, k);
    Some(PwdParts { scheme_name: string_of_chars(tag.as_slice()), raw: string_of_chars(raw.as_slice()) })
}

/// Hashes `to_hash` under the scheme named `scheme_name`, in the stored form
/// `#<scheme>#<hash>`.
pub fn hash_for_scheme(key: &[u8], scheme_name: &str, to_hash: &ContentToHash) -> (r: Result<String, Error>)
    ensures
        match scheme_of_tag(encode_utf8(scheme_name@)) {
            None => r matches Err(Error::Scheme(SchemeError::SchemeNotFound(n))) && n@ == scheme_name@,
            Some(s) => match spec_hash(s, key@, content_bytes(to_hash.content@), to_hash.salt@) {
                None => r matches Err(Error::Scheme(SchemeError::Key)),
                Some(h) => r matches Ok(t) && t@ == hashed_text(scheme_name@, h) && is_b64u_text(
                    b64u_of(h),
                ),
            },
        },
{
    let scheme = match get_scheme(scheme_name) {
        Ok(s) => s,
        Err(e) => return Err(Error::Scheme(e)),
    };
    let raw = match scheme.hash(key, to_hash.content.as_str(), &to_hash.salt) {
        Ok(v) => v,
        Err(e) => return Err(Error::Scheme(e)),
    };
    let text = b64u_encode(raw.as_slice());
    let mut out = String::from_str("#");
    out.append(scheme_name);
    out.append("#");
    out.append(text.as_str());
    proof {
        reveal_strlit("#");
        assert(out@ =~= hashed_text(scheme_name@, raw@));
    }
    Ok(out)
}

/// Hashes `to_hash` under the default scheme, in the stored form `#<scheme>#<hash>`.
pub fn hash_pwd(key: &[u8], to_hash: &ContentToHash) -> (r: Result<String, Error>)
    ensures
        match spec_hash(scheme_of_tag(default_tag())->Some_0, key@, content_bytes(to_hash.content@), to_hash.salt@) {
            None => r matches Err(Error::Scheme(SchemeError::Key)),
            Some(h) => r matches Ok(t) && t@ == hashed_text(seq!['0', '2'], h) && is_b64u_text(
                b64u_of(h),
            ),
        },
{
    proof {
        reveal_strlit("02");
        lemma_ascii_chars_bytes("02"@);
        assert(ascii_bytes("02"@) =~= default_tag());
    }
    hash_for_scheme(key, "02", to_hash)
}

/// Validates `to_hash` against the stored `#<scheme>#<hash>` under the scheme
/// it names; the status says whether that scheme is still the default.
pub fn validate_pwd(key: &[u8], to_hash: &ContentToHash, pwd_ref: &str) -> (r: Result<SchemeStatus, Error>)
    ensures
        result_is(r, pwd_ref@, validate_outcome(key@, to_hash.content@, to_hash.salt@, pwd_ref@)),
{
    let parts = match parse_pwd_parts(pwd_ref) {
        Some(p) => p,
        None => return Err(Error::PwdWithSchemeParseFail),
    };
    let scheme = match scheme_for_tag(parts.scheme_name.as_str().as_bytes()) {
        Some(s) => s,
        None => return Err(Error::Scheme(SchemeError::SchemeNotFound(parts.scheme_name))),
    };
    match scheme.validate(key, to_hash.content.as_str(), &to_hash.salt, parts.raw.as_str().as_bytes()) {
        Ok(()) => {},
        Err(e) => return Err(Error::Scheme(e)),
    }
    if is_default_tag(parts.scheme_name.as_str().as_bytes()) {
        Ok(SchemeStatus::Current)
    } else {
        Ok(SchemeStatus::Outdated)
    }
}

proof fn lemma_line_end_no_lf(s: Seq<char>, i: int)
    requires
        0 <= i <= s.len(),
        forall|k: int| i <= k < s.len() ==> s[k] != '\n',
    ensures
        line_end(s, i) == s.len(),
    decreases s.len() - i,
{
    if i < s.len() {
        lemma_line_end_no_lf(s, i + 1);
    }
}

/// Content hashed under a registered scheme validates against the stored text
/// that hashing wrote, and the status is `Outdated` exactly when that scheme
/// is not the default one.
pub proof fn lemma_scheme_upgrade(key: Seq<u8>, content: Seq<char>, salt: Seq<u8>, name: Seq<char>, h: Seq<u8>)
    requires
        scheme_of_tag(encode_utf8(name)) is Some,
        spec_hash(scheme_of_tag(encode_utf8(name))->Some_0, key, content_bytes(content), salt) == Some(h),
        is_b64u_text(b64u_of(h)),
    ensures
        validate_outcome(key, content, salt, hashed_text(name, h)) == PwdCheck::Valid(
            if encode_utf8(name) == default_tag() {
                SchemeStatus::Current
            } else {
                SchemeStatus::Outdated
            },
        ),
{
    let tag = encode_utf8(name);
    let text = b64u_of(h);
    let n01 = seq!['0', '1'];
    let n02 = seq!['0', '2'];
    lemma_ascii_chars_bytes(n01);
    lemma_ascii_chars_bytes(n02);
    assert(ascii_bytes(n01) =~= tag_01());
    assert(ascii_bytes(n02) =~= tag_02());
    encode_utf8_decode_utf8(name);
    encode_utf8_decode_utf8(n01);
    encode_utf8_decode_utf8(n02);
    assert(name == n01 || name == n02);
    lemma_b64u_ascii(text);
    let s = hashed_text(name, h);
    assert(s =~= seq!['#'] + name + seq!['#'] + text);
    assert(s[1] == '0' && s[3] == '#');
    assert(is_word_char(s[1]) && is_word_char(s[2]));
    assert(word_end(s, 3) == 3);
    assert(word_end(s, 2) == 3);
    assert(word_end(s, 1) == 3);
    assert forall|k: int| 4 <= k < s.len() implies s[k] != '\n' by {
        assert(s[k] == text[k - 4]);
        assert(is_b64u_char(text[k - 4]));
    }
    lemma_line_end_no_lf(s, 4);
    assert(s.subrange(1, 3) =~= name);
    assert(s.subrange(4, s.len() as int) =~= text);
}

} // verus!
