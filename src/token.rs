//! Signed web tokens, written `#01#<ident>.<exp>.<signature>`: the identifier
//! and the expiration (as `YYYY-MM-DDTHH:MM:SSZ`) as URL-safe base64, then the base64 text of the
//! scheme-"01" signature over the first two parts and the user's token salt.
use vstd::prelude::*;
use vstd::utf8::*;
use vstd::string::*;
use crate::crypt::Error;
use crate::encoding::{
    ascii_bytes, b64u_decodable, b64u_decoded, b64u_encode, b64u_of, bytes_eq, copy_range,
    decode_b64u, encoded_text, is_b64u_text, lemma_ascii_chars_bytes, lemma_b64u_ascii,
    lemma_b64u_round_trip, lemma_encode_utf8_concat, utf8_string,
};
use crate::scheme::{hmac_sha512_of, Scheme01};
use crate::time::UtcTime;

verus! {

/// A signed claim that `ident` is authenticated until `exp`.
pub struct Token {
    /// The identifier, e.g. the user name.
    pub ident: String,
    pub exp: UtcTime,
    /// The base64 text of the signature.
    pub sign_b64u: String,
}

/// The text that the signature covers.
pub open spec fn sign_content(ident: Seq<char>, exp: UtcTime) -> Seq<char> {
    b64u_of(encode_utf8(ident)) + seq!['.'] + b64u_of(exp.iso_bytes())
}

/// The base64 text of the signature of `ident` and `exp` under `key` and `salt`.
pub open spec fn token_sign(key: Seq<u8>, ident: Seq<char>, exp: UtcTime, salt: Seq<u8>) -> Seq<char> {
    b64u_of(hmac_sha512_of(key, encode_utf8(sign_content(ident, exp)) + salt))
}

/// The wire text of a token.
pub open spec fn token_text(ident: Seq<char>, exp: UtcTime, sign: Seq<char>) -> Seq<char> {
    seq!['#', '0', '1', '#'] + b64u_of(encode_utf8(ident)) + seq!['.'] + b64u_of(exp.iso_bytes())
        + seq!['.'] + sign
}

/// `cookie` is the wire text of a token for `user`, signed with `key` and
/// `salt`, expiring `duration` seconds after `now` (with its parts encoded as
/// `Token::to_string` reports).
pub open spec fn is_fresh_cookie(
    cookie: Seq<char>,
    user: Seq<char>,
    key: Seq<u8>,
    salt: Seq<u8>,
    now: UtcTime,
    duration: int,
) -> bool {
    exists|exp: UtcTime|
        {
            &&& exp.wf()
            &&& exp.spec_unix_secs() == now.spec_unix_secs() + duration
            &&& #[trigger] token_text(user, exp, token_sign(key, user, exp, salt)) == cookie
            &&& encoded_text(encode_utf8(user))
            &&& encoded_text(exp.iso_bytes())
            &&& is_b64u_text(token_sign(key, user, exp, salt))
        }
}

/// The first index from `i` on that holds a `.`, or the length.
pub open spec fn find_dot(b: Seq<u8>, i: int) -> int
    decreases b.len() - i,
{
    if i < 0 || i >= b.len() || b[i] == 46 {
        i
    } else {
        find_dot(b, i + 1)
    }
}

pub open spec fn token_prefix() -> Seq<u8> {
    seq![35u8, 48u8, 49u8, 35u8]
}

/// The three `.`-separated parts after the `#01#` prefix, if there are exactly three.
pub open spec fn token_segments(b: Seq<u8>) -> Option<(Seq<u8>, Seq<u8>, Seq<u8>)> {
    if b.len() >= 4 && b.subrange(0, 4) == token_prefix() && find_dot(b, 4) < b.len() && find_dot(
        b,
        find_dot(b, 4) + 1,
    ) < b.len() && find_dot(b, find_dot(b, find_dot(b, 4) + 1) + 1) == b.len() {
        let d1 = find_dot(b, 4);
        let d2 = find_dot(b, d1 + 1);
        Some((b.subrange(4, d1), b.subrange(d1 + 1, d2), b.subrange(d2 + 1, b.len() as int)))
    } else {
        None
    }
}

pub open spec fn iso_parses(b: Seq<u8>) -> bool {
    exists|t: UtcTime| t.wf() && #[trigger] t.iso_bytes() == b
}

pub open spec fn iso_time(b: Seq<u8>) -> UtcTime {
    choose|t: UtcTime| t.wf() && #[trigger] t.iso_bytes() == b
}

/// What parsing the wire bytes `b` gives: identifier, expiration and signature text.
pub open spec fn parse_spec(b: Seq<u8>) -> Result<(Seq<char>, UtcTime, Seq<char>), Error> {
    match token_segments(b) {
        None => Err(Error::TokenInvalidFormat),
        Some((s1, s2, s3)) => {
            if !(b64u_decodable(s1) && valid_utf8(b64u_decoded(s1))) {
                Err(Error::TokenCannotDecodeIdent)
            } else if !b64u_decodable(s2) {
                Err(Error::TokenCannotDecodeExp)
            } else if !iso_parses(b64u_decoded(s2)) {
                Err(Error::TokenExpNotIso)
            } else if !valid_utf8(s3) {
                Err(Error::TokenInvalidFormat)
            } else {
                Ok((decode_utf8(b64u_decoded(s1)), iso_time(b64u_decoded(s2)), decode_utf8(s3)))
            }
        },
    }
}

/// What validating a token with these parts gives at time `now`.
pub open spec fn validate_spec(
    key: Seq<u8>,
    salt: Seq<u8>,
    now: UtcTime,
    ident: Seq<char>,
    exp: UtcTime,
    sign: Seq<char>,
) -> Result<(), Error> {
    if sign != token_sign(key, ident, exp, salt) {
        Err(Error::TokenSignatureNotMatching)
    } else if exp.spec_is_before(now) {
        Err(Error::TokenExpired)
    } else {
        Ok(())
    }
}

/// The first index from `start` on that holds a `.`, or the length.
fn find_dot_from(b: &[u8], start: usize) -> (r: usize)
    requires
        start <= b@.len(),
    ensures
        r == find_dot(b@, start as int),
        start <= r <= b@.len(),
{
    let mut i: usize = start;
    while i < b.len() && b[i] != 46
        invariant
            start <= i <= b@.len(),
            find_dot(b@, i as int) == find_dot(b@, start as int),
        decreases b@.len() - i,
    {
        i = i + 1;
    }
    i
}

/// The signature text of `ident` and `exp` under `key` and `salt`.
fn sign_text(key: &[u8], ident: &str, exp: &UtcTime, salt: &[u8; 16]) -> (r: String)
    ensures
        r@ == token_sign(key@, ident@, *exp, salt@),
        is_b64u_text(r@),
{
    let ident_b64 = b64u_encode(ident.as_bytes());
    let iso = exp.format_iso();
    let exp_b64 = b64u_encode(iso.as_slice());
    let mut content = String::from_str(ident_b64.as_str());
    content.append(".");
    content.append(exp_b64.as_str());
    proof {
        reveal_strlit(".");
        assert(content@ =~= sign_content(ident@, *exp));
    }
    let mac = match Scheme01.hash(key, content.as_str(), salt) {
        Ok(m) => m,
        Err(_) => Vec::new(),
    };
    b64u_encode(mac.as_slice())
}

impl Token {
    /// The wire text `#01#<ident>.<exp>.<signature>`.
    pub fn to_string(&self) -> (r: String)
        ensures
            r@ == token_text(self.ident@, self.exp, self.sign_b64u@),
            encoded_text(encode_utf8(self.ident@)),
            encoded_text(self.exp.iso_bytes()),
    {
        let ident_b64 = b64u_encode(self.ident.as_str().as_bytes());
        let iso = self.exp.format_iso();
        let exp_b64 = b64u_encode(iso.as_slice());
        let mut out = String::from_str("#01#");
        out.append(ident_b64.as_str());
        out.append(".");
        out.append(exp_b64.as_str());
        out.append(".");
        out.append(self.sign_b64u.as_str());
        proof {
            reveal_strlit("#01#");
            reveal_strlit(".");
            assert(out@ =~= token_text(self.ident@, self.exp, self.sign_b64u@));
        }
        out
    }

    /// Reads a wire text `#01#<ident>.<exp>.<signature>`.
    pub fn parse(s: &str) -> (r: Result<Token, Error>)
        ensures
            match parse_spec(encode_utf8(s@)) {
                Ok((ident, exp, sign)) => r matches Ok(t) && t.ident@ == ident && t.exp == exp
                    && t.sign_b64u@ == sign && t.exp.wf(),
                Err(k) => r matches Err(e) && e == k,
            },
    {
        let b = s.as_bytes();
        if b.len() < 4 || b[0] != 35 || b[1] != 48 || b[2] != 49 || b[3] != 35 {
            proof {
                if b@.len() >= 4 && b@.subrange(0, 4) == token_prefix() {
                    assert(b@[0] == b@.subrange(0, 4)[0]);
                    assert(b@[1] == b@.subrange(0, 4)[1]);
                    assert(b@[2] == b@.subrange(0, 4)[2]);
                    assert(b@[3] == b@.subrange(0, 4)[3]);
                }
            }
            return Err(Error::TokenInvalidFormat);
        }
        assert(b@.subrange(0, 4) =~= token_prefix());
        let d1 = find_dot_from(b, 4);
        if d1 >= b.len() {
            return Err(Error::TokenInvalidFormat);
        }
        let d2 = find_dot_from(b, d1 + 1);
        if d2 >= b.len() {
            return Err(Error::TokenInvalidFormat);
        }
        let d3 = find_dot_from(b, d2 + 1);
        if d3 != b.len() {
            return Err(Error::TokenInvalidFormat);
        }
        let seg_ident = copy_range(b, 4, d1);
        let seg_exp = copy_range(b, d1 + 1, d2);
        let seg_sign = copy_range(b, d2 + 1, b.len());
        let ident = match decode_b64u(seg_ident.as_slice()) {
            Some(v) => match utf8_string(v) {
                Some(t) => t,
                None => return Err(Error::TokenCannotDecodeIdent),
            },
            None => return Err(Error::TokenCannotDecodeIdent),
        };
        let exp_bytes = match decode_b64u(seg_exp.as_slice()) {
            Some(v) => v,
            None => return Err(Error::TokenCannotDecodeExp),
        };
        let exp = match UtcTime::parse_iso(exp_bytes.as_slice()) {
            Some(t) => t,
            None => return Err(Error::TokenExpNotIso),
        };
        proof {
            let c = iso_time(exp_bytes@);
            crate::time::lemma_iso_injective(exp, c);
        }
        let sign_b64u = match utf8_string(seg_sign) {
            Some(t) => t,
            None => return Err(Error::TokenInvalidFormat),
        };
        Ok(Token { ident, exp, sign_b64u })
    }
}

/// The token for `ident`, expiring at `exp`, signed with `key` and the user's `salt`.
pub fn generate_token(ident: &str, exp: UtcTime, salt: &[u8; 16], key: &[u8]) -> (r: Token)
    ensures
        r.ident@ == ident@,
        r.exp == exp,
        r.sign_b64u@ == token_sign(key@, ident@, exp, salt@),
        is_b64u_text(r.sign_b64u@),
{
    let sign_b64u = sign_text(key, ident, &exp, salt);
    Token { ident: String::from_str(ident), exp, sign_b64u }
}

/// The token for `user`, valid for `duration_secs` seconds from `now`; `None`
/// when that expiration lies past what a four-digit year can write.
pub fn generate_web_token(user: &str, salt: &[u8; 16], key: &[u8], now: &UtcTime, duration_secs: u64) -> (r: Option<Token>)
    requires
        now.wf(),
    ensures
        r is Some <==> now.spec_unix_secs() + duration_secs <= crate::time::MAX_UNIX_SECS,
        r matches Some(t) ==> {
            &&& t.ident@ == user@
            &&& t.exp.wf()
            &&& t.exp.spec_unix_secs() == now.spec_unix_secs() + duration_secs
            &&& t.sign_b64u@ == token_sign(key@, user@, t.exp, salt@)
            &&& is_b64u_text(t.sign_b64u@)
        },
{
    match now.add_seconds(duration_secs) {
        Some(exp) => Some(generate_token(user, exp, salt, key)),
        None => None,
    }
}

/// Checks the token's signature against `key` and `salt`, then that it has not
/// expired at `now`.
pub fn validate_web_token(token: &Token, salt: &[u8; 16], key: &[u8], now: &UtcTime) -> (r: Result<(), Error>)
    requires
        token.exp.wf(),
        now.wf(),
    ensures
        r == validate_spec(key@, salt@, *now, token.ident@, token.exp, token.sign_b64u@),
{
    let expected = sign_text(key, token.ident.as_str(), &token.exp, salt);
    let same = bytes_eq(expected.as_str().as_bytes(), token.sign_b64u.as_str().as_bytes());
    proof {
        encode_utf8_decode_utf8(expected@);
        encode_utf8_decode_utf8(token.sign_b64u@);
    }
    if !same {
        return Err(Error::TokenSignatureNotMatching);
    }
    if token.exp.is_before(now) {
        return Err(Error::TokenExpired);
    }
    Ok(())
}

proof fn lemma_find_dot_to(b: Seq<u8>, i: int, k: int)
    requires
        0 <= i <= k <= b.len(),
        forall|j: int| i <= j < k ==> b[j] != 46,
        k == b.len() || b[k] == 46,
    ensures
        find_dot(b, i) == k,
    decreases k - i,
{
    if i < k {
        lemma_find_dot_to(b, i + 1, k);
    }
}

/// The bytes of a wire text: the prefix, then each encoded part, with a `.`
/// between parts and none inside them.
proof fn lemma_wire_layout(ident: Seq<char>, exp: UtcTime, sign: Seq<char>)
    requires
        encoded_text(encode_utf8(ident)),
        encoded_text(exp.iso_bytes()),
        is_b64u_text(sign),
    ensures
        ({
            let a = encode_utf8(b64u_of(encode_utf8(ident)));
            let e = encode_utf8(b64u_of(exp.iso_bytes()));
            let c = encode_utf8(sign);
            let b = encode_utf8(token_text(ident, exp, sign));
            &&& b == token_prefix() + a + seq![46u8] + e + seq![46u8] + c
            &&& forall|j: int| 0 <= j < a.len() ==> a[j] != 46
            &&& forall|j: int| 0 <= j < e.len() ==> e[j] != 46
            &&& forall|j: int| 0 <= j < c.len() ==> c[j] != 46
        }),
{
    let pre = seq!['#', '0', '1', '#'];
    let dot = seq!['.'];
    let ta = b64u_of(encode_utf8(ident));
    let te = b64u_of(exp.iso_bytes());
    lemma_encode_utf8_concat(pre + ta + dot + te + dot, sign);
    lemma_encode_utf8_concat(pre + ta + dot + te, dot);
    lemma_encode_utf8_concat(pre + ta + dot, te);
    lemma_encode_utf8_concat(pre + ta, dot);
    lemma_encode_utf8_concat(pre, ta);
    lemma_ascii_chars_bytes(pre);
    lemma_ascii_chars_bytes(dot);
    assert(ascii_bytes(pre) =~= token_prefix());
    assert(ascii_bytes(dot) =~= seq![46u8]);
    lemma_b64u_ascii(ta);
    lemma_b64u_ascii(te);
    lemma_b64u_ascii(sign);
}

/// A token's wire text reads back as the same identifier, expiration and
/// signature (the encoded parts being as `to_string` reports them), and a
/// correctly signed token validates at its expiration and at any earlier time.
pub proof fn lemma_token_round_trip(ident: Seq<char>, exp: UtcTime, key: Seq<u8>, salt: Seq<u8>, now: UtcTime)
    requires
        exp.wf(),
        encoded_text(encode_utf8(ident)),
        encoded_text(exp.iso_bytes()),
        is_b64u_text(token_sign(key, ident, exp, salt)),
        !exp.spec_is_before(now),
    ensures
        parse_spec(encode_utf8(token_text(ident, exp, token_sign(key, ident, exp, salt)))) == Ok::<
            (Seq<char>, UtcTime, Seq<char>),
            Error,
        >((ident, exp, token_sign(key, ident, exp, salt))),
        validate_spec(key, salt, now, ident, exp, token_sign(key, ident, exp, salt)) == Ok::<(), Error>(()),
{
    let sign = token_sign(key, ident, exp, salt);
    lemma_parts_read_back(ident, exp, sign);
}

/// The parts of a wire text read back, whatever the signature text.
proof fn lemma_parts_read_back(ident: Seq<char>, exp: UtcTime, sign: Seq<char>)
    requires
        exp.wf(),
        encoded_text(encode_utf8(ident)),
        encoded_text(exp.iso_bytes()),
        is_b64u_text(sign),
    ensures
        parse_spec(encode_utf8(token_text(ident, exp, sign))) == Ok::<(Seq<char>, UtcTime, Seq<char>), Error>(
            (ident, exp, sign),
        ),
        ({
            let b = encode_utf8(token_text(ident, exp, sign));
            let d1: int = 4 + encode_utf8(b64u_of(encode_utf8(ident))).len() as int;
            let d2: int = d1 + 1 + encode_utf8(b64u_of(exp.iso_bytes())).len() as int;
            &&& find_dot(b, 4) == d1
            &&& find_dot(b, d1 + 1) == d2
            &&& d2 < b.len()
            &&& b.subrange(d2 + 1, b.len() as int) == encode_utf8(sign)
            &&& b.subrange(0, 4) == token_prefix()
            &&& forall|j: int| d2 + 1 <= j < b.len() ==> b[j] != 46
        }),
{
    lemma_wire_layout(ident, exp, sign);
    let a = encode_utf8(b64u_of(encode_utf8(ident)));
    let e = encode_utf8(b64u_of(exp.iso_bytes()));
    let c = encode_utf8(sign);
    let b = encode_utf8(token_text(ident, exp, sign));
    let d1: int = 4 + a.len() as int;
    let d2: int = d1 + 1 + e.len() as int;
    assert forall|j: int| 4 <= j < d1 implies b[j] != 46 by {
        assert(b[j] == a[j - 4]);
    }
    lemma_find_dot_to(b, 4, d1);
    assert forall|j: int| d1 + 1 <= j < d2 implies b[j] != 46 by {
        assert(b[j] == e[j - d1 - 1]);
    }
    lemma_find_dot_to(b, d1 + 1, d2);
    assert forall|j: int| d2 + 1 <= j < b.len() implies b[j] != 46 by {
        assert(b[j] == c[j - d2 - 1]);
    }
    lemma_find_dot_to(b, d2 + 1, b.len() as int);
    assert(b.subrange(0, 4) =~= token_prefix());
    assert(b.subrange(4, d1) =~= a);
    assert(b.subrange(d1 + 1, d2) =~= e);
    assert(b.subrange(d2 + 1, b.len() as int) =~= c);
    lemma_b64u_round_trip(encode_utf8(ident));
    lemma_b64u_round_trip(exp.iso_bytes());
    encode_utf8_valid_utf8(ident);
    encode_utf8_decode_utf8(ident);
    encode_utf8_valid_utf8(sign);
    encode_utf8_decode_utf8(sign);
    assert(iso_parses(exp.iso_bytes()));
    crate::time::lemma_iso_injective(exp, iso_time(exp.iso_bytes()));
}

/// Changing any one byte of the signature part of a correctly signed token's
/// wire text never validates: either the text no longer reads as a token, or
/// validation reports a signature mismatch.
pub proof fn lemma_tamper_detection(
    ident: Seq<char>,
    exp: UtcTime,
    key: Seq<u8>,
    salt: Seq<u8>,
    now: UtcTime,
    p: int,
    x: u8,
)
    requires
        exp.wf(),
        encoded_text(encode_utf8(ident)),
        encoded_text(exp.iso_bytes()),
        is_b64u_text(token_sign(key, ident, exp, salt)),
        ({
            let b = encode_utf8(token_text(ident, exp, token_sign(key, ident, exp, salt)));
            &&& b.len() - encode_utf8(token_sign(key, ident, exp, salt)).len() <= p < b.len()
            &&& x != b[p]
        }),
    ensures
        ({
            let b = encode_utf8(token_text(ident, exp, token_sign(key, ident, exp, salt)));
            match parse_spec(b.update(p, x)) {
                Ok((i, e, g)) => validate_spec(key, salt, now, i, e, g) == Err::<(), Error>(
                    Error::TokenSignatureNotMatching,
                ),
                Err(k) => k == Error::TokenInvalidFormat,
            }
        }),
{
    let sign = token_sign(key, ident, exp, salt);
    lemma_parts_read_back(ident, exp, sign);
    let b = encode_utf8(token_text(ident, exp, sign));
    let b2 = b.update(p, x);
    let d1: int = 4 + encode_utf8(b64u_of(encode_utf8(ident))).len() as int;
    let d2: int = d1 + 1 + encode_utf8(b64u_of(exp.iso_bytes())).len() as int;
    let c = encode_utf8(sign);
    assert(b.subrange(d2 + 1, b.len() as int) == c);
    assert(c.len() == b.len() - d2 - 1);
    assert(d2 < p);
    assert forall|j: int| 4 <= j <= d1 implies b2[j] == b[j] by {}
    assert forall|j: int| d1 + 1 <= j <= d2 implies b2[j] == b[j] by {}
    assert(b2.subrange(0, 4) =~= b.subrange(0, 4));
    lemma_find_dot_same(b, b2, 4, d1);
    lemma_find_dot_same(b, b2, d1 + 1, d2);
    if x == 46 {
        assert forall|j: int| d2 + 1 <= j < p implies b2[j] != 46 by {
            assert(b2[j] == b[j]);
        }
        lemma_find_dot_to(b2, d2 + 1, p);
    } else {
        assert forall|j: int| d2 + 1 <= j < b2.len() implies b2[j] != 46 by {
            if j != p {
                assert(b2[j] == b[j]);
            }
        }
        lemma_find_dot_to(b2, d2 + 1, b2.len() as int);
        assert(b2.subrange(4, d1) =~= b.subrange(4, d1));
        assert(b2.subrange(d1 + 1, d2) =~= b.subrange(d1 + 1, d2));
        let c2 = b2.subrange(d2 + 1, b2.len() as int);
        assert(c2[p - d2 - 1] == x);
        assert(c[p - d2 - 1] == b[p]);
        assert(c2 != c);
        if valid_utf8(c2) {
            decode_utf8_encode_utf8(c2);
            if decode_utf8(c2) == sign {
                assert(encode_utf8(decode_utf8(c2)) == c);
            }
        }
    }
}

proof fn lemma_find_dot_same(b: Seq<u8>, b2: Seq<u8>, i: int, k: int)
    requires
        0 <= i <= k < b.len(),
        b.len() == b2.len(),
        find_dot(b, i) == k,
        forall|j: int| i <= j <= k ==> b2[j] == b[j],
    ensures
        find_dot(b2, i) == k,
    decreases k - i,
{
    if i < k {
        assert(b[i] != 46);
        assert(find_dot(b, i + 1) == k);
        lemma_find_dot_same(b, b2, i + 1, k);
        assert(b2[i] != 46);
    } else {
        if b[k] != 46 {
            lemma_find_dot_after(b, k + 1);
        }
        assert(b2[k] == 46);
    }
}

proof fn lemma_find_dot_after(b: Seq<u8>, i: int)
    ensures
        find_dot(b, i) >= i,
    decreases b.len() - i,
{
    if 0 <= i < b.len() && b[i] != 46 {
        lemma_find_dot_after(b, i + 1);
    }
}

/// A correctly signed token is valid up to and at its expiration, and expired
/// at every later time.
pub proof fn lemma_expiry_boundary(key: Seq<u8>, salt: Seq<u8>, ident: Seq<char>, exp: UtcTime, now: UtcTime)
    ensures
        validate_spec(key, salt, now, ident, exp, token_sign(key, ident, exp, salt)) == if exp.spec_unix_secs()
            < now.spec_unix_secs() {
            Err::<(), Error>(Error::TokenExpired)
        } else {
            Ok::<(), Error>(())
        },
{
}

/// A token minted at `now` to expire `duration` seconds later validates at `now`.
pub proof fn lemma_fresh_token_valid(key: Seq<u8>, salt: Seq<u8>, ident: Seq<char>, exp: UtcTime, now: UtcTime, duration: nat)
    requires
        exp.spec_unix_secs() == now.spec_unix_secs() + duration,
    ensures
        validate_spec(key, salt, now, ident, exp, token_sign(key, ident, exp, salt)) == Ok::<(), Error>(()),
{
}

} // verus!
