use web_core::crypt::Error;
use web_core::time::UtcTime;
use web_core::token::{generate_token, generate_web_token, validate_web_token, Token};

const KEY: &[u8] = b"token-key";
const SALT: [u8; 16] = [7; 16];
const WIRE: &str = "#01#ZGVtbzE.MjAzMC0wMS0wMVQwMDowMDowMFo.a70QF2dA-FVngg09ezeG1iRWCc9UqIL2was4JxCvELownZ-LNLAMkXIQcEy_8XomSpaxaQ9P6gM5jglsJwrUrg";

fn t(year: u16, month: u8, day: u8, hour: u8, minute: u8, second: u8) -> UtcTime {
    UtcTime { year, month, day, hour, minute, second }
}

fn exp() -> UtcTime {
    t(2030, 1, 1, 0, 0, 0)
}

#[test]
fn token_wire_exact_value() {
    let token = generate_token("demo1", exp(), &SALT, KEY);
    assert_eq!(token.to_string(), WIRE);
}

#[test]
fn token_round_trip() {
    let token = generate_token("demo1", exp(), &SALT, KEY);
    let parsed = Token::parse(&token.to_string()).unwrap();
    assert_eq!(parsed.ident, "demo1");
    assert_eq!(parsed.exp, exp());
    assert_eq!(parsed.sign_b64u, token.sign_b64u);
    assert_eq!(validate_web_token(&parsed, &SALT, KEY, &t(2029, 6, 1, 0, 0, 0)), Ok(()));
}

#[test]
fn token_round_trip_non_ascii_ident() {
    let token = generate_token("jörg ✓", exp(), &SALT, KEY);
    let parsed = Token::parse(&token.to_string()).unwrap();
    assert_eq!(parsed.ident, "jörg ✓");
    assert_eq!(validate_web_token(&parsed, &SALT, KEY, &exp()), Ok(()));
}

#[test]
fn tampered_signature_is_rejected() {
    let bytes = WIRE.as_bytes();
    let sign_start = WIRE.rfind('.').unwrap() + 1;
    for p in sign_start..bytes.len() {
        let mut changed = bytes.to_vec();
        changed[p] = if bytes[p] == b'A' { b'B' } else { b'A' };
        let text = String::from_utf8(changed).unwrap();
        let parsed = Token::parse(&text).unwrap();
        assert_eq!(
            validate_web_token(&parsed, &SALT, KEY, &t(2029, 1, 1, 0, 0, 0)),
            Err(Error::TokenSignatureNotMatching)
        );
    }
    let mut dotted = bytes.to_vec();
    dotted[sign_start + 3] = b'.';
    let text = String::from_utf8(dotted).unwrap();
    assert!(matches!(Token::parse(&text), Err(Error::TokenInvalidFormat)));
}

#[test]
fn wrong_salt_or_key_is_rejected() {
    let token = Token::parse(WIRE).unwrap();
    let now = t(2029, 1, 1, 0, 0, 0);
    assert_eq!(validate_web_token(&token, &[8; 16], KEY, &now), Err(Error::TokenSignatureNotMatching));
    assert_eq!(validate_web_token(&token, &SALT, b"other", &now), Err(Error::TokenSignatureNotMatching));
}

#[test]
fn expiry_boundary() {
    let token = generate_token("demo1", exp(), &SALT, KEY);
    assert_eq!(validate_web_token(&token, &SALT, KEY, &exp()), Ok(()));
    assert_eq!(
        validate_web_token(&token, &SALT, KEY, &t(2030, 1, 1, 0, 0, 1)),
        Err(Error::TokenExpired)
    );
    assert_eq!(
        validate_web_token(&token, &SALT, KEY, &t(2031, 1, 1, 0, 0, 0)),
        Err(Error::TokenExpired)
    );
}

#[test]
fn fresh_web_token_validates_now() {
    let now = t(2024, 3, 10, 8, 0, 0);
    let token = generate_web_token("demo1", &SALT, KEY, &now, 1800).unwrap();
    assert_eq!(token.exp, t(2024, 3, 10, 8, 30, 0));
    assert_eq!(validate_web_token(&token, &SALT, KEY, &now), Ok(()));
    assert!(generate_web_token("demo1", &SALT, KEY, &t(9999, 12, 31, 23, 59, 0), 3600).is_none());
}

#[test]
fn parse_errors() {
    assert!(matches!(Token::parse(""), Err(Error::TokenInvalidFormat)));
    assert!(matches!(Token::parse("ZGVtbzE.MjAzMC0wMS0wMVQwMDowMDowMFo.abc"), Err(Error::TokenInvalidFormat)));
    assert!(matches!(Token::parse("#02#ZGVtbzE.MjAzMC0wMS0wMVQwMDowMDowMFo.abc"), Err(Error::TokenInvalidFormat)));
    assert!(matches!(Token::parse("#01#ZGVtbzE.MjAzMC0wMS0wMVQwMDowMDowMFo"), Err(Error::TokenInvalidFormat)));
    assert!(matches!(Token::parse("#01#a.b.c.d"), Err(Error::TokenInvalidFormat)));
    assert!(matches!(Token::parse("#01#!!.MjAzMC0wMS0wMVQwMDowMDowMFo.abc"), Err(Error::TokenCannotDecodeIdent)));
    assert!(matches!(Token::parse("#01#__4.MjAzMC0wMS0wMVQwMDowMDowMFo.abc"), Err(Error::TokenCannotDecodeIdent)));
    assert!(matches!(Token::parse("#01#ZGVtbzE.!!.abc"), Err(Error::TokenCannotDecodeExp)));
    assert!(matches!(Token::parse("#01#ZGVtbzE.bm90LWEtZGF0ZQ.abc"), Err(Error::TokenExpNotIso)));
}
