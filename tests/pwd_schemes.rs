use uuid::Uuid;
use web_core::crypt::{self, EncryptContent};
use web_core::pwd::{hash_for_scheme, hash_pwd, validate_pwd, ContentToHash, Error};
use web_core::scheme::{get_scheme, Error as SchemeError, SchemeDispatcher, SchemeStatus};

const KEY: &[u8] = b"pwd-key";

fn fx_salt() -> [u8; 16] {
    *Uuid::parse_str("f05e8961-d6ad-4086-9e78-a6de065e5453").unwrap().as_bytes()
}

#[test]
fn test_multi_scheme_ok() {
    // -- Setup & Fixtures
    let fx_salt = Uuid::parse_str("f05e8961-d6ad-4086-9e78-a6de065e5453").unwrap();
    let fx_to_hash = ContentToHash {
        content: "hello world".to_string(),
        salt: *fx_salt.as_bytes(),
    };

    // -- Exec
    // hash with Scheme 01
    let pwd_hashed_s01 = hash_for_scheme(KEY, "01", &fx_to_hash).unwrap();
    // validate with pub function (which will be with Scheme 02)
    let status = validate_pwd(KEY, &fx_to_hash, &pwd_hashed_s01).unwrap();

    // -- Check
    assert!(
        matches!(status, SchemeStatus::Outdated),
        "status should be SchemeStatus::Outdated"
    );
}

#[test]
fn scheme_01_hash_exact_value() {
    let to_hash = ContentToHash { content: "hello world".to_string(), salt: fx_salt() };
    let hashed = hash_for_scheme(KEY, "01", &to_hash).unwrap();
    assert_eq!(
        hashed,
        "#01#QTqQkNDFN41ds63fH9wJK9jPP5mF170kDpFSQWb_ji4r7dLZ3DdFV4ZpDl5EcEvDzbxuvz3Sw3InEvyYqOFeKQ"
    );
}

#[test]
fn default_scheme_hash_validates_as_current() {
    let to_hash = ContentToHash { content: "welcome".to_string(), salt: fx_salt() };
    let hashed = hash_pwd(KEY, &to_hash).unwrap();
    assert!(hashed.starts_with("#02#"));
    // 32 bytes of Argon2id output are 43 base64 characters.
    assert_eq!(hashed.len(), 4 + 43);
    assert_eq!(validate_pwd(KEY, &to_hash, &hashed).unwrap(), SchemeStatus::Current);
    let other = ContentToHash { content: "welcome!".to_string(), salt: fx_salt() };
    assert!(matches!(
        validate_pwd(KEY, &other, &hashed),
        Err(Error::Scheme(SchemeError::PwdValidate))
    ));
}

#[test]
fn validate_wrong_content_is_mismatch() {
    let to_hash = ContentToHash { content: "hello world".to_string(), salt: fx_salt() };
    let hashed = hash_for_scheme(KEY, "01", &to_hash).unwrap();
    let other = ContentToHash { content: "hello world!".to_string(), salt: fx_salt() };
    assert!(matches!(
        validate_pwd(KEY, &other, &hashed),
        Err(Error::Scheme(SchemeError::PwdValidate))
    ));
    let other_key = validate_pwd(b"other-key", &to_hash, &hashed);
    assert!(matches!(other_key, Err(Error::Scheme(SchemeError::PwdValidate))));
}

#[test]
fn validate_malformed_reference() {
    let to_hash = ContentToHash { content: "x".to_string(), salt: fx_salt() };
    assert!(matches!(validate_pwd(KEY, &to_hash, "no-scheme"), Err(Error::PwdWithSchemeParseFail)));
    assert!(matches!(validate_pwd(KEY, &to_hash, "##abc"), Err(Error::PwdWithSchemeParseFail)));
    assert!(matches!(validate_pwd(KEY, &to_hash, ""), Err(Error::PwdWithSchemeParseFail)));
    assert!(matches!(validate_pwd(KEY, &to_hash, "#01"), Err(Error::PwdWithSchemeParseFail)));
}

#[test]
fn validate_unknown_scheme() {
    let to_hash = ContentToHash { content: "x".to_string(), salt: fx_salt() };
    match validate_pwd(KEY, &to_hash, "#99#abc") {
        Err(Error::Scheme(SchemeError::SchemeNotFound(name))) => assert_eq!(name, "99"),
        other => panic!("unexpected {other:?}"),
    }
}

#[test]
fn raw_hash_stops_at_line_end() {
    let to_hash = ContentToHash { content: "hello world".to_string(), salt: fx_salt() };
    let hashed = hash_for_scheme(KEY, "01", &to_hash).unwrap();
    let with_tail = format!("{hashed}\ntrailing");
    assert_eq!(validate_pwd(KEY, &to_hash, &with_tail).unwrap(), SchemeStatus::Outdated);
}

#[test]
fn get_scheme_known_and_unknown() {
    assert!(matches!(get_scheme("01"), Ok(SchemeDispatcher::Scheme01(_))));
    assert!(matches!(get_scheme("02"), Ok(SchemeDispatcher::Scheme02(_))));
    match get_scheme("03") {
        Err(SchemeError::SchemeNotFound(name)) => assert_eq!(name, "03"),
        other => panic!("unexpected {other:?}"),
    }
    assert!(matches!(hash_for_scheme(KEY, "7", &ContentToHash { content: String::new(), salt: fx_salt() }),
        Err(Error::Scheme(SchemeError::SchemeNotFound(_)))));
}

#[test]
fn encrypt_pwd_exact_value() {
    let enc = EncryptContent { content: "welcome".to_string(), salt: "salt-1".to_string() };
    let pwd = crypt::encrypt_pwd(KEY, &enc).unwrap();
    assert_eq!(
        pwd,
        "#01#Nl6FQHy-vfxPF_6ZGtflvhoPizyNvHqDUBQ7WRkv3833iAv2LvBELyuud-JOOBaSnmHDH0hUqQvQQjo87H7nzA"
    );
    assert!(crypt::validate_pwd(KEY, &enc, &pwd).is_ok());
    assert_eq!(crypt::validate_pwd(KEY, &enc, "#01#other"), Err(crypt::Error::PwdNotMatching));
}

#[test]
fn unicode_word_tag_is_read_as_scheme_name() {
    let to_hash = ContentToHash { content: "x".to_string(), salt: fx_salt() };
    match validate_pwd(KEY, &to_hash, "#é#x") {
        Err(Error::Scheme(SchemeError::SchemeNotFound(name))) => assert_eq!(name, "é"),
        other => panic!("unexpected {other:?}"),
    }
    match validate_pwd(KEY, &to_hash, "#Ωmega_9#raw\nnext") {
        Err(Error::Scheme(SchemeError::SchemeNotFound(name))) => assert_eq!(name, "Ωmega_9"),
        other => panic!("unexpected {other:?}"),
    }
    assert!(matches!(validate_pwd(KEY, &to_hash, "#a-b#x"), Err(Error::PwdWithSchemeParseFail)));
    assert!(matches!(validate_pwd(KEY, &to_hash, "#✓#x"), Err(Error::PwdWithSchemeParseFail)));
}
