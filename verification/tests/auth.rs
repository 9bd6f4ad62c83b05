use kovi_plugin_acl::auth::{
    apply_credentials, build_auth_state, change_password, check_password,
    credentials_for_password, credentials_from_config, finish_password_reset, generate_reset_code, init_auth,
    login_handler, new_credentials, require_auth, reset_password_with_code, strip_bearer, AuthConfig, AuthFailure,
    ChangePasswordError, CredentialError, LoginOutcome, LoginRequest, ResetError,
};
use sha2::{Digest, Sha256};
use std::collections::BTreeMap;
use kovi_plugin_acl::hex::{bytes_to_hex, HexError};
use kovi_plugin_acl::rate_limit::ClientAddr;
use kovi_plugin_acl::reset_codes::RedeemError;

const SEC: u64 = 1_000_000_000;

fn sha256(data: &[u8]) -> [u8; 32] {
    Sha256::digest(data).into()
}

fn now_wall() -> i128 {
    let d = std::time::SystemTime::now().duration_since(std::time::UNIX_EPOCH).unwrap();
    d.as_nanos() as i128
}

fn addr(n: u128) -> ClientAddr {
    ClientAddr { is_v6: false, ip: n, port: 1234, flowinfo: 0, scope_id: 0 }
}

fn core_with(password: &str) -> kovi_plugin_acl::auth::AuthCore {
    build_auth_state(sha256(password.as_bytes()), [9u8; 32])
}

fn login(core: &mut kovi_plugin_acl::auth::AuthCore, a: ClientAddr, pw: &str, mono: u64) -> LoginOutcome {
    login_handler(core, a, &LoginRequest { password: pw.to_string() }, mono, now_wall())
}

#[test]
fn login_with_right_password_gives_a_token_that_is_accepted() {
    let mut core = core_with("secret-pass");
    let token = match login(&mut core, addr(1), "secret-pass", 0) {
        LoginOutcome::Token(t) => t,
        other => panic!("unexpected {:?}", other),
    };
    assert_eq!(token.split('.').count(), 3);
    let header = format!("Bearer {}", token);
    assert_eq!(require_auth(&mut core, Some(&header), Some(addr(1)), 0, now_wall()), Ok(()));
}

#[test]
fn wrong_password_is_refused_and_counted() {
    let mut core = core_with("secret-pass");
    for _ in 0..10 {
        assert!(matches!(login(&mut core, addr(2), "nope", 0), LoginOutcome::InvalidPassword));
    }
    assert!(matches!(login(&mut core, addr(2), "secret-pass", SEC), LoginOutcome::TooManyRequests));
    // another client is not affected
    assert!(matches!(login(&mut core, addr(3), "secret-pass", SEC), LoginOutcome::Token(_)));
    // after the window the client may try again
    assert!(matches!(login(&mut core, addr(2), "secret-pass", 62 * SEC), LoginOutcome::Token(_)));
}

#[test]
fn successful_login_forgets_the_clients_attempts() {
    let mut core = core_with("pw123456");
    for _ in 0..9 {
        assert!(matches!(login(&mut core, addr(4), "bad", 0), LoginOutcome::InvalidPassword));
    }
    assert!(matches!(login(&mut core, addr(4), "pw123456", 0), LoginOutcome::Token(_)));
    assert_eq!(core.login_guards.get(&addr(4)), None);
    for _ in 0..10 {
        assert!(matches!(login(&mut core, addr(4), "bad", 0), LoginOutcome::InvalidPassword));
    }
}

#[test]
fn missing_or_bad_tokens_are_refused_and_limited() {
    let mut core = core_with("pw");
    assert_eq!(require_auth(&mut core, None, None, 0, now_wall()), Err(AuthFailure::Unauthorized));
    assert_eq!(require_auth(&mut core, Some("Basic xyz"), Some(addr(5)), 0, now_wall()), Err(AuthFailure::Unauthorized));
    for _ in 0..29 {
        assert_eq!(require_auth(&mut core, Some("Bearer nonsense"), Some(addr(5)), 0, now_wall()), Err(AuthFailure::Unauthorized));
    }
    assert_eq!(require_auth(&mut core, Some("Bearer nonsense"), Some(addr(5)), 0, now_wall()), Err(AuthFailure::TooManyRequests));
    // without an address nothing is counted
    assert_eq!(require_auth(&mut core, Some("Bearer nonsense"), None, 0, now_wall()), Err(AuthFailure::Unauthorized));
}

#[test]
fn token_signed_with_an_old_key_is_refused_after_a_password_change() {
    let mut core = core_with("first-password");
    let token = match login(&mut core, addr(6), "first-password", 0) {
        LoginOutcome::Token(t) => t,
        other => panic!("unexpected {:?}", other),
    };
    let creds = change_password(&core, "first-password", "second-password").unwrap();
    apply_credentials(&mut core, &creds);
    let header = format!("Bearer {}", token);
    assert_eq!(require_auth(&mut core, Some(&header), None, 0, now_wall()), Err(AuthFailure::Unauthorized));
    assert!(check_password(&core, "second-password"));
    assert!(!check_password(&core, "first-password"));
}

#[test]
fn change_password_checks_current_then_length() {
    let core = core_with("current1");
    assert!(matches!(change_password(&core, "wrong", "x"), Err(ChangePasswordError::IncorrectCurrent)));
    assert!(matches!(change_password(&core, "current1", "12345"), Err(ChangePasswordError::TooShort)));
    // length counts bytes: two 3-byte characters are 6 bytes
    assert!(change_password(&core, "current1", "密码").is_ok());
    assert_eq!(ChangePasswordError::IncorrectCurrent.message(), "current password is incorrect");
    assert_eq!(ChangePasswordError::TooShort.message(), "new password must be at least 6 characters");
}

#[test]
fn new_credentials_decode_back() {
    let c = credentials_for_password("hunter22");
    assert_eq!(c.config.password_hash, bytes_to_hex(&sha256(b"hunter22")));
    assert_eq!(c.config.jwt_key, bytes_to_hex(&c.jwt_key));
    assert_eq!(credentials_from_config(&c.config).unwrap(), (c.password_hash, c.jwt_key));
}

#[test]
fn given_password_is_used_unless_empty() {
    let c = new_credentials(Some("from-env".to_string()));
    assert!(c.generated_password.is_none());
    assert_eq!(c.password_hash, sha256(b"from-env"));
    let g = new_credentials(Some(String::new()));
    let pw = g.generated_password.clone().unwrap();
    assert_eq!(pw.len(), 32);
    assert_eq!(g.password_hash, sha256(pw.as_bytes()));
    assert!(new_credentials(None).generated_password.is_some());
}

#[test]
fn init_auth_uses_stored_credentials_or_regenerates() {
    let stored = credentials_for_password("stored-pw");
    let cfg = AuthConfig { password_hash: stored.config.password_hash.clone(), jwt_key: stored.config.jwt_key.clone() };
    let r = init_auth(Some(cfg), None);
    assert!(r.created.is_none() && r.rejected.is_none());
    assert!(check_password(&r.core, "stored-pw"));

    let bad = AuthConfig { password_hash: "xyz".to_string(), jwt_key: stored.config.jwt_key.clone() };
    let r = init_auth(Some(bad), Some("env-pw".to_string()));
    assert_eq!(r.rejected, Some(CredentialError::PasswordHash(HexError::WrongLength { got: 3 })));
    assert!(r.created.is_some());
    assert!(check_password(&r.core, "env-pw"));

    let bad_key = AuthConfig { password_hash: stored.config.password_hash.clone(), jwt_key: "zz".repeat(32) };
    let r = init_auth(Some(bad_key), None);
    assert_eq!(r.rejected, Some(CredentialError::JwtKey(HexError::InvalidDigit { at: 0 })));

    let r = init_auth(None, None);
    assert!(r.rejected.is_none());
    let pw = r.created.as_ref().unwrap().generated_password.clone().unwrap();
    assert!(check_password(&r.core, &pw));
}

#[test]
fn bearer_prefix_is_stripped() {
    assert_eq!(strip_bearer(Some("Bearer abc.def")), Some("abc.def"));
    assert_eq!(strip_bearer(Some("Bearer ")), Some(""));
    assert_eq!(strip_bearer(Some("bearer abc")), None);
    assert_eq!(strip_bearer(Some("Bearer")), None);
    assert_eq!(strip_bearer(None), None);
}

#[test]
fn password_reset_flow() {
    let wall = now_wall();
    let mut core = core_with("old-password");
    let code = generate_reset_code(&mut core, 1001, wall);
    assert_eq!(code.len(), 6);
    assert!(code.chars().all(|c| c.is_ascii_hexdigit() && !c.is_ascii_uppercase()));

    let r = reset_password_with_code(&mut core, addr(7), &code, "short", 0, wall);
    assert_eq!(r.err(), Some(ResetError::TooShort));
    let r = reset_password_with_code(&mut core, addr(7), "nocode", "long-enough", 0, wall);
    assert_eq!(r.err(), Some(ResetError::Code(RedeemError::InvalidOrExpired)));
    let (creds, admin) = reset_password_with_code(&mut core, addr(7), &code, "long-enough", 0, wall).unwrap();
    assert_eq!(admin, 1001);
    finish_password_reset(&mut core, addr(7), &creds);
    assert!(check_password(&core, "long-enough"));
    assert_eq!(core.reset_guards.get(&addr(7)), None);
    // the code works once
    let r = reset_password_with_code(&mut core, addr(7), &code, "another-one", 0, wall);
    assert_eq!(r.err(), Some(ResetError::Code(RedeemError::InvalidOrExpired)));
}

#[test]
fn password_reset_attempts_are_limited() {
    let wall = now_wall();
    let mut core = core_with("old-password");
    for _ in 0..5 {
        let r = reset_password_with_code(&mut core, addr(8), "000000", "long-enough", 0, wall);
        assert_eq!(r.err(), Some(ResetError::Code(RedeemError::InvalidOrExpired)));
    }
    let r = reset_password_with_code(&mut core, addr(8), "000000", "long-enough", 0, wall);
    assert_eq!(r.err(), Some(ResetError::TooManyRequests));
    assert_eq!(ResetError::TooManyRequests.status(), 429);
    assert_eq!(ResetError::TooShort.status(), 400);
    assert_eq!(ResetError::TooManyRequests.message(), "too many attempts, try again later");
    assert_eq!(ResetError::Code(RedeemError::AlreadyUsed).message(), "reset code already used");
    assert_eq!(ResetError::Code(RedeemError::Expired).message(), "reset code expired");
}

#[test]
fn login_token_is_accepted_until_expiry_plus_leeway() {
    let mut core = core_with("secret-pass");
    let t0: i128 = 1_700_000_000 * 1_000_000_000;
    let token = match login_handler(&mut core, addr(7), &LoginRequest { password: "secret-pass".to_string() }, 0, t0) {
        LoginOutcome::Token(t) => t,
        other => panic!("unexpected {:?}", other),
    };
    let header = format!("Bearer {}", token);
    let secs = |s: i128| t0 + s * 1_000_000_000;
    assert_eq!(require_auth(&mut core, Some(&header), None, 0, secs(0)), Ok(()));
    assert_eq!(require_auth(&mut core, Some(&header), None, 0, secs(86_400 + 60)), Ok(()));
    assert_eq!(require_auth(&mut core, Some(&header), None, 0, secs(86_400 + 61)), Err(AuthFailure::Unauthorized));
}

#[test]
fn tokens_need_exp_and_iat_and_the_right_key() {
    let mut core = core_with("pw");
    let now = now_wall();
    let exp = (now / 1_000_000_000) as i64 + 1000;
    let sign = |claims: &BTreeMap<&str, i64>, key: &[u8]| {
        jsonwebtoken::encode(&jsonwebtoken::Header::default(), claims, &jsonwebtoken::EncodingKey::from_secret(key))
            .unwrap()
    };
    let mut full = BTreeMap::new();
    full.insert("exp", exp);
    full.insert("iat", exp - 10);
    let good = format!("Bearer {}", sign(&full, &[9u8; 32]));
    assert_eq!(require_auth(&mut core, Some(&good), None, 0, now), Ok(()));
    let other_key = format!("Bearer {}", sign(&full, &[8u8; 32]));
    assert_eq!(require_auth(&mut core, Some(&other_key), None, 0, now), Err(AuthFailure::Unauthorized));
    let mut no_iat = BTreeMap::new();
    no_iat.insert("exp", exp);
    let no_iat = format!("Bearer {}", sign(&no_iat, &[9u8; 32]));
    assert_eq!(require_auth(&mut core, Some(&no_iat), None, 0, now), Err(AuthFailure::Unauthorized));
}
