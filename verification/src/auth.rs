//! Credentials and sessions of the web interface: the stored password hash
//! and token-signing key, login with per-client rate limiting, token checks,
//! password change, and password reset through one-time codes.

use std::collections::BTreeMap;
use vstd::prelude::*;
use vstd::utf8::encode_utf8;
use crate::clock::{mono_elapsed_secs, unix_secs, unix_timestamp, wall_in_range};
use crate::text::str_eq;
use crate::crypto::{constant_time_eq, generate_password, generate_random_bytes, is_lower_hex_char, sha256, spec_sha256};
use crate::hex::{bytes_to_hex, hex_decoded, hex_encode, hex_prefix_ok, hex_to_bytes, lemma_hex_round_trip, HexError};
use crate::rate_limit::{
    check_rate_limit, lemma_run_bounded, passes, prune_expired, pruned, rate_allows, rate_checked, run_window_start, ClientAddr,
    GuardTable, LoginGuard,
};
use crate::reset_codes::{issued, redeemed, RedeemError, ResetCodeEntry, ResetCodeTable};

verus! {

broadcast use vstd::string::group_string_axioms;

/// Lifetime of a session token, in seconds.
pub const TOKEN_TTL_SECS: i64 = 86400;
/// Login attempts allowed per client and window.
pub const MAX_LOGIN_ATTEMPTS_PER_IP: u32 = 10;
/// Length of a login window, in seconds.
pub const LOGIN_WINDOW_SECS: u64 = 60;
/// Failed token checks allowed per client and window.
pub const MAX_FAILED_AUTH_PER_IP: u32 = 30;
/// Length of a failed-token-check window, in seconds.
pub const FAILED_AUTH_WINDOW_SECS: u64 = 60;
/// Password-reset attempts allowed per client and window.
pub const MAX_RESET_ATTEMPTS_PER_IP: u32 = 5;
/// Length of a password-reset window, in seconds.
pub const RESET_IP_WINDOW_SECS: u64 = 300;
/// Shortest accepted new password, in bytes.
pub const MIN_PASSWORD_LEN: usize = 6;

/// The persisted credentials: hex of the password's SHA-256 digest and hex
/// of the token-signing key.
#[derive(Debug)]
pub struct AuthConfig {
    pub password_hash: String,
    pub jwt_key: String,
}

/// Body of a login request.
pub struct LoginRequest {
    pub password: String,
}

/// Body of a password-change request.
pub struct ChangePasswordRequest {
    pub current: String,
    pub new: String,
}

/// Body of a password-reset request.
pub struct ResetPasswordRequest {
    pub code: String,
    pub new: String,
}

/// The claims of a session token: expiry and issue time, in Unix seconds.
#[derive(Clone, Copy, Debug, PartialEq, Eq, Structural)]
pub struct Claims {
    pub exp: i64,
    pub iat: i64,
}

/// The state behind the web interface's authentication.
pub struct AuthCore {
    /// SHA-256 digest of the current password.
    pub password_hash: [u8; 32],
    /// Key that signs and checks session tokens.
    pub jwt_key: Vec<u8>,
    pub login_guards: GuardTable,
    pub failed_auth_guards: GuardTable,
    pub reset_guards: GuardTable,
    pub reset_codes: ResetCodeTable,
}

/// An authentication state holding the given hash and key, with no client
/// guards and no reset codes.
pub fn build_auth_state(password_hash: [u8; 32], jwt_key: [u8; 32]) -> (core: AuthCore)
    ensures
        core.password_hash == password_hash,
        core.jwt_key@ == jwt_key@,
        core.login_guards@ == Map::<ClientAddr, LoginGuard>::empty(),
        core.failed_auth_guards@ == Map::<ClientAddr, LoginGuard>::empty(),
        core.reset_guards@ == Map::<ClientAddr, LoginGuard>::empty(),
        core.reset_codes@ == Map::<Seq<char>, ResetCodeEntry>::empty(),
{
    let mut key: Vec<u8> = Vec::new();
    let mut i: usize = 0;
    while i < 32
        invariant
            i <= 32,
            key@ == jwt_key@.subrange(0, i as int),
        decreases 32 - i,
    {
        key.push(jwt_key[i]);
        i = i + 1;
    }
    assert(jwt_key@.subrange(0, 32) =~= jwt_key@);
    AuthCore {
        password_hash,
        jwt_key: key,
        login_guards: GuardTable::new(),
        failed_auth_guards: GuardTable::new(),
        reset_guards: GuardTable::new(),
        reset_codes: ResetCodeTable::new(),
    }
}

// ---------------------------------------------------------------------------
// Stored credentials
// ---------------------------------------------------------------------------

/// Which stored credential could not be decoded.
#[derive(Clone, Copy, Debug, PartialEq, Eq)]
pub enum CredentialError {
    PasswordHash(HexError),
    JwtKey(HexError),
}

/// Decodes the stored password hash, then the stored key.
pub fn credentials_from_config(config: &AuthConfig) -> (r: Result<([u8; 32], [u8; 32]), CredentialError>)
    ensures
        r matches Ok((h, k)) ==> {
            &&& encode_utf8(config.password_hash@).len() == 64
            &&& encode_utf8(config.jwt_key@).len() == 64
            &&& hex_prefix_ok(config.password_hash@, 32)
            &&& hex_prefix_ok(config.jwt_key@, 32)
            &&& h@ == hex_decoded(config.password_hash@)
            &&& k@ == hex_decoded(config.jwt_key@)
        },
        (encode_utf8(config.password_hash@).len() == 64 && hex_prefix_ok(config.password_hash@, 32)
            && encode_utf8(config.jwt_key@).len() == 64 && hex_prefix_ok(config.jwt_key@, 32))
            ==> r is Ok,
        r matches Err(e) ==> credentials_fail_with(*config, e),
{
    let h = match hex_to_bytes(config.password_hash.as_str()) {
        Ok(h) => h,
        Err(e) => return Err(CredentialError::PasswordHash(e)),
    };
    let k = match hex_to_bytes(config.jwt_key.as_str()) {
        Ok(k) => k,
        Err(e) => return Err(CredentialError::JwtKey(e)),
    };
    Ok((h, k))
}

/// Decoding `config` stops with error `e`: the hash is decoded first, the
/// key only once the hash has been.
pub open spec fn credentials_fail_with(config: AuthConfig, e: CredentialError) -> bool {
    match e {
        CredentialError::PasswordHash(h) => hex_to_bytes_fails_with(config.password_hash@, h),
        CredentialError::JwtKey(k) => {
            &&& encode_utf8(config.password_hash@).len() == 64
            &&& hex_prefix_ok(config.password_hash@, 32)
            &&& hex_to_bytes_fails_with(config.jwt_key@, k)
        },
    }
}

/// `hex_to_bytes` reports error `e` for text `s`.
pub open spec fn hex_to_bytes_fails_with(s: Seq<char>, e: HexError) -> bool {
    match e {
        HexError::WrongLength { got } => encode_utf8(s).len() != 64 && got == encode_utf8(s).len(),
        HexError::InvalidDigit { at } => {
            &&& encode_utf8(s).len() == 64
            &&& at < 32
            &&& hex_prefix_ok(s, at as int)
            &&& !crate::hex::hex_pair_ok(encode_utf8(s)[2 * at], encode_utf8(s)[2 * at + 1])
        },
    }
}

/// Freshly generated credentials and the configuration that stores them.
pub struct NewCredentials {
    pub config: AuthConfig,
    pub password_hash: [u8; 32],
    pub jwt_key: [u8; 32],
    /// The password, when it was generated rather than given.
    pub generated_password: Option<String>,
}

/// The password that new credentials are made for: the given one when it is
/// not empty, else a generated one of 32 lower-case hex digits.
pub open spec fn chosen_password(given: Option<String>, generated: Option<String>, password: Seq<char>) -> bool {
    if given matches Some(p) && p@.len() > 0 {
        generated is None && password == given->0@
    } else {
        &&& generated matches Some(g)
        &&& generated->0@ == password
        &&& password.len() == 32
        &&& forall|k: int| 0 <= k < 32 ==> #[trigger] is_lower_hex_char(password[k])
    }
}

/// What is stated of newly made credentials for password `password`: the
/// stored hash is the password's digest, the key is 32 bytes, and the
/// configuration holds both in hex and decodes back to them.
pub open spec fn credentials_for(c: NewCredentials, password: Seq<char>) -> bool {
    &&& c.password_hash@ == spec_sha256(vstd::utf8::encode_utf8(password))
    &&& c.config.password_hash@ == hex_encode(c.password_hash@)
    &&& c.config.jwt_key@ == hex_encode(c.jwt_key@)
    &&& hex_prefix_ok(c.config.password_hash@, 32)
    &&& hex_prefix_ok(c.config.jwt_key@, 32)
    &&& encode_utf8(c.config.password_hash@).len() == 64
    &&& encode_utf8(c.config.jwt_key@).len() == 64
    &&& hex_decoded(c.config.password_hash@) == c.password_hash@
    &&& hex_decoded(c.config.jwt_key@) == c.jwt_key@
}

proof fn lemma_stored_hex(s: Seq<char>, b: Seq<u8>)
    requires
        b.len() == 32,
        s == hex_encode(b),
    ensures
        hex_prefix_ok(s, 32),
        encode_utf8(s).len() == 64,
        hex_decoded(s) == b,
{
    lemma_hex_round_trip(s, b);
}

fn key_array(v: &Vec<u8>) -> (a: [u8; 32])
    requires
        v@.len() == 32,
    ensures
        a@ == v@,
{
    let mut a = [0u8; 32];
    let mut i: usize = 0;
    while i < 32
        invariant
            i <= 32,
            v@.len() == 32,
            forall|j: int| 0 <= j < i ==> a@[j] == v@[j],
        decreases 32 - i,
    {
        a[i] = v[i];
        i = i + 1;
    }
    assert(a@ =~= v@);
    a
}

/// Makes credentials for `password`: its SHA-256 digest and a fresh random
/// 32-byte signing key, with their hex texts.
pub fn credentials_for_password(password: &str) -> (c: NewCredentials)
    ensures
        credentials_for(c, password@),
        c.generated_password is None,
{
    let password_hash = sha256(password.as_bytes());
    let key = generate_random_bytes(32);
    let jwt_key = key_array(&key);
    let config = AuthConfig {
        password_hash: bytes_to_hex(&password_hash),
        jwt_key: bytes_to_hex(&jwt_key),
    };
    proof {
        lemma_stored_hex(config.password_hash@, password_hash@);
        lemma_stored_hex(config.jwt_key@, jwt_key@);
    }
    NewCredentials { config, password_hash, jwt_key, generated_password: None }
}

/// Makes first credentials: for the given password when it is not empty,
/// else for a generated 32-digit one (reported back so that it can be shown
/// once).
pub fn new_credentials(given_password: Option<String>) -> (c: NewCredentials)
    ensures
        exists|p: Seq<char>| chosen_password(given_password, c.generated_password, p) && credentials_for(c, p),
{
    match given_password {
        Some(p) => {
            if !p.as_str().is_empty() {
                let c = credentials_for_password(p.as_str());
                assert(chosen_password(given_password, c.generated_password, p@));
                return c;
            }
        },
        None => {},
    }
    let generated = generate_password(32);
    let c = credentials_for_password(generated.as_str());
    let ghost g = generated@;
    let c = NewCredentials { generated_password: Some(generated), ..c };
    assert(chosen_password(given_password, c.generated_password, g));
    assert(credentials_for(c, g));
    c
}

/// How the authentication state was set up.
pub struct InitAuth {
    pub core: AuthCore,
    /// Credentials that were made because none could be used; they must be
    /// stored.
    pub created: Option<NewCredentials>,
    /// Why the stored credentials were not used, when they were there but
    /// could not be decoded.
    pub rejected: Option<CredentialError>,
}

/// Sets up authentication from the stored credentials when there are any
/// and they decode; otherwise from new credentials (for `given_password`
/// when it is not empty), which the caller stores.
pub fn init_auth(loaded: Option<AuthConfig>, given_password: Option<String>) -> (r: InitAuth)
    ensures
        r.core.login_guards@ == Map::<ClientAddr, LoginGuard>::empty(),
        r.core.failed_auth_guards@ == Map::<ClientAddr, LoginGuard>::empty(),
        r.core.reset_guards@ == Map::<ClientAddr, LoginGuard>::empty(),
        r.core.reset_codes@ == Map::<Seq<char>, ResetCodeEntry>::empty(),
        match loaded {
            Some(c) => {
                &&& (r.rejected is None) <==> (r.created is None)
                &&& r.created is None ==> {
                    &&& hex_prefix_ok(c.password_hash@, 32)
                    &&& hex_prefix_ok(c.jwt_key@, 32)
                    &&& encode_utf8(c.password_hash@).len() == 64
                    &&& encode_utf8(c.jwt_key@).len() == 64
                    &&& r.core.password_hash@ == hex_decoded(c.password_hash@)
                    &&& r.core.jwt_key@ == hex_decoded(c.jwt_key@)
                }
                &&& r.rejected matches Some(e) ==> credentials_fail_with(c, e)
            },
            None => r.rejected is None && r.created is Some,
        },
        r.created matches Some(n) ==> {
            &&& exists|p: Seq<char>| chosen_password(given_password, n.generated_password, p) && credentials_for(n, p)
            &&& r.core.password_hash == n.password_hash
            &&& r.core.jwt_key@ == n.jwt_key@
        },
{
    match loaded {
        Some(config) => {
            match credentials_from_config(&config) {
                Ok((h, k)) => {
                    return InitAuth { core: build_auth_state(h, k), created: None, rejected: None };
                },
                Err(e) => {
                    let n = new_credentials(given_password);
                    let core = build_auth_state(n.password_hash, n.jwt_key);
                    return InitAuth { core, created: Some(n), rejected: Some(e) };
                },
            }
        },
        None => {
            let n = new_credentials(given_password);
            let core = build_auth_state(n.password_hash, n.jwt_key);
            InitAuth { core, created: Some(n), rejected: None }
        },
    }
}

// ---------------------------------------------------------------------------
// Passwords
// ---------------------------------------------------------------------------

/// The length in bytes of the UTF-8 text of `s` (what `str::len` counts).
pub open spec fn byte_len(s: Seq<char>) -> usize {
    encode_utf8(s).len() as usize
}

/// `password` is the current password: its SHA-256 digest is the stored one.
pub open spec fn password_matches(core: &AuthCore, password: Seq<char>) -> bool {
    spec_sha256(encode_utf8(password)) == core.password_hash@
}

/// Whether `password` is the current password (compared by digest, in
/// constant time).
pub fn check_password(core: &AuthCore, password: &str) -> (r: bool)
    ensures
        r == password_matches(core, password@),
{
    let h = sha256(password.as_bytes());
    constant_time_eq(&h, &core.password_hash)
}

/// Replaces the password hash and the signing key by new credentials; every
/// token signed with the old key stops being accepted.
pub fn apply_credentials(core: &mut AuthCore, c: &NewCredentials)
    ensures
        final(core).password_hash == c.password_hash,
        final(core).jwt_key@ == c.jwt_key@,
        final(core).login_guards@ == old(core).login_guards@,
        final(core).failed_auth_guards@ == old(core).failed_auth_guards@,
        final(core).reset_guards@ == old(core).reset_guards@,
        final(core).reset_codes@ == old(core).reset_codes@,
{
    core.password_hash = c.password_hash;
    let mut key: Vec<u8> = Vec::new();
    let mut i: usize = 0;
    while i < 32
        invariant
            i <= 32,
            key@ == c.jwt_key@.subrange(0, i as int),
        decreases 32 - i,
    {
        key.push(c.jwt_key[i]);
        i = i + 1;
    }
    assert(c.jwt_key@.subrange(0, 32) =~= c.jwt_key@);
    core.jwt_key = key;
}

/// Why a password change was refused.
#[derive(Clone, Copy, Debug, PartialEq, Eq, Structural)]
pub enum ChangePasswordError {
    IncorrectCurrent,
    TooShort,
}

impl ChangePasswordError {
    /// The text shown to the user.
    pub fn message(&self) -> (m: String)
        ensures
            m@ == (match self {
                ChangePasswordError::IncorrectCurrent => "current password is incorrect"@,
                ChangePasswordError::TooShort => "new password must be at least 6 characters"@,
            }),
    {
        match self {
            ChangePasswordError::IncorrectCurrent => "current password is incorrect".to_string(),
            ChangePasswordError::TooShort => "new password must be at least 6 characters".to_string(),
        }
    }
}

/// Checks a password change: the current password must be given correctly,
/// then the new one must be at least 6 bytes long. On success, returns new
/// credentials for the new password (with a fresh signing key), to be
/// stored and then applied.
pub fn change_password(core: &AuthCore, current: &str, new: &str) -> (r: Result<NewCredentials, ChangePasswordError>)
    ensures
        !password_matches(core, current@) <==> r matches Err(ChangePasswordError::IncorrectCurrent),
        (password_matches(core, current@) && byte_len(new@) < MIN_PASSWORD_LEN)
            <==> r matches Err(ChangePasswordError::TooShort),
        r matches Ok(c) ==> credentials_for(c, new@) && c.generated_password is None,
{
    if !check_password(core, current) {
        return Err(ChangePasswordError::IncorrectCurrent);
    }
    if new.len() < MIN_PASSWORD_LEN {
        return Err(ChangePasswordError::TooShort);
    }
    Ok(credentials_for_password(new))
}

// ---------------------------------------------------------------------------
// Session tokens
// ---------------------------------------------------------------------------

/// The HS256-signed JWT, with the default header, whose claims object holds
/// `exp` and `iat` (in that order).
pub uninterp spec fn spec_jwt_encode(exp: i64, iat: i64, key: Seq<u8>) -> Seq<char>;

#[verifier::external_type_specification]
#[verifier::external_body]
pub struct ExJwtError(jsonwebtoken::errors::Error);

/// The claims of `token` when it passes `jsonwebtoken::decode` under `key`
/// with the default validation but for the expiry check (an HS256
/// signature by `key`, an `exp` claim that is a non-negative integer), read
/// as integer claims in order of name; `None` when it does not pass.
pub uninterp spec fn spec_jwt_claims(token: Seq<char>, key: Seq<u8>) -> Option<Seq<(Seq<char>, i64)>>;

/// The view of decoded claims.
pub open spec fn claim_pairs_view(r: Option<Vec<(String, i64)>>) -> Option<Seq<(Seq<char>, i64)>> {
    match r {
        Some(v) => Some(pairs_view(v@)),
        None => None,
    }
}

/// The view of a list of named integer claims.
pub open spec fn pairs_view(v: Seq<(String, i64)>) -> Seq<(Seq<char>, i64)> {
    v.map_values(|p: (String, i64)| (p.0@, p.1))
}

/// The claims object `{"exp": exp, "iat": iat}` as the decoder reads it.
pub open spec fn issued_claims(exp: i64, iat: i64) -> Seq<(Seq<char>, i64)> {
    seq![("exp"@, exp), ("iat"@, iat)]
}

/// Signs a token with claims `{"exp": exp, "iat": iat}` under `key` with
/// HS256 and the default header (`jsonwebtoken::encode`). With an HMAC key
/// and the default (HS256) header the call cannot fail; the token is the
/// named function `spec_jwt_encode` of the claims and the key, and decoding
/// it under the same key (its `exp` being non-negative) reads back exactly
/// these two claims.
#[verifier::external_body]
fn jwt_encode(exp: i64, iat: i64, key: &[u8]) -> (r: Result<String, jsonwebtoken::errors::Error>)
    ensures
        r is Ok,
        r matches Ok(t) ==> t@ == spec_jwt_encode(exp, iat, key@),
        r matches Ok(t) ==> (exp >= 0 ==> spec_jwt_claims(t@, key@) == Some(issued_claims(exp, iat))),
{
    let mut claims: BTreeMap<&str, i64> = BTreeMap::new();
    claims.insert("exp", exp);
    claims.insert("iat", iat);
    jsonwebtoken::encode(
        &jsonwebtoken::Header::default(),
        &claims,
        &jsonwebtoken::EncodingKey::from_secret(key),
    )
}

/// Decodes `token` under `key` with `jsonwebtoken::decode` and the default
/// validation with its expiry check turned off, reading the claims as a map
/// of integers; the result is the named function `spec_jwt_claims` of the
/// token and the key. (A claim that is not an integer makes the map, and so
/// the decoding, fail.)
#[verifier::external_body]
fn jwt_decode_claims(token: &str, key: &[u8]) -> (r: Option<Vec<(String, i64)>>)
    ensures
        claim_pairs_view(r) == spec_jwt_claims(token@, key@),
{
    let mut validation = jsonwebtoken::Validation::default();
    validation.validate_exp = false;
    match jsonwebtoken::decode::<BTreeMap<String, i64>>(token, &jsonwebtoken::DecodingKey::from_secret(key), &validation) {
        Ok(data) => Some(data.claims.into_iter().collect()),
        Err(_) => None,
    }
}

/// Seconds of grace after `exp` during which a token is still accepted
/// (the default leeway of `jsonwebtoken`'s validation).
pub const EXP_LEEWAY_SECS: i64 = 60;

/// The value of the first claim called `name`.
pub open spec fn claim_lookup(cs: Seq<(Seq<char>, i64)>, name: Seq<char>) -> Option<i64>
    decreases cs.len(),
{
    if cs.len() == 0 {
        None
    } else if cs[0].0 == name {
        Some(cs[0].1)
    } else {
        claim_lookup(cs.drop_first(), name)
    }
}

/// The session claims among decoded claims: both `exp` and `iat` must be
/// there.
pub open spec fn claims_of(cs: Seq<(Seq<char>, i64)>) -> Option<Claims> {
    match (claim_lookup(cs, "exp"@), claim_lookup(cs, "iat"@)) {
        (Some(e), Some(i)) => Some(Claims { exp: e, iat: i }),
        _ => None,
    }
}

/// `token` is accepted under `key` at wall-clock time `now`: it decodes, it
/// carries both session claims, and it has not been expired for longer
/// than the leeway.
pub open spec fn token_accepted(token: Seq<char>, key: Seq<u8>, now: i128) -> bool {
    match spec_jwt_claims(token, key) {
        Some(cs) => match claims_of(cs) {
            Some(c) => c.exp + EXP_LEEWAY_SECS >= unix_secs(now),
            None => false,
        },
        None => false,
    }
}

proof fn lemma_issued_claims(exp: i64, iat: i64)
    ensures
        claims_of(issued_claims(exp, iat)) == Some(Claims { exp, iat }),
{
    reveal_strlit("exp");
    reveal_strlit("iat");
    let cs = issued_claims(exp, iat);
    assert("exp"@ != "iat"@) by {
        assert("exp"@[0] != "iat"@[0]);
    }
    assert(cs.drop_first() =~= seq![("iat"@, iat)]);
    assert(cs.drop_first().drop_first() =~= Seq::<(Seq<char>, i64)>::empty());
    assert(claim_lookup(cs, "exp"@) == Some(exp));
    assert(claim_lookup(cs.drop_first(), "iat"@) == Some(iat));
    assert(claim_lookup(cs, "iat"@) == Some(iat));
}

fn claim_value(cs: &Vec<(String, i64)>, name: &str) -> (r: Option<i64>)
    ensures
        r == claim_lookup(pairs_view(cs@), name@),
{
    let ghost v = pairs_view(cs@);
    assert(v.subrange(0, v.len() as int) =~= v);
    let mut i: usize = 0;
    while i < cs.len()
        invariant
            v == pairs_view(cs@),
            i <= cs@.len(),
            claim_lookup(v, name@) == claim_lookup(v.subrange(i as int, v.len() as int), name@),
        decreases cs@.len() - i,
    {
        let ghost rest = v.subrange(i as int, v.len() as int);
        assert(rest[0] == v[i as int]);
        assert(rest.drop_first() =~= v.subrange(i + 1, v.len() as int));
        if str_eq(cs[i].0.as_str(), name) {
            return Some(cs[i].1);
        }
        i = i + 1;
    }
    None
}

/// Whether `token` is accepted under `key` at wall-clock time `now`.
fn token_valid(token: &str, key: &[u8], now: i128) -> (r: bool)
    requires
        wall_in_range(now),
    ensures
        r == token_accepted(token@, key@, now),
{
    let cs = match jwt_decode_claims(token, key) {
        Some(cs) => cs,
        None => return false,
    };
    let exp = match claim_value(&cs, "exp") {
        Some(e) => e,
        None => return false,
    };
    match claim_value(&cs, "iat") {
        Some(_) => {},
        None => return false,
    }
    (exp as i128) + (EXP_LEEWAY_SECS as i128) >= (unix_timestamp(now) as i128)
}

/// The claims of a token issued at wall-clock time `now`.
pub open spec fn claims_at(now: i128) -> Claims {
    Claims { iat: unix_secs(now) as i64, exp: (unix_secs(now) + TOKEN_TTL_SECS) as i64 }
}

/// The outcome of a login attempt.
#[derive(Debug)]
pub enum LoginOutcome {
    /// The client has used up its login attempts for the current window.
    TooManyRequests,
    /// The password is wrong.
    InvalidPassword,
    /// The token could not be signed (which `jwt_encode` rules out for an
    /// HMAC key; the web interface answers it as an internal error).
    Internal,
    /// A session token.
    Token(String),
}

/// The login guards once expired windows are dropped and the attempt of
/// `addr` at `now` is counted.
pub open spec fn login_guards_after(guards: Map<ClientAddr, LoginGuard>, addr: ClientAddr, now: u64) -> Map<ClientAddr, LoginGuard> {
    rate_checked(pruned(guards, LOGIN_WINDOW_SECS, now), addr, MAX_LOGIN_ATTEMPTS_PER_IP, LOGIN_WINDOW_SECS, now)
}

/// Whether the login attempt of `addr` at `now` is within its limit.
pub open spec fn login_allowed(guards: Map<ClientAddr, LoginGuard>, addr: ClientAddr, now: u64) -> bool {
    rate_allows(pruned(guards, LOGIN_WINDOW_SECS, now), addr, MAX_LOGIN_ATTEMPTS_PER_IP, LOGIN_WINDOW_SECS, now)
}

/// Handles a login: drops expired login windows, counts the attempt of
/// `addr` (at most 10 per 60 s), checks the password, and issues a token
/// valid for 24 hours. A successful login forgets the client's attempts.
pub fn login_handler(core: &mut AuthCore, addr: ClientAddr, body: &LoginRequest, mono_now: u64, wall_now: i128) -> (r: LoginOutcome)
    requires
        wall_in_range(wall_now),
    ensures
        final(core).password_hash == old(core).password_hash,
        final(core).jwt_key@ == old(core).jwt_key@,
        final(core).failed_auth_guards@ == old(core).failed_auth_guards@,
        final(core).reset_guards@ == old(core).reset_guards@,
        final(core).reset_codes@ == old(core).reset_codes@,
        !login_allowed(old(core).login_guards@, addr, mono_now) ==> r is TooManyRequests
            && final(core).login_guards@ == login_guards_after(old(core).login_guards@, addr, mono_now),
        login_allowed(old(core).login_guards@, addr, mono_now) && !password_matches(&*old(core), body.password@)
            ==> r is InvalidPassword
            && final(core).login_guards@ == login_guards_after(old(core).login_guards@, addr, mono_now),
        login_allowed(old(core).login_guards@, addr, mono_now) && password_matches(&*old(core), body.password@) ==> {
            &&& r matches LoginOutcome::Token(t) && t@ == spec_jwt_encode(
                claims_at(wall_now).exp,
                claims_at(wall_now).iat,
                old(core).jwt_key@,
            )
            &&& final(core).login_guards@ == login_guards_after(old(core).login_guards@, addr, mono_now).remove(addr)
        },
        // The token is accepted under the current key until its expiry
        // (plus the leeway) has passed.
        r matches LoginOutcome::Token(t) ==> (claims_at(wall_now).exp >= 0 ==> forall|later: i128|
            wall_in_range(later) && unix_secs(later) <= claims_at(wall_now).exp + EXP_LEEWAY_SECS
                ==> #[trigger] token_accepted(t@, old(core).jwt_key@, later)),
{
    prune_expired(&mut core.login_guards, LOGIN_WINDOW_SECS, mono_now);
    if !check_rate_limit(&mut core.login_guards, addr, MAX_LOGIN_ATTEMPTS_PER_IP, LOGIN_WINDOW_SECS, mono_now) {
        return LoginOutcome::TooManyRequests;
    }
    if !check_password(core, body.password.as_str()) {
        return LoginOutcome::InvalidPassword;
    }
    let iat = unix_timestamp(wall_now);
    let claims = Claims { iat, exp: iat + TOKEN_TTL_SECS };
    let token = match jwt_encode(claims.exp, claims.iat, core.jwt_key.as_slice()) {
        Ok(t) => t,
        Err(_) => return LoginOutcome::Internal,
    };
    proof {
        lemma_issued_claims(claims.exp, claims.iat);
    }
    core.login_guards.remove(&addr);
    LoginOutcome::Token(token)
}

/// The characters of an optional header value.
pub open spec fn header_view(h: Option<&str>) -> Option<Seq<char>> {
    match h {
        Some(v) => Some(v@),
        None => None,
    }
}

/// The token carried by an `Authorization` header value of the form
/// `Bearer <token>`.
pub open spec fn bearer_token(authorization: Option<Seq<char>>) -> Option<Seq<char>> {
    match authorization {
        Some(h) => if h.len() >= 7 && h.subrange(0, 7) == "Bearer "@ {
            Some(h.subrange(7, h.len() as int))
        } else {
            None
        },
        None => None,
    }
}

/// The text after `Bearer ` in an `Authorization` header value.
pub fn strip_bearer(authorization: Option<&str>) -> (r: Option<&str>)
    ensures
        r matches Some(t) ==> bearer_token(header_view(authorization)) == Some(t@),
        r is None ==> bearer_token(header_view(authorization)) is None,
{
    let prefix = "Bearer ";
    proof {
        reveal_strlit("Bearer ");
    }
    match authorization {
        None => None,
        Some(h) => {
            let n = h.unicode_len();
            if n < 7 {
                return None;
            }
            let mut i: usize = 0;
            while i < 7
                invariant
                    i <= 7,
                    n == h@.len(),
                    n >= 7,
                    prefix@ == "Bearer "@,
                    prefix@.len() == 7,
                    authorization == Some(h),
                    forall|j: int| 0 <= j < i ==> h@[j] == prefix@[j],
                decreases 7 - i,
            {
                if h.get_char(i) != prefix.get_char(i) {
                    assert(h@.subrange(0, 7)[i as int] != "Bearer "@[i as int]);
                    assert(h@.subrange(0, 7) != "Bearer "@);
                    assert(header_view(authorization) == Some(h@));
                    assert(bearer_token(header_view(authorization)) is None);
                    return None;
                }
                i = i + 1;
            }
            assert(h@.subrange(0, 7) =~= "Bearer "@);
            Some(h.substring_char(7, n))
        },
    }
}

/// Why a request was not authenticated.
#[derive(Clone, Copy, Debug, PartialEq, Eq, Structural)]
pub enum AuthFailure {
    TooManyRequests,
    Unauthorized,
}

/// The failed-check guards and the answer after a failed token check of a
/// request from `addr` (when the address is known) at `now`.
pub open spec fn failed_auth(guards: Map<ClientAddr, LoginGuard>, addr: Option<ClientAddr>, now: u64) -> (AuthFailure, Map<ClientAddr, LoginGuard>) {
    match addr {
        None => (AuthFailure::Unauthorized, guards),
        Some(a) => {
            let p = pruned(guards, FAILED_AUTH_WINDOW_SECS, now);
            let g = rate_checked(p, a, MAX_FAILED_AUTH_PER_IP, FAILED_AUTH_WINDOW_SECS, now);
            if rate_allows(p, a, MAX_FAILED_AUTH_PER_IP, FAILED_AUTH_WINDOW_SECS, now) {
                (AuthFailure::Unauthorized, g)
            } else {
                (AuthFailure::TooManyRequests, g)
            }
        },
    }
}

fn record_failed_auth(core: &mut AuthCore, addr: Option<ClientAddr>, now: u64) -> (r: AuthFailure)
    ensures
        (r, final(core).failed_auth_guards@) == failed_auth(old(core).failed_auth_guards@, addr, now),
        final(core).password_hash == old(core).password_hash,
        final(core).jwt_key@ == old(core).jwt_key@,
        final(core).login_guards@ == old(core).login_guards@,
        final(core).reset_guards@ == old(core).reset_guards@,
        final(core).reset_codes@ == old(core).reset_codes@,
{
    match addr {
        None => AuthFailure::Unauthorized,
        Some(a) => {
            prune_expired(&mut core.failed_auth_guards, FAILED_AUTH_WINDOW_SECS, now);
            if !check_rate_limit(&mut core.failed_auth_guards, a, MAX_FAILED_AUTH_PER_IP, FAILED_AUTH_WINDOW_SECS, now) {
                AuthFailure::TooManyRequests
            } else {
                AuthFailure::Unauthorized
            }
        },
    }
}

/// Checks the bearer token of a request at wall-clock time `wall_now`: it
/// must decode under the current key, carry `exp` and `iat`, and not have
/// been expired for longer than the leeway. A request without one, or whose
/// token is refused, counts as a failed check of its client (at most 30 per
/// 60 s are answered `Unauthorized`, later ones `TooManyRequests`).
pub fn require_auth(
    core: &mut AuthCore,
    authorization: Option<&str>,
    addr: Option<ClientAddr>,
    mono_now: u64,
    wall_now: i128,
) -> (r: Result<(), AuthFailure>)
    requires
        wall_in_range(wall_now),
    ensures
        final(core).password_hash == old(core).password_hash,
        final(core).jwt_key@ == old(core).jwt_key@,
        final(core).login_guards@ == old(core).login_guards@,
        final(core).reset_guards@ == old(core).reset_guards@,
        final(core).reset_codes@ == old(core).reset_codes@,
        r is Ok <==> (bearer_token(header_view(authorization)) matches Some(t) && token_accepted(
            t,
            old(core).jwt_key@,
            wall_now,
        )),
        r is Ok ==> final(core).failed_auth_guards@ == old(core).failed_auth_guards@,
        r matches Err(f) ==> (f, final(core).failed_auth_guards@) == failed_auth(old(core).failed_auth_guards@, addr, mono_now),
{
    match strip_bearer(authorization) {
        None => Err(record_failed_auth(core, addr, mono_now)),
        Some(token) => {
            if token_valid(token, core.jwt_key.as_slice(), wall_now) {
                Ok(())
            } else {
                Err(record_failed_auth(core, addr, mono_now))
            }
        },
    }
}

// ---------------------------------------------------------------------------
// Password reset
// ---------------------------------------------------------------------------

/// Issues a new 6-digit reset code to `admin_id` at wall-clock time `now`:
/// dead codes and the admin's other codes are dropped first.
pub fn generate_reset_code(core: &mut AuthCore, admin_id: i64, wall_now: i128) -> (code: String)
    requires
        wall_in_range(wall_now),
    ensures
        code@.len() == 6,
        forall|k: int| 0 <= k < 6 ==> #[trigger] is_lower_hex_char(code@[k]),
        final(core).reset_codes@ == issued(old(core).reset_codes@, code@, admin_id, wall_now),
        final(core).password_hash == old(core).password_hash,
        final(core).jwt_key@ == old(core).jwt_key@,
        final(core).login_guards@ == old(core).login_guards@,
        final(core).failed_auth_guards@ == old(core).failed_auth_guards@,
        final(core).reset_guards@ == old(core).reset_guards@,
{
    let code = generate_password(6);
    core.reset_codes.issue_reset_code(code.clone(), admin_id, wall_now);
    code
}

/// Why a password reset was refused.
#[derive(Clone, Copy, Debug, PartialEq, Eq, Structural)]
pub enum ResetError {
    /// The client has used up its reset attempts for the current window.
    TooManyRequests,
    /// The new password is shorter than 6 bytes.
    TooShort,
    /// The code was not accepted.
    Code(RedeemError),
}

/// The text shown for a refused reset.
pub open spec fn reset_error_text(e: ResetError) -> Seq<char> {
    match e {
        ResetError::TooManyRequests => "too many attempts, try again later"@,
        ResetError::TooShort => "new password must be at least 6 characters"@,
        ResetError::Code(RedeemError::InvalidOrExpired) => "invalid or expired reset code"@,
        ResetError::Code(RedeemError::AlreadyUsed) => "reset code already used"@,
        ResetError::Code(RedeemError::Expired) => "reset code expired"@,
    }
}

impl ResetError {
    /// The HTTP status the refusal is reported with.
    pub fn status(&self) -> (s: u16)
        ensures
            s == (if *self is TooManyRequests { 429u16 } else { 400u16 }),
    {
        match self {
            ResetError::TooManyRequests => 429,
            _ => 400,
        }
    }

    /// The text shown to the user.
    pub fn message(&self) -> (m: String)
        ensures
            m@ == reset_error_text(*self),
    {
        match self {
            ResetError::TooManyRequests => "too many attempts, try again later".to_string(),
            ResetError::TooShort => "new password must be at least 6 characters".to_string(),
            ResetError::Code(RedeemError::InvalidOrExpired) => "invalid or expired reset code".to_string(),
            ResetError::Code(RedeemError::AlreadyUsed) => "reset code already used".to_string(),
            ResetError::Code(RedeemError::Expired) => "reset code expired".to_string(),
        }
    }
}

/// Whether the reset attempt of `addr` at `now` is within its limit.
pub open spec fn reset_allowed(guards: Map<ClientAddr, LoginGuard>, addr: ClientAddr, now: u64) -> bool {
    rate_allows(pruned(guards, RESET_IP_WINDOW_SECS, now), addr, MAX_RESET_ATTEMPTS_PER_IP, RESET_IP_WINDOW_SECS, now)
}

/// The reset guards once expired windows are dropped and the attempt of
/// `addr` at `now` is counted.
pub open spec fn reset_guards_after(guards: Map<ClientAddr, LoginGuard>, addr: ClientAddr, now: u64) -> Map<ClientAddr, LoginGuard> {
    rate_checked(pruned(guards, RESET_IP_WINDOW_SECS, now), addr, MAX_RESET_ATTEMPTS_PER_IP, RESET_IP_WINDOW_SECS, now)
}

/// Checks a password reset: the client's attempt is counted (at most 5 per
/// 300 s), the new password must be at least 6 bytes, and the code must be
/// live; it is then marked used. On success, returns new credentials for
/// the new password and the admin the code was issued to; the credentials
/// are to be stored and then applied with `finish_password_reset`.
pub fn reset_password_with_code(
    core: &mut AuthCore,
    addr: ClientAddr,
    code: &str,
    new: &str,
    mono_now: u64,
    wall_now: i128,
) -> (r: Result<(NewCredentials, i64), ResetError>)
    requires
        wall_in_range(wall_now),
    ensures
        final(core).password_hash == old(core).password_hash,
        final(core).jwt_key@ == old(core).jwt_key@,
        final(core).login_guards@ == old(core).login_guards@,
        final(core).failed_auth_guards@ == old(core).failed_auth_guards@,
        final(core).reset_guards@ == reset_guards_after(old(core).reset_guards@, addr, mono_now),
        !reset_allowed(old(core).reset_guards@, addr, mono_now) ==> r == Err::<(NewCredentials, i64), ResetError>(ResetError::TooManyRequests)
            && final(core).reset_codes@ == old(core).reset_codes@,
        reset_allowed(old(core).reset_guards@, addr, mono_now) && byte_len(new@) < MIN_PASSWORD_LEN
            ==> r == Err::<(NewCredentials, i64), ResetError>(ResetError::TooShort)
            && final(core).reset_codes@ == old(core).reset_codes@,
        reset_allowed(old(core).reset_guards@, addr, mono_now) && byte_len(new@) >= MIN_PASSWORD_LEN ==> {
            &&& final(core).reset_codes@ == redeemed(old(core).reset_codes@, code@, wall_now).1
            &&& match redeemed(old(core).reset_codes@, code@, wall_now).0 {
                Ok(admin) => r matches Ok((c, a)) && a == admin && credentials_for(c, new@)
                    && c.generated_password is None,
                Err(e) => r == Err::<(NewCredentials, i64), ResetError>(ResetError::Code(e)),
            }
        },
{
    prune_expired(&mut core.reset_guards, RESET_IP_WINDOW_SECS, mono_now);
    if !check_rate_limit(&mut core.reset_guards, addr, MAX_RESET_ATTEMPTS_PER_IP, RESET_IP_WINDOW_SECS, mono_now) {
        return Err(ResetError::TooManyRequests);
    }
    if new.len() < MIN_PASSWORD_LEN {
        return Err(ResetError::TooShort);
    }
    let admin_id = match core.reset_codes.redeem(code, wall_now) {
        Ok(a) => a,
        Err(e) => return Err(ResetError::Code(e)),
    };
    Ok((credentials_for_password(new), admin_id))
}

/// Completes a reset once its credentials are stored: they replace the
/// current ones and the client's reset attempts are forgotten.
pub fn finish_password_reset(core: &mut AuthCore, addr: ClientAddr, c: &NewCredentials)
    ensures
        final(core).password_hash == c.password_hash,
        final(core).jwt_key@ == c.jwt_key@,
        final(core).reset_guards@ == old(core).reset_guards@.remove(addr),
        final(core).login_guards@ == old(core).login_guards@,
        final(core).failed_auth_guards@ == old(core).failed_auth_guards@,
        final(core).reset_codes@ == old(core).reset_codes@,
{
    apply_credentials(core, c);
    core.reset_guards.remove(&addr);
}

// ---------------------------------------------------------------------------
// Laws
// ---------------------------------------------------------------------------

/// After new credentials for a password are applied, that password is the
/// current one.
pub proof fn lemma_new_password_accepted(after: &AuthCore, c: NewCredentials, password: Seq<char>)
    requires
        credentials_for(c, password),
        after.password_hash == c.password_hash,
    ensures
        password_matches(after, password),
{
}

/// A client that logged in successfully starts its next login window
/// afresh: its next attempt is let through.
pub proof fn lemma_login_success_forgets_attempts(guards: Map<ClientAddr, LoginGuard>, addr: ClientAddr, now: u64, later: u64)
    ensures
        login_allowed(login_guards_after(guards, addr, now).remove(addr), addr, later),
{
    let g = login_guards_after(guards, addr, now).remove(addr);
    assert(!pruned(g, LOGIN_WINDOW_SECS, later).contains_key(addr));
}


/// At most 10 logins of one client reach the password check per window:
/// of a run of logins from `addr` that get no token (each leaves the guards
/// as `login_guards_after` and reaches the password check when
/// `login_allowed`), all made while the 60 s window that the first of them
/// left open is still open, at most 10 are let through the limit.
pub proof fn lemma_login_attempts_bounded(guards: Map<ClientAddr, LoginGuard>, addr: ClientAddr, times: Seq<u64>)
    requires
        times.len() >= 1,
        forall|i: int|
            0 <= i < times.len() ==> mono_elapsed_secs(
                #[trigger] times[i],
                run_window_start(guards, addr, MAX_LOGIN_ATTEMPTS_PER_IP, LOGIN_WINDOW_SECS, times),
            ) <= LOGIN_WINDOW_SECS,
    ensures
        passes(guards, addr, MAX_LOGIN_ATTEMPTS_PER_IP, LOGIN_WINDOW_SECS, times) <= MAX_LOGIN_ATTEMPTS_PER_IP,
{
    lemma_run_bounded(guards, addr, MAX_LOGIN_ATTEMPTS_PER_IP, LOGIN_WINDOW_SECS, times);
}

/// At most 5 password resets of one client get past the limit per window:
/// of a run of resets from `addr` that do not succeed (each leaves the
/// guards as `reset_guards_after` and gets past the limit when
/// `reset_allowed`), all made while the 300 s window that the first of them
/// left open is still open, at most 5 are let through.
pub proof fn lemma_reset_attempts_bounded(guards: Map<ClientAddr, LoginGuard>, addr: ClientAddr, times: Seq<u64>)
    requires
        times.len() >= 1,
        forall|i: int|
            0 <= i < times.len() ==> mono_elapsed_secs(
                #[trigger] times[i],
                run_window_start(guards, addr, MAX_RESET_ATTEMPTS_PER_IP, RESET_IP_WINDOW_SECS, times),
            ) <= RESET_IP_WINDOW_SECS,
    ensures
        passes(guards, addr, MAX_RESET_ATTEMPTS_PER_IP, RESET_IP_WINDOW_SECS, times) <= MAX_RESET_ATTEMPTS_PER_IP,
{
    lemma_run_bounded(guards, addr, MAX_RESET_ATTEMPTS_PER_IP, RESET_IP_WINDOW_SECS, times);
}

} // verus!
