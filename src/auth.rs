//! Credentials and bearer tokens.
//!
//! Passwords are hashed with Argon2id keyed by a process-wide secret.
//! Tokens are `header.payload.signature`, each part in URL-safe base64:
//! the payload is the JSON of the claims, the signature an HMAC-SHA256 of
//! the first two parts under the token secret. Expiry is checked exactly:
//! a token is valid up to and including its `exp` second.

use vstd::prelude::*;
use vstd::string::StringSliceAdditionalSpecFns;
use crate::claims::{
    claims_json, header_json, lemma_claims_round_trip, parse_claims, read_claims, render_claims,
    render_header, Claims, Role,
};
use crate::error::{AppError, AuthErrorCode, Fault};
use crate::text::{char_bytes, str_bytes};

verus! {

/// What the Argon2id verifier keyed with `secret` says of `password`
/// against the hash text `hash`: `None` when the hash cannot be read or the
/// key is refused.
pub uninterp spec fn argon2_verdict(secret: Seq<u8>, password: Seq<u8>, hash: Seq<char>) -> Option<bool>;

/// The URL-safe base64 text, without padding, of some bytes.
pub uninterp spec fn b64url_of(b: Seq<u8>) -> Seq<char>;

/// The bytes that a URL-safe base64 text without padding decodes to.
pub uninterp spec fn b64url_decoded(s: Seq<char>) -> Option<Seq<u8>>;

/// The URL-safe base64 text of the HMAC-SHA256 of `message` under `key`.
pub uninterp spec fn hs256_signature(key: Seq<u8>, message: Seq<u8>) -> Seq<char>;

pub open spec fn is_b64url_char(c: char) -> bool {
    ('A' <= c <= 'Z') || ('a' <= c <= 'z') || ('0' <= c <= '9') || c == '-' || c == '_'
}

/// A text in the URL-safe base64 alphabet.
pub open spec fn b64url_text(s: Seq<char>) -> bool {
    forall|i: int| 0 <= i < s.len() ==> is_b64url_char(#[trigger] s[i])
}

/// Relies on argon2's Argon2id hasher keyed with `secret`
/// (`Argon2::new_with_secret`, then `PasswordHasher::hash_password` with a
/// fresh 16-byte salt from password_hash's `SaltString::generate` over the
/// operating system's random source). The PHC text it returns is accepted
/// by the verifier keyed with the same secret, for the same password. It
/// fails only for a secret or a password longer than `u32::MAX` bytes.
#[verifier::external_body]
fn argon2id_hash(secret: &[u8], password: &[u8]) -> (r: Option<String>)
    ensures
        r is Some ==> argon2_verdict(secret@, password@, r->0@) == Some(true),
        secret@.len() <= u32::MAX && password@.len() <= u32::MAX ==> r is Some,
{
    let hasher = argon2::Argon2::new_with_secret(secret, argon2::Algorithm::Argon2id, argon2::Version::V0x13, argon2::Params::default()).ok()?;
    let salt = argon2::password_hash::SaltString::generate(&mut argon2::password_hash::rand_core::OsRng);
    argon2::PasswordHasher::hash_password(&hasher, password, &salt).ok().map(|h| h.to_string())
}

/// Relies on argon2's verifier keyed with `secret` (`PasswordHash::new`,
/// `Argon2::new_with_secret`, then `PasswordVerifier::verify_password`).
#[verifier::external_body]
fn argon2id_verify(secret: &[u8], password: &[u8], hash: &str) -> (r: Option<bool>)
    ensures
        r == argon2_verdict(secret@, password@, hash@),
{
    let parsed = argon2::PasswordHash::new(hash).ok()?;
    let verifier = argon2::Argon2::new_with_secret(secret, argon2::Algorithm::Argon2id, argon2::Version::V0x13, argon2::Params::default()).ok()?;
    Some(argon2::PasswordVerifier::verify_password(&verifier, password, &parsed).is_ok())
}

/// Relies on base64's `URL_SAFE_NO_PAD` engine (`Engine::encode`): the text
/// uses the URL-safe alphabet, and the same engine decodes it back.
#[verifier::external_body]
fn b64url_encode(b: &[u8]) -> (r: String)
    ensures
        r@ == b64url_of(b@),
        b64url_text(r@),
        b64url_decoded(r@) == Some(b@),
{
    base64::Engine::encode(&base64::engine::general_purpose::URL_SAFE_NO_PAD, b)
}

/// Relies on base64's `URL_SAFE_NO_PAD` engine (`Engine::decode`).
#[verifier::external_body]
fn b64url_decode(s: &str) -> (r: Option<Vec<u8>>)
    ensures
        r is Some <==> b64url_decoded(s@) is Some,
        r is Some ==> r->0@ == b64url_decoded(s@)->0,
{
    base64::Engine::decode(&base64::engine::general_purpose::URL_SAFE_NO_PAD, s).ok()
}

/// Relies on `jsonwebtoken::crypto::sign` with HS256, which for an HMAC
/// algorithm always succeeds and returns the URL-safe base64 text of the
/// HMAC-SHA256 of `message` under `key`.
#[verifier::external_body]
fn hs256_sign(message: &[u8], key: &[u8]) -> (r: Option<String>)
    ensures
        r is Some,
        r->0@ == hs256_signature(key@, message@),
        b64url_text(r->0@),
{
    jsonwebtoken::crypto::sign(message, &jsonwebtoken::EncodingKey::from_secret(key), jsonwebtoken::Algorithm::HS256).ok()
}

/// Relies on `jsonwebtoken::crypto::verify` with HS256, which signs
/// `message` again and compares the two texts in constant time.
#[verifier::external_body]
fn hs256_verify(signature: &str, message: &[u8], key: &[u8]) -> (r: bool)
    ensures
        r == (signature@ == hs256_signature(key@, message@)),
{
    jsonwebtoken::crypto::verify(signature, message, &jsonwebtoken::DecodingKey::from_secret(key), jsonwebtoken::Algorithm::HS256).unwrap_or(false)
}

/// Relies on chrono's `Utc::now`: the current time, in whole seconds
/// since the epoch.
#[verifier::external_body]
fn now_seconds() -> (r: i64) {
    chrono::Utc::now().timestamp()
}

/// Seconds in thirty days, the life of a login or refreshed token.
pub const THIRTY_DAYS: i64 = 2_592_000;

/// Seconds in fifteen minutes, the life of an email-verification token.
pub const FIFTEEN_MINUTES: i64 = 900;

/// The process-wide secrets of the credential store and the token service.
/// Either may be missing, in which case the operations that need it fail.
pub struct Auth {
    pub password_secret: Option<String>,
    pub token_secret: Option<String>,
}

/// The first `.` from `from` on, or `t.len()`.
pub open spec fn find_dot(t: Seq<char>, from: int) -> int
    decreases t.len() - from,
{
    if from >= t.len() {
        t.len() as int
    } else if t[from] == '.' {
        from
    } else {
        find_dot(t, from + 1)
    }
}

/// What checking token `t` at time `now` with the key `secret` gives: its
/// claims, or why it is refused. A token is refused as expired only after
/// its signature and payload have been checked.
pub open spec fn token_outcome(secret: Seq<u8>, t: Seq<char>, now: int) -> Result<Claims, AuthErrorCode> {
    let i = find_dot(t, 0);
    let j = find_dot(t, i + 1);
    if !vstd::utf8::is_ascii_chars(t) || j >= t.len() {
        Err(AuthErrorCode::InvalidCredentials)
    } else if t.subrange(0, i) != b64url_of(header_json()) {
        Err(AuthErrorCode::InvalidCredentials)
    } else if t.subrange(j + 1, t.len() as int) != hs256_signature(secret, char_bytes(t.subrange(0, j))) {
        Err(AuthErrorCode::InvalidCredentials)
    } else {
        match b64url_decoded(t.subrange(i + 1, j)) {
            None => Err(AuthErrorCode::InvalidCredentials),
            Some(v) => match parse_claims(v) {
                None => Err(AuthErrorCode::InvalidCredentials),
                Some(c) => if now > c.exp {
                    Err(AuthErrorCode::TokenExpired)
                } else {
                    Ok(c)
                },
            },
        }
    }
}

/// A token's outcome as an error of the library.
pub open spec fn token_result(secret: Seq<u8>, t: Seq<char>, now: int) -> Result<Claims, AppError> {
    match token_outcome(secret, t, now) {
        Ok(c) => Ok(c),
        Err(code) => Err(AppError::auth(code)),
    }
}

/// What a well-formed token carrying `claims` gives when checked at time
/// `t`: the claims up to their expiry, then `TokenExpired`.
pub open spec fn issued_for(claims: Claims, t: int) -> Result<Claims, AuthErrorCode> {
    if t > claims.exp {
        Err(AuthErrorCode::TokenExpired)
    } else {
        Ok(claims)
    }
}

/// Whenever it is checked, token `t` gives back `c` until `c.exp` and is
/// expired after.
pub open spec fn issued_as(secret: Seq<u8>, t: Seq<char>, c: Claims) -> bool {
    forall|x: int| #[trigger] token_outcome(secret, t, x) == issued_for(c, x)
}

/// Token `t` was issued at `now` for `user_id` with `role`, valid for
/// `ttl` seconds.
pub open spec fn issued_at(secret: Seq<u8>, t: Seq<char>, user_id: i32, role: Role, ttl: i64, now: i64) -> bool {
    issued_as(secret, t, Claims { user_id, role, exp: (now + ttl) as i64, iat: now })
}

/// What refreshing token `t` at `now` may give: the error of `t`, or a
/// token for the same subject and role issued at `now` for thirty days
/// (which only a clock out of range prevents).
pub open spec fn refreshed(secret: Option<String>, t: Seq<char>, now: i64, r: Result<String, AppError>) -> bool {
    let k = secret_bytes(secret);
    &&& secret is None ==> r == Err::<String, AppError>(AppError::Internal(Fault::MissingTokenSecret))
    &&& secret is Some && token_result(k, t, now as int) is Err ==> r == Err::<String, AppError>(
        token_result(k, t, now as int)->Err_0,
    )
    &&& secret is Some && token_result(k, t, now as int) is Ok && now + THIRTY_DAYS <= i64::MAX ==> r is Ok
    &&& r is Ok ==> issued_at(
        k,
        r->Ok_0@,
        token_result(k, t, now as int)->Ok_0.user_id,
        token_result(k, t, now as int)->Ok_0.role,
        THIRTY_DAYS,
        now,
    )
}

/// A password can be hashed: the secret is set, and neither it nor the
/// password is longer than `u32::MAX` bytes.
pub open spec fn hashable(secret: Option<String>, password: Seq<char>) -> bool {
    secret is Some && vstd::utf8::encode_utf8(secret->0@).len() <= u32::MAX
        && vstd::utf8::encode_utf8(password).len() <= u32::MAX
}

pub open spec fn secret_bytes(s: Option<String>) -> Seq<u8> {
    match s {
        Some(k) => vstd::utf8::encode_utf8(k@),
        None => Seq::empty(),
    }
}

/// A token issued at `now` for `ttl` seconds checks out, at any time `at`
/// up to `now + ttl`, to the subject and role it was issued for; after
/// that it is refused as expired. With a positive `ttl` it checks out at
/// the moment of issue; with `ttl` of -1 it is expired at that moment.
pub proof fn lemma_issue_then_verify(
    secret: Seq<u8>,
    t: Seq<char>,
    user_id: i32,
    role: Role,
    ttl: i64,
    now: i64,
    at: int,
)
    requires
        issued_at(secret, t, user_id, role, ttl, now),
        i64::MIN <= now + ttl <= i64::MAX,
    ensures
        at <= now + ttl ==> token_result(secret, t, at) == Ok::<Claims, AppError>(
            Claims { user_id, role, exp: (now + ttl) as i64, iat: now },
        ),
        at > now + ttl ==> token_result(secret, t, at) == Err::<Claims, AppError>(
            AppError::auth(AuthErrorCode::TokenExpired),
        ),
        ttl > 0 ==> token_result(secret, t, now as int) is Ok,
        ttl == -1 ==> token_result(secret, t, now as int) == Err::<Claims, AppError>(
            AppError::auth(AuthErrorCode::TokenExpired),
        ),
{
    assert(token_outcome(secret, t, at) == issued_for(Claims { user_id, role, exp: (now + ttl) as i64, iat: now }, at));
    assert(token_outcome(secret, t, now as int) == issued_for(Claims { user_id, role, exp: (now + ttl) as i64, iat: now }, now as int));
}

proof fn lemma_find_dot(t: Seq<char>, from: int, k: int)
    requires
        0 <= from <= k <= t.len(),
        k < t.len() ==> t[k] == '.',
        forall|i: int| from <= i < k ==> t[i] != '.',
    ensures
        find_dot(t, from) == k,
    decreases k - from,
{
    if from < k {
        lemma_find_dot(t, from + 1, k);
    }
}

/// A token made of three URL-safe base64 parts checks out to the claims
/// in its payload when the signature is the one of its first two parts.
proof fn lemma_issued_token(secret: Seq<u8>, h: Seq<char>, p: Seq<char>, s: Seq<char>, c: Claims, now: int)
    requires
        h == b64url_of(header_json()),
        b64url_text(h),
        b64url_text(p),
        b64url_text(s),
        b64url_decoded(p) == Some(claims_json(c)),
        s == hs256_signature(secret, char_bytes(h + seq!['.'] + p)),
    ensures
        token_outcome(secret, h + seq!['.'] + p + seq!['.'] + s, now) == issued_for(c, now),
{
    let t = h + seq!['.'] + p + seq!['.'] + s;
    let i = h.len() as int;
    let j = i + 1 + p.len();
    assert forall|k: int| 0 <= k < i implies t[k] != '.' by {
        assert(t[k] == h[k]);
        assert(is_b64url_char(h[k]));
    }
    assert(t[i] == '.');
    lemma_find_dot(t, 0, i);
    assert forall|k: int| i + 1 <= k < j implies t[k] != '.' by {
        assert(t[k] == p[k - i - 1]);
        assert(is_b64url_char(p[k - i - 1]));
    }
    assert(t[j] == '.');
    lemma_find_dot(t, i + 1, j);
    assert(vstd::utf8::is_ascii_chars(t)) by {
        assert forall|k: int| 0 <= k < t.len() implies '\0' <= #[trigger] t[k] <= '\u{7f}' by {
            if k < i {
                assert(is_b64url_char(h[k]));
            } else if i < k < j {
                assert(is_b64url_char(p[k - i - 1]));
            } else if k > j {
                assert(t[k] == s[k - j - 1]);
                assert(is_b64url_char(s[k - j - 1]));
            }
        }
    }
    assert(t.subrange(0, i) =~= h);
    assert(t.subrange(i + 1, j) =~= p);
    assert(t.subrange(0, j) =~= h + seq!['.'] + p);
    assert(t.subrange(j + 1, t.len() as int) =~= s);
    lemma_claims_round_trip(c);
}

impl Auth {
    pub fn new(password_secret: Option<String>, token_secret: Option<String>) -> (r: Auth)
        ensures
            r.password_secret == password_secret,
            r.token_secret == token_secret,
    {
        Auth { password_secret, token_secret }
    }

    /// Hashes a password with a fresh salt. The hash it returns is one
    /// that `verify_password` accepts for the same password.
    pub fn hash_password(&self, password: &str) -> (r: Result<String, AppError>)
        ensures
            self.password_secret is None ==> r == Err::<String, AppError>(AppError::Internal(Fault::MissingPasswordSecret)),
            self.password_secret is Some ==> (r is Ok || r == Err::<String, AppError>(AppError::Internal(Fault::PasswordHashing))),
            hashable(self.password_secret, password@) ==> r is Ok,
            r is Ok ==> argon2_verdict(secret_bytes(self.password_secret), password.spec_bytes(), r->Ok_0@) == Some(true),
    {
        let secret = match &self.password_secret {
            None => return Err(AppError::Internal(Fault::MissingPasswordSecret)),
            Some(s) => str_bytes(s.as_str()),
        };
        let pw = str_bytes(password);
        match argon2id_hash(secret.as_slice(), pw.as_slice()) {
            None => Err(AppError::Internal(Fault::PasswordHashing)),
            Some(h) => Ok(h),
        }
    }

    /// Checks a password against a stored hash: `Ok(false)` on a mismatch,
    /// an error when the hash cannot be read.
    pub fn verify_password(&self, password: &str, hash: &str) -> (r: Result<bool, AppError>)
        ensures
            r == match self.password_secret {
                None => Err(AppError::Internal(Fault::MissingPasswordSecret)),
                Some(k) => match argon2_verdict(vstd::utf8::encode_utf8(k@), password.spec_bytes(), hash@) {
                    None => Err(AppError::Internal(Fault::MalformedPasswordHash)),
                    Some(b) => Ok::<bool, AppError>(b),
                },
            },
    {
        let secret = match &self.password_secret {
            None => return Err(AppError::Internal(Fault::MissingPasswordSecret)),
            Some(s) => str_bytes(s.as_str()),
        };
        let pw = str_bytes(password);
        match argon2id_verify(secret.as_slice(), pw.as_slice(), hash) {
            None => Err(AppError::Internal(Fault::MalformedPasswordHash)),
            Some(b) => Ok(b),
        }
    }

    /// Issues a token for `user_id` with `role`, issued at `now` and valid
    /// for `ttl` seconds. Whenever it is checked, the token gives back
    /// these claims until `now + ttl` and is expired after.
    pub fn create_token_at(&self, user_id: i32, role: Role, ttl: i64, now: i64) -> (r: Result<String, AppError>)
        ensures
            self.token_secret is None ==> r == Err::<String, AppError>(AppError::Internal(Fault::MissingTokenSecret)),
            self.token_secret is Some ==> (r is Ok <==> i64::MIN <= now + ttl <= i64::MAX),
            r is Err ==> r->Err_0 is Internal,
            self.token_secret is Some && !(i64::MIN <= now + ttl <= i64::MAX) ==> r == Err::<String, AppError>(AppError::Internal(Fault::TimeOutOfRange)),
            r is Ok ==> issued_at(secret_bytes(self.token_secret), r->Ok_0@, user_id, role, ttl, now),
    {
        let secret = match &self.token_secret {
            None => return Err(AppError::Internal(Fault::MissingTokenSecret)),
            Some(s) => str_bytes(s.as_str()),
        };
        let exp = match now.checked_add(ttl) {
            None => return Err(AppError::Internal(Fault::TimeOutOfRange)),
            Some(e) => e,
        };
        let claims = Claims { user_id, role, exp, iat: now };
        let payload = render_claims(&claims);
        let header = render_header();
        let h = b64url_encode(header.as_slice());
        let p = b64url_encode(payload.as_slice());
        let mut msg = h.clone();
        proof {
            reveal_strlit(".");
        }
        msg.append(".");
        msg.append(p.as_str());
        assert(msg@ =~= h@ + seq!['.'] + p@);
        assert(msg.is_ascii()) by {
            assert forall|k: int| 0 <= k < msg@.len() implies '\0' <= #[trigger] msg@[k] <= '\u{7f}' by {
                if k < h@.len() {
                    assert(is_b64url_char(h@[k]));
                } else if k > h@.len() {
                    assert(is_b64url_char(p@[k - h@.len() - 1]));
                }
            }
        }
        let msg_bytes = str_bytes(msg.as_str());
        let sig = match hs256_sign(msg_bytes.as_slice(), secret.as_slice()) {
            None => return Err(AppError::Internal(Fault::TokenSigning)),
            Some(s) => s,
        };
        let mut token = msg;
        token.append(".");
        token.append(sig.as_str());
        proof {
            assert(token@ =~= h@ + seq!['.'] + p@ + seq!['.'] + sig@);
            assert forall|t: int| #[trigger] token_outcome(secret@, token@, t) == issued_for(claims, t) by {
                lemma_issued_token(secret@, h@, p@, sig@, claims, t);
            }
        }
        Ok(token)
    }

    /// Issues a token valid for `ttl` seconds from now.
    pub fn create_token(&self, user_id: i32, role: Role, ttl: i64) -> (r: Result<String, AppError>)
        ensures
            r is Err ==> r->Err_0 is Internal,
            self.token_secret is None ==> r == Err::<String, AppError>(AppError::Internal(Fault::MissingTokenSecret)),
            self.token_secret is Some ==> (r is Ok || r == Err::<String, AppError>(AppError::Internal(Fault::TimeOutOfRange))),
            r is Ok ==> exists|now: i64| #[trigger] issued_at(secret_bytes(self.token_secret), r->Ok_0@, user_id, role, ttl, now),
    {
        let now = now_seconds();
        let r = self.create_token_at(user_id, role, ttl, now);
        proof {
            if r is Ok {
                assert(issued_at(secret_bytes(self.token_secret), r->Ok_0@, user_id, role, ttl, now));
            }
        }
        r
    }

    /// Checks a token at time `now`: its claims, or `TokenExpired` when
    /// `now` is past its expiry, or `InvalidCredentials` for any other
    /// defect.
    pub fn verify_token_at(&self, token: &str, now: i64) -> (r: Result<Claims, AppError>)
        ensures
            self.token_secret is None ==> r == Err::<Claims, AppError>(AppError::Internal(Fault::MissingTokenSecret)),
            self.token_secret is Some ==> r == token_result(secret_bytes(self.token_secret), token@, now as int),
    {
        let secret = match &self.token_secret {
            None => return Err(AppError::Internal(Fault::MissingTokenSecret)),
            Some(s) => str_bytes(s.as_str()),
        };
        let invalid = AppError::Auth { code: AuthErrorCode::InvalidCredentials, user_id: None };
        if !token.is_ascii() {
            return Err(invalid);
        }
        let n = token.unicode_len();
        let mut i: usize = 0;
        while i < n && token.get_char(i) != '.'
            invariant
                n == token@.len(),
                i <= n,
                find_dot(token@, i as int) == find_dot(token@, 0),
            decreases n - i,
        {
            i = i + 1;
        }
        if i >= n {
            return Err(invalid);
        }
        let mut j: usize = i + 1;
        while j < n && token.get_char(j) != '.'
            invariant
                n == token@.len(),
                i < j <= n,
                find_dot(token@, j as int) == find_dot(token@, i + 1),
            decreases n - j,
        {
            j = j + 1;
        }
        if j >= n {
            return Err(invalid);
        }
        let h = token.substring_ascii(0, i);
        let header = render_header();
        let expected_h = b64url_encode(header.as_slice());
        if !crate::text::same_text(h, expected_h.as_str()) {
            return Err(invalid);
        }
        let msg = token.substring_ascii(0, j);
        let msg_bytes = str_bytes(msg);
        let sig = token.substring_ascii(j + 1, n);
        if !hs256_verify(sig, msg_bytes.as_slice(), secret.as_slice()) {
            return Err(invalid);
        }
        let p = token.substring_ascii(i + 1, j);
        let payload = match b64url_decode(p) {
            None => return Err(invalid),
            Some(v) => v,
        };
        let claims = match read_claims(&payload) {
            None => return Err(invalid),
            Some(c) => c,
        };
        if now > claims.exp {
            return Err(AppError::Auth { code: AuthErrorCode::TokenExpired, user_id: None });
        }
        Ok(claims)
    }

    /// Checks a token now.
    pub fn verify_token(&self, token: &str) -> (r: Result<Claims, AppError>)
        ensures
            self.token_secret is None ==> r == Err::<Claims, AppError>(AppError::Internal(Fault::MissingTokenSecret)),
            self.token_secret is Some ==> exists|now: i64| r == #[trigger] token_result(secret_bytes(self.token_secret), token@, now as int),
    {
        let now = now_seconds();
        self.verify_token_at(token, now)
    }

    /// Checks a token at `now` and issues a new one for the same user and
    /// role, valid for thirty days from `now`. The old token stays valid
    /// until its own expiry.
    pub fn refresh_token_at(&self, token: &str, now: i64) -> (r: Result<String, AppError>)
        ensures
            refreshed(self.token_secret, token@, now, r),
    {
        let claims = self.verify_token_at(token, now)?;
        self.create_token_at(claims.user_id, claims.role, THIRTY_DAYS, now)
    }

    /// Checks a token now and issues a new one valid for thirty days.
    pub fn refresh_token(&self, token: &str) -> (r: Result<String, AppError>)
        ensures
            exists|now: i64| #[trigger] refreshed(self.token_secret, token@, now, r),
    {
        let now = now_seconds();
        let r = self.refresh_token_at(token, now);
        assert(refreshed(self.token_secret, token@, now, r));
        r
    }

    /// Whether the token, checked now, carries `role`.
    pub fn verify_role(&self, token: &str, role: Role) -> (r: Result<bool, AppError>)
        ensures
            self.token_secret is None ==> r == Err::<bool, AppError>(AppError::Internal(Fault::MissingTokenSecret)),
            self.token_secret is Some ==> exists|now: i64| match #[trigger] token_result(secret_bytes(self.token_secret), token@, now as int) {
                Ok(c) => r == Ok::<bool, AppError>(c.role == role),
                Err(e) => r == Err::<bool, AppError>(e),
            },
    {
        let now = now_seconds();
        let claims = self.verify_token_at(token, now)?;
        Ok(claims.role == role)
    }
}

} // verus!
