//! Login and account binding: QR-code logins confirmed from a phone, and
//! six-digit codes that bind a WeChat account to a user. Times are
//! microseconds since the Unix epoch; a QR token lives five minutes, a
//! binding code ten.
//!
//! Password hashing uses argon2; login tokens are HS256 JWTs made and
//! checked with `jsonwebtoken`, carrying the three claims that `Claims`
//! below lists.

use vstd::prelude::*;
use crate::platform::{now_micros, now_secs};
use crate::text::{
    byte_len, clone_opt, owned, starts_with, str_eq, str_starts_with, chars_of, slice_chars, string_from_chars, utf8_len,
    views,
};

verus! {

/// Microseconds a QR login token stays valid.
pub const QR_TTL: i64 = 300_000_000;

/// Microseconds a binding code stays valid.
pub const BIND_TTL: i64 = 600_000_000;

/// Claims of a login token.
#[derive(Debug)]
pub struct Claims {
    /// user id
    pub sub: String,
    /// expiry (Unix seconds)
    pub exp: usize,
    /// issue time (Unix seconds)
    pub iat: usize,
}

/// State of a QR login.
#[derive(Debug, Clone, Copy, PartialEq, Eq, Structural)]
pub enum QrLoginStatus {
    Pending,
    Confirmed,
    Expired,
}

/// State of a WeChat binding.
#[derive(Debug, Clone, Copy, PartialEq, Eq, Structural)]
pub enum BindStatus {
    Pending,
    Confirmed,
    Expired,
}

/// A QR login token.
#[derive(Debug)]
pub struct QrLoginToken {
    pub token: String,
    pub user_id: Option<String>,
    pub status: QrLoginStatus,
    pub created_at: i64,
    pub expires_at: i64,
}

/// The mathematical content of a `QrLoginToken`.
pub struct QrView {
    pub token: Seq<char>,
    pub user_id: Option<Seq<char>>,
    pub status: QrLoginStatus,
    pub created_at: i64,
    pub expires_at: i64,
}

impl View for QrLoginToken {
    type V = QrView;

    open spec fn view(&self) -> QrView {
        QrView {
            token: self.token@,
            user_id: match self.user_id {
                Some(u) => Some(u@),
                None => None,
            },
            status: self.status,
            created_at: self.created_at,
            expires_at: self.expires_at,
        }
    }
}

impl QrLoginToken {
    /// A copy holding the same values.
    pub fn copy(&self) -> (r: QrLoginToken)
        ensures
            r@ == self@,
    {
        QrLoginToken {
            token: self.token.clone(),
            user_id: clone_opt(&self.user_id),
            status: self.status,
            created_at: self.created_at,
            expires_at: self.expires_at,
        }
    }
}

/// A request to bind a WeChat account to a user.
#[derive(Debug)]
pub struct BindRequest {
    pub user_id: String,
    pub bind_code: String,
    pub status: BindStatus,
    pub wechat_openid: Option<String>,
    pub created_at: i64,
}

/// The mathematical content of a `BindRequest`.
pub struct BindView {
    pub user_id: Seq<char>,
    pub bind_code: Seq<char>,
    pub status: BindStatus,
    pub wechat_openid: Option<Seq<char>>,
    pub created_at: i64,
}

impl View for BindRequest {
    type V = BindView;

    open spec fn view(&self) -> BindView {
        BindView {
            user_id: self.user_id@,
            bind_code: self.bind_code@,
            status: self.status,
            wechat_openid: match self.wechat_openid {
                Some(u) => Some(u@),
                None => None,
            },
            created_at: self.created_at,
        }
    }
}

// ── Random values ───────────────────────────────────────────────────────

/// An ASCII letter or digit.
pub open spec fn is_alnum(c: char) -> bool {
    ('a' <= c && c <= 'z') || ('A' <= c && c <= 'Z') || ('0' <= c && c <= '9')
}

/// 32 random letters and digits from rand's `Alphanumeric` distribution
/// (which samples `A–Z`, `a–z`, `0–9`). Which ones is chance.
#[verifier::external_body]
fn random_token() -> (r: String)
    ensures
        r@.len() == 32,
        forall|i: int| 0 <= i < 32 ==> is_alnum(#[trigger] r@[i]),
{
    rand::Rng::sample_iter(rand::thread_rng(), &rand::distributions::Alphanumeric).take(32).map(
        char::from,
    ).collect()
}

/// One random decimal digit from rand's `gen_range(0..10)`. Which one is
/// chance.
#[verifier::external_body]
fn random_digit() -> (r: u8)
    ensures
        r < 10,
{
    rand::Rng::gen_range(&mut rand::thread_rng(), 0u8..10u8)
}

/// Six random decimal digits.
fn random_code() -> (r: String)
    ensures
        r@.len() == 6,
        forall|i: int| 0 <= i < 6 ==> '0' <= #[trigger] r@[i] <= '9',
{
    let mut cs: Vec<char> = Vec::new();
    let mut i: usize = 0;
    while i < 6
        invariant
            i <= 6,
            cs@.len() == i,
            forall|j: int| 0 <= j < i ==> '0' <= #[trigger] cs@[j] <= '9',
        decreases 6 - i,
    {
        let d = random_digit();
        let c = (48u8 + d) as char;
        cs.push(c);
        i = i + 1;
    }
    string_from_chars(cs.as_slice())
}

// ── Passwords ───────────────────────────────────────────────────────────

/// The PHC string argon2 (default parameters) makes of a password with a
/// fresh random salt from the OS generator (`PasswordHasher::hash_password`
/// then `PasswordHash::to_string`); an error message when hashing fails.
/// The string itself depends on the salt, which is chance; what is claimed
/// is that it parses back (`PasswordHash::new`) and that argon2's
/// `verify_password` accepts the same password against it, the parameters
/// and salt being read from the string.
#[verifier::external_body]
fn argon2_hash(password: &str) -> (r: Result<String, String>)
    ensures
        r matches Ok(h) ==> phc_parses(h@) && argon2_accepts(password@, h@),
        r matches Err(e) ==> starts_with(e@, "Password hash error: "@),
{
    let salt = argon2::password_hash::SaltString::generate(&mut argon2::password_hash::rand_core::OsRng);
    match argon2::PasswordHasher::hash_password(&argon2::Argon2::default(), password.as_bytes(), &salt) {
        Ok(h) => Ok(h.to_string()),
        Err(e) => Err(format!("Password hash error: {e}")),
    }
}

/// Whether `hash` parses as a PHC string (argon2's `PasswordHash::new`).
pub uninterp spec fn phc_parses(hash: Seq<char>) -> bool;

/// Whether argon2 accepts `password` against a parsed PHC string.
pub uninterp spec fn argon2_accepts(password: Seq<char>, hash: Seq<char>) -> bool;

/// Checks a password against a stored hash with argon2: an error when the
/// hash does not parse (`PasswordHash::new`), else whether
/// `verify_password` accepts. Both outcomes depend on the two strings
/// alone; the contract names them rather than restating argon2.
#[verifier::external_body]
fn argon2_check(password: &str, hash: &str) -> (r: Result<bool, String>)
    ensures
        match r {
            Ok(b) => phc_parses(hash@) && b == argon2_accepts(password@, hash@),
            Err(_) => !phc_parses(hash@),
        },
{
    match argon2::PasswordHash::new(hash) {
        Ok(parsed) => Ok(argon2::PasswordVerifier::verify_password(&argon2::Argon2::default(), password.as_bytes(), &parsed).is_ok()),
        Err(e) => Err(format!("Invalid hash format: {e}")),
    }
}

/// What checking `password` against the stored `hash` gives: `None` when
/// the hash is not a PHC string, else whether argon2 accepts the password.
pub open spec fn check_outcome(password: Seq<char>, hash: Seq<char>) -> Option<bool> {
    if phc_parses(hash) {
        Some(argon2_accepts(password, hash))
    } else {
        None
    }
}

/// Hashes a password (argon2 with its default parameters, random salt).
/// Whether hashing succeeds is argon2's to decide; a hash it gives back is
/// one that checking the same password against accepts.
pub fn hash_password(password: &str) -> (r: Result<String, String>)
    ensures
        r matches Ok(h) ==> check_outcome(password@, h@) == Some(true),
        r matches Err(e) ==> starts_with(e@, "Password hash error: "@),
{
    argon2_hash(password)
}

/// Whether a password matches a stored hash; an error when the hash is not
/// a PHC string.
pub fn verify_password(password: &str, hash: &str) -> (r: Result<bool, String>)
    ensures
        match r {
            Ok(b) => check_outcome(password@, hash@) == Some(b),
            Err(_) => check_outcome(password@, hash@) is None,
        },
{
    argon2_check(password, hash)
}

/// A password hashed and then checked against its own hash is accepted.
pub proof fn law_hash_then_verify(password: Seq<char>, hash: Seq<char>, r: Result<bool, String>)
    requires
        check_outcome(password, hash) == Some(true),
        match r {
            Ok(b) => check_outcome(password, hash) == Some(b),
            Err(_) => check_outcome(password, hash) is None,
        },
    ensures
        r matches Ok(b) && b,
{
}

/// Why a registration is refused before anything is stored: an empty user
/// name, or a password shorter than six bytes. `None` when it may proceed.
pub fn registration_error(username: &str, password: &str) -> (r: Option<&'static str>)
    ensures
        r is Some <==> (username@.len() == 0 || utf8_len(password@) < 6),
        r matches Some(e) ==> e@ == "用户名不能为空，密码至少6位"@,
{
    if chars_of(username).len() == 0 || byte_len(password) < 6 {
        Some("用户名不能为空，密码至少6位")
    } else {
        None
    }
}

/// The token of an `Authorization: Bearer <token>` header.
pub fn bearer_token(header: Option<&str>) -> (r: Option<String>)
    ensures
        match header {
            Some(h) => if crate::text::starts_with(h@, "Bearer "@) {
                r matches Some(t) && t@ == h@.skip(7)
            } else {
                r is None
            },
            None => r is None,
        },
{
    match header {
        Some(h) => {
            if str_starts_with(h, "Bearer ") {
                proof {
                    reveal_strlit("Bearer ");
                }
                let cs = chars_of(h);
                let t = slice_chars(&cs, 7, cs.len());
                assert(t@ =~= h@.skip(7));
                Some(string_from_chars(t.as_slice()))
            } else {
                None
            }
        },
        None => None,
    }
}

// ── Login tokens ───────────────────────────────────────────────────────

/// The HS256 token that `jsonwebtoken::encode` makes, with the default
/// header and `EncodingKey::from_secret(secret)`, for the claims `sub`,
/// `iat` and `exp`. The header, the JSON of the claims and the HMAC depend
/// on these values alone.
pub uninterp spec fn jwt_token_of(secret: Seq<char>, sub: Seq<char>, iat: u64, exp: u64) -> Seq<char>;

/// The login token for `user` issued at `now` (Unix seconds) and expiring
/// `hours` hours later.
pub open spec fn login_token(secret: Seq<char>, user: Seq<char>, hours: u32, now: u64) -> Seq<char> {
    jwt_token_of(secret, user, now, (now + 3600 * hours) as u64)
}

/// Signs the claims `sub`, `iat`, `exp` with `jsonwebtoken::encode`
/// (default header, HS256, key `EncodingKey::from_secret(secret)`). The
/// token is named by `jwt_token_of`; an error carries the crate's message
/// after "JWT encode error: ". The claims go in as a `serde_json::Map`, so
/// their keys are written in that map's order.
#[verifier::external_body]
fn jwt_encode(secret: &str, sub: &str, iat: u64, exp: u64) -> (r: Result<String, String>)
    ensures
        r matches Ok(t) ==> t@ == jwt_token_of(secret@, sub@, iat, exp),
        r matches Err(e) ==> starts_with(e@, "JWT encode error: "@),
{
    let mut claims = serde_json::Map::new();
    claims.insert(String::from("sub"), serde_json::Value::from(sub));
    claims.insert(String::from("exp"), serde_json::Value::from(exp));
    claims.insert(String::from("iat"), serde_json::Value::from(iat));
    jsonwebtoken::encode(&jsonwebtoken::Header::default(), &claims, &jsonwebtoken::EncodingKey::from_secret(secret.as_bytes()))
        .map_err(|e| format!("JWT encode error: {e}"))
}

/// Decodes and checks a token with `jsonwebtoken::decode` (key
/// `DecodingKey::from_secret(secret)`, `Validation::default()`: HS256, a
/// valid signature, an `exp` claim not yet past by the clock) and hands out
/// its `sub`, `exp` and `iat` claims, each `None` where it is missing or not
/// of its type (a string, unsigned integers). Whether a token passes
/// depends on the clock, so nothing is claimed of which outcome comes; an
/// error carries the crate's message after "JWT decode error: ".
#[verifier::external_body]
fn jwt_decode(secret: &str, token: &str) -> (r: Result<(Option<String>, Option<u64>, Option<u64>), String>)
    ensures
        r matches Err(e) ==> starts_with(e@, "JWT decode error: "@),
{
    jsonwebtoken::decode::<serde_json::Map<String, serde_json::Value>>(
        token,
        &jsonwebtoken::DecodingKey::from_secret(secret.as_bytes()),
        &jsonwebtoken::Validation::default(),
    )
        .map(|d| (
            d.claims.get("sub").and_then(|v| v.as_str()).map(String::from),
            d.claims.get("exp").and_then(|v| v.as_u64()),
            d.claims.get("iat").and_then(|v| v.as_u64()),
        ))
        .map_err(|e| format!("JWT decode error: {e}"))
}

/// The user a decoded token names: its `sub` when the token passed and
/// carries all three claims; the decoder's error as it came; and
/// "JWT decode error: missing claim" for a token without one of them.
pub fn subject_of_claims(decoded: Result<(Option<String>, Option<u64>, Option<u64>), String>) -> (r: Result<String, String>)
    ensures
        match decoded {
            Ok((Some(sub), Some(_), Some(_))) => r matches Ok(s) && s@ == sub@,
            Ok(_) => r matches Err(e) && e@ == "JWT decode error: missing claim"@,
            Err(e) => r matches Err(f) && f@ == e@,
        },
{
    match decoded {
        Ok((Some(sub), Some(_), Some(_))) => Ok(sub),
        Ok(_) => Err(owned("JWT decode error: missing claim")),
        Err(e) => Err(e),
    }
}

// ── QR logins and binding codes ────────────────────────────────────────

/// The first index of the QR token `t`.
pub open spec fn qr_index(qs: Seq<QrView>, t: Seq<char>) -> Option<int>
    decreases qs.len(),
{
    if qs.len() == 0 {
        None
    } else if qs[0].token == t {
        Some(0)
    } else {
        match qr_index(qs.drop_first(), t) {
            Some(i) => Some(i + 1),
            None => None,
        }
    }
}

/// The first index of the binding of user `u`.
pub open spec fn bind_index(bs: Seq<BindView>, u: Seq<char>) -> Option<int>
    decreases bs.len(),
{
    if bs.len() == 0 {
        None
    } else if bs[0].user_id == u {
        Some(0)
    } else {
        match bind_index(bs.drop_first(), u) {
            Some(i) => Some(i + 1),
            None => None,
        }
    }
}

/// The user a binding code stands for.
pub open spec fn code_user(cs: Seq<(Seq<char>, Seq<char>)>, code: Seq<char>) -> Option<Seq<char>>
    decreases cs.len(),
{
    if cs.len() == 0 {
        None
    } else if cs[0].0 == code {
        Some(cs[0].1)
    } else {
        code_user(cs.drop_first(), code)
    }
}

/// The QR tokens still valid at `now`, in order.
pub open spec fn live_qr(qs: Seq<QrView>, now: i64) -> Seq<QrView>
    decreases qs.len(),
{
    if qs.len() == 0 {
        Seq::empty()
    } else if qs.last().expires_at > now {
        live_qr(qs.drop_last(), now).push(qs.last())
    } else {
        live_qr(qs.drop_last(), now)
    }
}

/// A binding that has expired unconfirmed by `now`.
pub open spec fn stale_binding(b: BindView, now: i64) -> bool {
    (b.created_at as int) < (now as int) - (BIND_TTL as int) && b.status == BindStatus::Pending
}

/// A binding older than ten minutes at `now`.
pub open spec fn bind_expired(b: BindView, now: i64) -> bool {
    (now as int) > (b.created_at as int) + (BIND_TTL as int)
}

/// A fresh binding of `user` under `code`, made at `now`.
pub open spec fn new_binding(user: Seq<char>, code: Seq<char>, now: i64) -> BindView {
    BindView { user_id: user, bind_code: code, status: BindStatus::Pending, wechat_openid: None, created_at: now }
}

/// The bindings that stay when `user` gets a new code at `now`: neither
/// stale nor the user's own.
pub open spec fn kept_bindings(bs: Seq<BindView>, user: Seq<char>, now: i64) -> Seq<BindView>
    decreases bs.len(),
{
    if bs.len() == 0 {
        Seq::empty()
    } else if !stale_binding(bs.last(), now) && bs.last().user_id != user {
        kept_bindings(bs.drop_last(), user, now).push(bs.last())
    } else {
        kept_bindings(bs.drop_last(), user, now)
    }
}

/// The codes of the bindings that are stale at `now`.
pub open spec fn stale_codes(bs: Seq<BindView>, now: i64) -> Seq<Seq<char>>
    decreases bs.len(),
{
    if bs.len() == 0 {
        Seq::empty()
    } else if stale_binding(bs.last(), now) {
        stale_codes(bs.drop_last(), now).push(bs.last().bind_code)
    } else {
        stale_codes(bs.drop_last(), now)
    }
}

/// The codes that stay: not of a stale binding and not the user's.
pub open spec fn kept_codes(cs: Seq<(Seq<char>, Seq<char>)>, stale: Seq<Seq<char>>, user: Seq<char>) -> Seq<(Seq<char>, Seq<char>)>
    decreases cs.len(),
{
    if cs.len() == 0 {
        Seq::empty()
    } else if !stale.contains(cs.last().0) && cs.last().1 != user {
        kept_codes(cs.drop_last(), stale, user).push(cs.last())
    } else {
        kept_codes(cs.drop_last(), stale, user)
    }
}

fn holds(list: &Vec<String>, s: &str) -> (r: bool)
    ensures
        r == views(list@).contains(s@),
{
    let mut i: usize = 0;
    while i < list.len()
        invariant
            i <= list.len(),
            forall|j: int| 0 <= j < i ==> views(list@)[j] != s@,
        decreases list.len() - i,
    {
        assert(views(list@)[i as int] == list@[i as int]@);
        if str_eq(list[i].as_str(), s) {
            assert(views(list@).contains(s@));
            return true;
        }
        i = i + 1;
    }
    false
}

/// The login and binding state.
pub struct AuthState {
    jwt_secret: String,
    token_expiry_hours: u32,
    qr_tokens: Vec<QrLoginToken>,
    bindings: Vec<BindRequest>,
    bind_codes: Vec<(String, String)>,
}

impl AuthState {
    /// The QR tokens, in the order they were made.
    pub closed spec fn qrs(&self) -> Seq<QrView> {
        self.qr_tokens@.map_values(|q: QrLoginToken| q@)
    }

    /// The bindings, in the order they were made.
    pub closed spec fn binds(&self) -> Seq<BindView> {
        self.bindings@.map_values(|b: BindRequest| b@)
    }

    /// The binding codes and the users they stand for.
    pub closed spec fn codes(&self) -> Seq<(Seq<char>, Seq<char>)> {
        self.bind_codes@.map_values(|p: (String, String)| (p.0@, p.1@))
    }

    /// The secret login tokens are signed with.
    pub closed spec fn secret(&self) -> Seq<char> {
        self.jwt_secret@
    }

    /// How many hours a login token stays valid.
    pub closed spec fn expiry_hours(&self) -> u32 {
        self.token_expiry_hours
    }

    /// No tokens, bindings or codes; login tokens signed with `jwt_secret`
    /// and valid for `token_expiry_hours`.
    pub fn new(jwt_secret: &str, token_expiry_hours: u32) -> (r: AuthState)
        ensures
            r.secret() == jwt_secret@,
            r.expiry_hours() == token_expiry_hours,
            r.qrs() == Seq::<QrView>::empty(),
            r.binds() == Seq::<BindView>::empty(),
            r.codes() == Seq::<(Seq<char>, Seq<char>)>::empty(),
    {
        let r = AuthState {
            jwt_secret: owned(jwt_secret),
            token_expiry_hours,
            qr_tokens: Vec::new(),
            bindings: Vec::new(),
            bind_codes: Vec::new(),
        };
        assert(r.qrs() =~= Seq::<QrView>::empty());
        assert(r.binds() =~= Seq::<BindView>::empty());
        assert(r.codes() =~= Seq::<(Seq<char>, Seq<char>)>::empty());
        r
    }

    /// A login token for `user_id` issued at `now` (Unix seconds), valid for
    /// the configured number of hours.
    pub fn create_jwt_at(&self, user_id: &str, now: u64) -> (r: Result<String, String>)
        requires
            now + 3600 * self.expiry_hours() <= u64::MAX,
        ensures
            match r {
                Ok(t) => t@ == login_token(self.secret(), user_id@, self.expiry_hours(), now),
                Err(e) => starts_with(e@, "JWT encode error: "@),
            },
    {
        let exp = now + 3600u64 * (self.token_expiry_hours as u64);
        jwt_encode(self.jwt_secret.as_str(), user_id, now, exp)
    }

    /// A login token for `user_id` issued now; see `create_jwt_at`. The
    /// issue time is the clock's, in whole seconds (a clock before 1970
    /// counts as 0).
    pub fn create_jwt(&self, user_id: &str) -> (r: Result<String, String>)
        ensures
            r matches Err(e) ==> starts_with(e@, "JWT encode error: "@),
            r matches Ok(t) ==> exists|now: u64| t@ == #[trigger] login_token(self.secret(), user_id@, self.expiry_hours(), now),
    {
        let secs = now_secs();
        let now: u64 = if secs < 0 {
            0
        } else {
            secs as u64
        };
        self.create_jwt_at(user_id, now)
    }

    /// The user a login token names, once `jsonwebtoken` has checked its
    /// signature and expiry; otherwise an error starting
    /// "JWT decode error: ". See `subject_of_claims`.
    pub fn verify_jwt(&self, token: &str) -> (r: Result<String, String>)
        ensures
            r matches Err(e) ==> starts_with(e@, "JWT decode error: "@),
    {
        let decoded = jwt_decode(self.jwt_secret.as_str(), token);
        proof {
            reveal_strlit("JWT decode error: missing claim");
            reveal_strlit("JWT decode error: ");
            assert("JWT decode error: missing claim"@.subrange(0, 18) =~= "JWT decode error: "@);
        }
        subject_of_claims(decoded)
    }

    /// The user of an `Authorization: Bearer <token>` header whose token
    /// passes `verify_jwt`; `None` without such a header.
    pub fn extract_user(&self, header: Option<&str>) -> (r: Option<String>)
        ensures
            match header {
                Some(h) => !starts_with(h@, "Bearer "@) ==> r is None,
                None => r is None,
            },
    {
        match bearer_token(header) {
            Some(t) => match self.verify_jwt(t.as_str()) {
                Ok(u) => Some(u),
                Err(_) => None,
            },
            None => None,
        }
    }

    fn find_qr(&self, token: &str) -> (r: Option<usize>)
        ensures
            match r {
                Some(i) => qr_index(self.qrs(), token@) == Some(i as int) && i < self.qr_tokens.len(),
                None => qr_index(self.qrs(), token@) is None,
            },
    {
        let ghost all = self.qrs();
        let mut i: usize = 0;
        assert(all.skip(0) =~= all);
        while i < self.qr_tokens.len()
            invariant
                i <= self.qr_tokens.len(),
                all == self.qrs(),
                qr_index(all, token@) == match qr_index(all.skip(i as int), token@) {
                    Some(k) => Some(k + i),
                    None => None,
                },
            decreases self.qr_tokens.len() - i,
        {
            assert(all.skip(i as int)[0] == self.qr_tokens@[i as int]@);
            assert(all.skip(i as int).drop_first() =~= all.skip(i + 1));
            if str_eq(self.qr_tokens[i].token.as_str(), token) {
                return Some(i);
            }
            i = i + 1;
        }
        None
    }

    /// Stores a new pending QR token made at `now`, after dropping every
    /// token expired by then.
    pub fn create_qr_token_at(&mut self, token: &str, now: i64) -> (r: QrLoginToken)
        requires
            now <= i64::MAX - QR_TTL,
        ensures
            r@ == (QrView { token: token@, user_id: None, status: QrLoginStatus::Pending, created_at: now, expires_at: (now + QR_TTL) as i64 }),
            final(self).binds() == old(self).binds(),
            final(self).codes() == old(self).codes(),
            match qr_index(live_qr(old(self).qrs(), now), token@) {
                Some(i) => final(self).qrs() == live_qr(old(self).qrs(), now).update(i, r@),
                None => final(self).qrs() == live_qr(old(self).qrs(), now).push(r@),
            },
    {
        let ghost all = self.qrs();
        let mut kept: Vec<QrLoginToken> = Vec::new();
        let mut i: usize = 0;
        while i < self.qr_tokens.len()
            invariant
                i <= self.qr_tokens.len(),
                all == self.qrs(),
                kept@.map_values(|q: QrLoginToken| q@) == live_qr(all.take(i as int), now),
            decreases self.qr_tokens.len() - i,
        {
            let ghost before = kept@.map_values(|q: QrLoginToken| q@);
            assert(all.take(i + 1).drop_last() =~= all.take(i as int));
            assert(all.take(i + 1).last() == self.qr_tokens@[i as int]@);
            if self.qr_tokens[i].expires_at > now {
                kept.push(self.qr_tokens[i].copy());
                assert(kept@.map_values(|q: QrLoginToken| q@) =~= before.push(self.qr_tokens@[i as int]@));
            }
            i = i + 1;
        }
        assert(all.take(self.qr_tokens.len() as int) =~= all);
        self.qr_tokens = kept;
        let qr = QrLoginToken {
            token: owned(token),
            user_id: None,
            status: QrLoginStatus::Pending,
            created_at: now,
            expires_at: now + QR_TTL,
        };
        let out = qr.copy();
        let ghost live = self.qrs();
        match self.find_qr(token) {
            Some(k) => {
                self.qr_tokens.set(k, qr);
                assert(self.qrs() =~= live.update(k as int, out@));
            },
            None => {
                self.qr_tokens.push(qr);
                assert(self.qrs() =~= live.push(out@));
            },
        }
        out
    }

    /// Stores a new pending QR token with a random 32-character name.
    pub fn create_qr_token(&mut self) -> (r: QrLoginToken)
        ensures
            r@.token.len() == 32,
            r@.status == QrLoginStatus::Pending,
            r@.user_id is None,
            final(self).binds() == old(self).binds(),
            final(self).codes() == old(self).codes(),
            exists|now: i64|
                r@.created_at == now && r@.expires_at == now + QR_TTL && match qr_index(
                    #[trigger] live_qr(old(self).qrs(), now),
                    r@.token,
                ) {
                    Some(i) => final(self).qrs() == live_qr(old(self).qrs(), now).update(i, r@),
                    None => final(self).qrs() == live_qr(old(self).qrs(), now).push(r@),
                },
    {
        let token = random_token();
        let now = now_micros();
        let now = if now > i64::MAX - QR_TTL {
            i64::MAX - QR_TTL
        } else {
            now
        };
        self.create_qr_token_at(token.as_str(), now)
    }

    /// The status of a QR login at `now` (`Expired` once past its expiry),
    /// or `None` for an unknown token.
    pub fn qr_status_at(&self, token: &str, now: i64) -> (r: Option<QrLoginStatus>)
        ensures
            match qr_index(self.qrs(), token@) {
                Some(i) => r == Some(if now > self.qrs()[i].expires_at {
                    QrLoginStatus::Expired
                } else {
                    self.qrs()[i].status
                }),
                None => r is None,
            },
    {
        match self.find_qr(token) {
            Some(i) => {
                assert(self.qrs()[i as int] == self.qr_tokens@[i as int]@);
                if now > self.qr_tokens[i].expires_at {
                    Some(QrLoginStatus::Expired)
                } else {
                    Some(self.qr_tokens[i].status)
                }
            },
            None => None,
        }
    }

    /// The status of a QR login now: `Expired` once past its expiry, else
    /// its stored status; `None` for an unknown token. Which of the two a
    /// known token gets depends on the clock.
    pub fn get_qr_status(&self, token: &str) -> (r: Option<QrLoginStatus>)
        ensures
            match qr_index(self.qrs(), token@) {
                Some(i) => r == Some(QrLoginStatus::Expired) || r == Some(self.qrs()[i].status),
                None => r is None,
            },
    {
        self.qr_status_at(token, now_micros())
    }

    /// Confirms a QR login from the phone now; see `confirm_qr_at`. Whether
    /// a known token has expired depends on the clock.
    pub fn confirm_qr(&mut self, token: &str, user_id: &str) -> (r: Result<(), String>)
        ensures
            final(self).binds() == old(self).binds(),
            final(self).codes() == old(self).codes(),
            match qr_index(old(self).qrs(), token@) {
                None => r matches Err(e) && e@ == "QR token not found"@ && final(self).qrs() == old(self).qrs(),
                Some(i) => {
                    ||| r matches Err(e) && e@ == "QR token expired"@ && final(self).qrs() == old(self).qrs().update(
                        i,
                        QrView { status: QrLoginStatus::Expired, ..old(self).qrs()[i] },
                    )
                    ||| r is Ok && final(self).qrs() == old(self).qrs().update(
                        i,
                        QrView { status: QrLoginStatus::Confirmed, user_id: Some(user_id@), ..old(self).qrs()[i] },
                    )
                },
            },
    {
        self.confirm_qr_at(token, user_id, now_micros())
    }

    /// Confirms a QR login from the phone at `now`: refused for an unknown
    /// token, and for an expired one (which is then marked expired).
    pub fn confirm_qr_at(&mut self, token: &str, user_id: &str, now: i64) -> (r: Result<(), String>)
        ensures
            final(self).binds() == old(self).binds(),
            final(self).codes() == old(self).codes(),
            match qr_index(old(self).qrs(), token@) {
                None => r matches Err(e) && e@ == "QR token not found"@ && final(self).qrs() == old(self).qrs(),
                Some(i) => if now > old(self).qrs()[i].expires_at {
                    &&& r matches Err(e) && e@ == "QR token expired"@
                    &&& final(self).qrs() == old(self).qrs().update(i, QrView { status: QrLoginStatus::Expired, ..old(self).qrs()[i] })
                } else {
                    &&& r is Ok
                    &&& final(self).qrs() == old(self).qrs().update(
                        i,
                        QrView { status: QrLoginStatus::Confirmed, user_id: Some(user_id@), ..old(self).qrs()[i] },
                    )
                },
            },
    {
        let i = match self.find_qr(token) {
            Some(i) => i,
            None => return Err(owned("QR token not found")),
        };
        let ghost before = self.qrs();
        let mut q = self.qr_tokens[i].copy();
        assert(before[i as int] == self.qr_tokens@[i as int]@);
        if now > q.expires_at {
            q.status = QrLoginStatus::Expired;
            let ghost qv = q@;
            self.qr_tokens.set(i, q);
            assert(self.qrs() =~= before.update(i as int, qv));
            return Err(owned("QR token expired"));
        }
        q.status = QrLoginStatus::Confirmed;
        q.user_id = Some(owned(user_id));
        let ghost qv = q@;
        self.qr_tokens.set(i, q);
        assert(self.qrs() =~= before.update(i as int, qv));
        Ok(())
    }

    /// The user of a confirmed QR login, to whom a login token is issued.
    pub fn complete_qr_login(&self, token: &str) -> (r: Option<String>)
        ensures
            match qr_index(self.qrs(), token@) {
                Some(i) => if self.qrs()[i].status == QrLoginStatus::Confirmed {
                    match self.qrs()[i].user_id {
                        Some(u) => r matches Some(x) && x@ == u,
                        None => r is None,
                    }
                } else {
                    r is None
                },
                None => r is None,
            },
    {
        match self.find_qr(token) {
            Some(i) => {
                assert(self.qrs()[i as int] == self.qr_tokens@[i as int]@);
                if self.qr_tokens[i].status != QrLoginStatus::Confirmed {
                    return None;
                }
                clone_opt(&self.qr_tokens[i].user_id)
            },
            None => None,
        }
    }

    fn find_bind(&self, user_id: &str) -> (r: Option<usize>)
        ensures
            match r {
                Some(i) => bind_index(self.binds(), user_id@) == Some(i as int) && i < self.bindings.len(),
                None => bind_index(self.binds(), user_id@) is None,
            },
    {
        let ghost all = self.binds();
        let mut i: usize = 0;
        assert(all.skip(0) =~= all);
        while i < self.bindings.len()
            invariant
                i <= self.bindings.len(),
                all == self.binds(),
                bind_index(all, user_id@) == match bind_index(all.skip(i as int), user_id@) {
                    Some(k) => Some(k + i),
                    None => None,
                },
            decreases self.bindings.len() - i,
        {
            assert(all.skip(i as int)[0] == self.bindings@[i as int]@);
            assert(all.skip(i as int).drop_first() =~= all.skip(i + 1));
            if str_eq(self.bindings[i].user_id.as_str(), user_id) {
                return Some(i);
            }
            i = i + 1;
        }
        None
    }

    fn find_code(&self, code: &str) -> (r: Option<String>)
        ensures
            match code_user(self.codes(), code@) {
                Some(u) => r matches Some(x) && x@ == u,
                None => r is None,
            },
    {
        let ghost all = self.codes();
        let mut i: usize = 0;
        assert(all.skip(0) =~= all);
        while i < self.bind_codes.len()
            invariant
                i <= self.bind_codes.len(),
                all == self.codes(),
                code_user(all, code@) == code_user(all.skip(i as int), code@),
            decreases self.bind_codes.len() - i,
        {
            assert(all.skip(i as int)[0] == (self.bind_codes@[i as int].0@, self.bind_codes@[i as int].1@));
            assert(all.skip(i as int).drop_first() =~= all.skip(i + 1));
            if str_eq(self.bind_codes[i].0.as_str(), code) {
                return Some(self.bind_codes[i].1.clone());
            }
            i = i + 1;
        }
        None
    }

    /// The user a binding code stands for, while its binding is younger
    /// than ten minutes at `now`.
    pub fn check_bind_code_at(&self, code: &str, now: i64) -> (r: Option<String>)
        ensures
            match code_user(self.codes(), code@) {
                Some(u) => match bind_index(self.binds(), u) {
                    Some(i) => if bind_expired(self.binds()[i], now) {
                        r is None
                    } else {
                        r matches Some(x) && x@ == u
                    },
                    None => r is None,
                },
                None => r is None,
            },
    {
        let user = match self.find_code(code) {
            Some(u) => u,
            None => return None,
        };
        match self.find_bind(user.as_str()) {
            Some(i) => {
                assert(self.binds()[i as int] == self.bindings@[i as int]@);
                let created = self.bindings[i].created_at;
                if (now as i128) > (created as i128) + (BIND_TTL as i128) {
                    None
                } else {
                    Some(user)
                }
            },
            None => None,
        }
    }

    /// The user a binding code stands for, unless its binding has expired
    /// by now (which depends on the clock).
    pub fn check_bind_code(&self, code: &str) -> (r: Option<String>)
        ensures
            match code_user(self.codes(), code@) {
                Some(u) => match bind_index(self.binds(), u) {
                    Some(i) => r is None || (r matches Some(x) && x@ == u),
                    None => r is None,
                },
                None => r is None,
            },
    {
        self.check_bind_code_at(code, now_micros())
    }

    /// The binding status of a user now: `Expired` once older than ten
    /// minutes (which depends on the clock), else its stored status.
    pub fn get_bind_status(&self, user_id: &str) -> (r: Option<BindStatus>)
        ensures
            match bind_index(self.binds(), user_id@) {
                Some(i) => r == Some(BindStatus::Expired) || r == Some(self.binds()[i].status),
                None => r is None,
            },
    {
        self.bind_status_at(user_id, now_micros())
    }

    /// The binding status of a user at `now` (`Expired` once older than ten
    /// minutes), or `None` without a binding.
    pub fn bind_status_at(&self, user_id: &str, now: i64) -> (r: Option<BindStatus>)
        ensures
            match bind_index(self.binds(), user_id@) {
                Some(i) => r == Some(if bind_expired(self.binds()[i], now) {
                    BindStatus::Expired
                } else {
                    self.binds()[i].status
                }),
                None => r is None,
            },
    {
        match self.find_bind(user_id) {
            Some(i) => {
                assert(self.binds()[i as int] == self.bindings@[i as int]@);
                if (now as i128) > (self.bindings[i].created_at as i128) + (BIND_TTL as i128) {
                    Some(BindStatus::Expired)
                } else {
                    Some(self.bindings[i].status)
                }
            },
            None => None,
        }
    }

    /// The WeChat OpenID bound to a user, if any.
    pub fn get_bound_openid(&self, user_id: &str) -> (r: Option<String>)
        ensures
            match bind_index(self.binds(), user_id@) {
                Some(i) => match self.binds()[i].wechat_openid {
                    Some(o) => r matches Some(x) && x@ == o,
                    None => r is None,
                },
                None => r is None,
            },
    {
        match self.find_bind(user_id) {
            Some(i) => {
                assert(self.binds()[i as int] == self.bindings@[i as int]@);
                clone_opt(&self.bindings[i].wechat_openid)
            },
            None => None,
        }
    }

    /// Confirms a binding with the WeChat OpenID: the code's user is
    /// returned, its binding (if any) marked confirmed, and the code used up.
    pub fn confirm_bind(&mut self, code: &str, openid: &str) -> (r: Result<String, String>)
        ensures
            final(self).qrs() == old(self).qrs(),
            match code_user(old(self).codes(), code@) {
                None => r matches Err(e) && e@ == "Invalid bind code"@ && final(self).binds() == old(self).binds()
                    && final(self).codes() == old(self).codes(),
                Some(u) => {
                    &&& r matches Ok(x) && x@ == u
                    &&& code_user(final(self).codes(), code@) is None
                    &&& match bind_index(old(self).binds(), u) {
                        Some(i) => final(self).binds() == old(self).binds().update(
                            i,
                            BindView { status: BindStatus::Confirmed, wechat_openid: Some(openid@), ..old(self).binds()[i] },
                        ),
                        None => final(self).binds() == old(self).binds(),
                    }
                },
            },
    {
        let user = match self.find_code(code) {
            Some(u) => u,
            None => return Err(owned("Invalid bind code")),
        };
        match self.find_bind(user.as_str()) {
            Some(i) => {
                let ghost before = self.binds();
                assert(before[i as int] == self.bindings@[i as int]@);
                let b = &self.bindings[i];
                let nb = BindRequest {
                    user_id: b.user_id.clone(),
                    bind_code: b.bind_code.clone(),
                    status: BindStatus::Confirmed,
                    wechat_openid: Some(owned(openid)),
                    created_at: b.created_at,
                };
                let ghost nv = nb@;
                self.bindings.set(i, nb);
                assert(self.binds() =~= before.update(i as int, nv));
            },
            None => {},
        }
        self.remove_code(code);
        Ok(user)
    }

    fn remove_code(&mut self, code: &str)
        ensures
            final(self).qrs() == old(self).qrs(),
            final(self).binds() == old(self).binds(),
            code_user(final(self).codes(), code@) is None,
            forall|c: Seq<char>| c != code@ ==> code_user(final(self).codes(), c) == code_user(old(self).codes(), c),
    {
        let ghost all = self.codes();
        let mut kept: Vec<(String, String)> = Vec::new();
        let mut i: usize = 0;
        while i < self.bind_codes.len()
            invariant
                i <= self.bind_codes.len(),
                all == self.codes(),
                code_user(kept@.map_values(|p: (String, String)| (p.0@, p.1@)), code@) is None,
                forall|c: Seq<char>| c != code@ ==> code_user(kept@.map_values(|p: (String, String)| (p.0@, p.1@)), c)
                    == code_user(all.take(i as int), c),
            decreases self.bind_codes.len() - i,
        {
            let ghost before = kept@.map_values(|p: (String, String)| (p.0@, p.1@));
            let ghost e = (self.bind_codes@[i as int].0@, self.bind_codes@[i as int].1@);
            proof {
                assert(all.take(i + 1) =~= all.take(i as int).push(e));
                assert forall|c: Seq<char>| true implies #[trigger] code_user(all.take(i + 1), c) == match code_user(all.take(i as int), c) {
                    Some(u) => Some(u),
                    None => if e.0 == c { Some(e.1) } else { None },
                } by {
                    lemma_code_user_push(all.take(i as int), e, c);
                }
            }
            if !str_eq(self.bind_codes[i].0.as_str(), code) {
                kept.push((self.bind_codes[i].0.clone(), self.bind_codes[i].1.clone()));
                proof {
                    assert(kept@.map_values(|p: (String, String)| (p.0@, p.1@)) =~= before.push(e));
                    assert forall|c: Seq<char>| true implies #[trigger] code_user(before.push(e), c) == match code_user(before, c) {
                        Some(u) => Some(u),
                        None => if e.0 == c { Some(e.1) } else { None },
                    } by {
                        lemma_code_user_push(before, e, c);
                    }
                }
            }
            i = i + 1;
        }
        assert(all.take(self.bind_codes.len() as int) =~= all);
        self.bind_codes = kept;
    }

    /// Makes a binding code for a user at `now`: unconfirmed bindings
    /// older than ten minutes are dropped with their codes, and the user's
    /// earlier binding and codes are replaced by the new ones.
    pub fn create_bind_code_at(&mut self, user_id: &str, code: &str, now: i64)
        ensures
            final(self).qrs() == old(self).qrs(),
            final(self).binds() == seq![new_binding(user_id@, code@, now)] + kept_bindings(
                old(self).binds(),
                user_id@,
                now,
            ),
            final(self).codes() == seq![(code@, user_id@)] + kept_codes(
                old(self).codes(),
                stale_codes(old(self).binds(), now),
                user_id@,
            ),
    {
        let ghost bs0 = self.binds();
        let ghost cs0 = self.codes();
        let mut kept: Vec<BindRequest> = Vec::new();
        let mut stale: Vec<String> = Vec::new();
        let mut i: usize = 0;
        while i < self.bindings.len()
            invariant
                i <= self.bindings.len(),
                bs0 == self.binds(),
                kept@.map_values(|b: BindRequest| b@) == kept_bindings(bs0.take(i as int), user_id@, now),
                views(stale@) == stale_codes(bs0.take(i as int), now),
            decreases self.bindings.len() - i,
        {
            let ghost kb = kept@.map_values(|b: BindRequest| b@);
            let ghost sb = views(stale@);
            assert(bs0.take(i + 1).drop_last() =~= bs0.take(i as int));
            assert(bs0.take(i + 1).last() == self.bindings@[i as int]@);
            let b = &self.bindings[i];
            let is_stale = (b.created_at as i128) < (now as i128) - (BIND_TTL as i128) && b.status
                == BindStatus::Pending;
            if is_stale {
                stale.push(b.bind_code.clone());
                assert(views(stale@) =~= sb.push(b.bind_code@));
            } else if !str_eq(b.user_id.as_str(), user_id) {
                kept.push(BindRequest {
                    user_id: b.user_id.clone(),
                    bind_code: b.bind_code.clone(),
                    status: b.status,
                    wechat_openid: clone_opt(&b.wechat_openid),
                    created_at: b.created_at,
                });
                assert(kept@.map_values(|b: BindRequest| b@) =~= kb.push(self.bindings@[i as int]@));
            }
            i = i + 1;
        }
        assert(bs0.take(self.bindings.len() as int) =~= bs0);
        let mut codes: Vec<(String, String)> = Vec::new();
        codes.push((owned(code), owned(user_id)));
        let mut k: usize = 0;
        while k < self.bind_codes.len()
            invariant
                k <= self.bind_codes.len(),
                cs0 == self.codes(),
                views(stale@) == stale_codes(bs0, now),
                codes@.map_values(|p: (String, String)| (p.0@, p.1@)) == seq![(code@, user_id@)] + kept_codes(
                    cs0.take(k as int),
                    stale_codes(bs0, now),
                    user_id@,
                ),
            decreases self.bind_codes.len() - k,
        {
            let ghost before = codes@.map_values(|p: (String, String)| (p.0@, p.1@));
            let ghost e = (self.bind_codes@[k as int].0@, self.bind_codes@[k as int].1@);
            assert(cs0.take(k + 1).drop_last() =~= cs0.take(k as int));
            assert(cs0.take(k + 1).last() == e);
            let c = &self.bind_codes[k];
            let listed = holds(&stale, c.0.as_str());
            if !listed && !str_eq(c.1.as_str(), user_id) {
                codes.push((c.0.clone(), c.1.clone()));
                assert(codes@.map_values(|p: (String, String)| (p.0@, p.1@)) =~= before.push(e));
            }
            k = k + 1;
        }
        assert(cs0.take(self.bind_codes.len() as int) =~= cs0);
        self.bind_codes = codes;
        let mut bs: Vec<BindRequest> = Vec::new();
        bs.push(BindRequest {
            user_id: owned(user_id),
            bind_code: owned(code),
            status: BindStatus::Pending,
            wechat_openid: None,
            created_at: now,
        });
        let ghost first = bs@.map_values(|b: BindRequest| b@);
        assert(first =~= seq![new_binding(user_id@, code@, now)]);
        let mut j: usize = 0;
        while j < kept.len()
            invariant
                j <= kept.len(),
                bs@.map_values(|b: BindRequest| b@) == first + kept@.map_values(|b: BindRequest| b@).take(j as int),
            decreases kept.len() - j,
        {
            let ghost before = bs@.map_values(|b: BindRequest| b@);
            bs.push(BindRequest {
                user_id: kept[j].user_id.clone(),
                bind_code: kept[j].bind_code.clone(),
                status: kept[j].status,
                wechat_openid: clone_opt(&kept[j].wechat_openid),
                created_at: kept[j].created_at,
            });
            assert(bs@.map_values(|b: BindRequest| b@) =~= before.push(kept@[j as int]@));
            assert(kept@.map_values(|b: BindRequest| b@).take(j + 1) =~= kept@.map_values(|b: BindRequest| b@).take(j as int).push(kept@[j as int]@));
            j = j + 1;
        }
        assert(kept@.map_values(|b: BindRequest| b@).take(kept.len() as int) =~= kept@.map_values(|b: BindRequest| b@));
        self.bindings = bs;
    }

    /// Makes a random six-digit binding code for a user, now.
    pub fn create_bind_code(&mut self, user_id: &str) -> (r: String)
        ensures
            r@.len() == 6,
            forall|i: int| 0 <= i < 6 ==> '0' <= #[trigger] r@[i] <= '9',
            final(self).qrs() == old(self).qrs(),
            exists|now: i64|
                final(self).binds() == seq![new_binding(user_id@, r@, now)] + #[trigger] kept_bindings(
                    old(self).binds(),
                    user_id@,
                    now,
                ) && final(self).codes() == seq![(r@, user_id@)] + kept_codes(
                    old(self).codes(),
                    stale_codes(old(self).binds(), now),
                    user_id@,
                ),
    {
        let code = random_code();
        let now = now_micros();
        self.create_bind_code_at(user_id, code.as_str(), now);
        code
    }
}

proof fn lemma_code_user_push(cs: Seq<(Seq<char>, Seq<char>)>, e: (Seq<char>, Seq<char>), c: Seq<char>)
    ensures
        code_user(cs.push(e), c) == match code_user(cs, c) {
            Some(u) => Some(u),
            None => if e.0 == c { Some(e.1) } else { None },
        },
    decreases cs.len(),
{
    if cs.len() == 0 {
        assert(cs.push(e)[0] == e);
        assert(cs.push(e).drop_first() =~= Seq::<(Seq<char>, Seq<char>)>::empty());
    } else {
        assert(cs.push(e)[0] == cs[0]);
        assert(cs.push(e).drop_first() =~= cs.drop_first().push(e));
        lemma_code_user_push(cs.drop_first(), e, c);
    }
}


/// A binding code is valid right after it is made: it stands for its user,
/// whose binding is the fresh one, not yet expired.
pub proof fn law_fresh_code_is_valid(
    user: Seq<char>,
    code: Seq<char>,
    now: i64,
    rest_binds: Seq<BindView>,
    rest_codes: Seq<(Seq<char>, Seq<char>)>,
)
    ensures
        code_user(seq![(code, user)] + rest_codes, code) == Some(user),
        bind_index(seq![new_binding(user, code, now)] + rest_binds, user) == Some(0int),
        !bind_expired(new_binding(user, code, now), now),
{
    assert((seq![(code, user)] + rest_codes)[0] == (code, user));
    assert((seq![new_binding(user, code, now)] + rest_binds)[0] == new_binding(user, code, now));
}

proof fn lemma_qr_index_update(qs: Seq<QrView>, t: Seq<char>, i: int, q: QrView)
    requires
        qr_index(qs, t) == Some(i),
        q.token == t,
    ensures
        qr_index(qs.update(i, q), t) == Some(i),
        0 <= i < qs.len(),
    decreases qs.len(),
{
    if qs[0].token != t {
        lemma_qr_token_at(qs.drop_first(), t, i - 1);
        assert(qs.update(i, q).drop_first() =~= qs.drop_first().update(i - 1, q));
        lemma_qr_index_update(qs.drop_first(), t, i - 1, q);
    }
}

/// A QR login confirmed in time completes: the token then yields the user
/// who confirmed it.
pub proof fn law_confirmed_qr_completes(qs: Seq<QrView>, token: Seq<char>, user: Seq<char>, i: int)
    requires
        qr_index(qs, token) == Some(i),
    ensures
        ({
            let q = QrView { status: QrLoginStatus::Confirmed, user_id: Some(user), ..qs[i] };
            &&& qr_index(qs.update(i, q), token) == Some(i)
            &&& qs.update(i, q)[i].status == QrLoginStatus::Confirmed
            &&& qs.update(i, q)[i].user_id == Some(user)
        }),
{
    lemma_qr_token_at(qs, token, i);
    let q = QrView { status: QrLoginStatus::Confirmed, user_id: Some(user), ..qs[i] };
    lemma_qr_index_update(qs, token, i, q);
}

proof fn lemma_qr_token_at(qs: Seq<QrView>, t: Seq<char>, i: int)
    requires
        qr_index(qs, t) == Some(i),
    ensures
        0 <= i < qs.len(),
        qs[i].token == t,
    decreases qs.len(),
{
    if qs[0].token != t {
        lemma_qr_token_at(qs.drop_first(), t, i - 1);
    }
}

} // verus!
