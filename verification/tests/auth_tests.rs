use tais_core::auth::{
    bearer_token, hash_password, registration_error, subject_of_claims, verify_password, AuthState, BindStatus,
    QrLoginStatus, BIND_TTL, QR_TTL,
};

#[test]
fn password_round_trip() {
    let h = hash_password("s3cret").unwrap();
    assert!(h.starts_with("$argon2"));
    assert_eq!(verify_password("s3cret", &h), Ok(true));
    assert_eq!(verify_password("wrong", &h), Ok(false));
    assert!(verify_password("s3cret", "not a phc string").is_err());
}

#[test]
fn two_hashes_of_one_password_differ_but_both_verify() {
    let a = hash_password("pw").unwrap();
    let b = hash_password("pw").unwrap();
    assert_ne!(a, b);
    assert_eq!(verify_password("pw", &b), Ok(true));
}

#[test]
fn bearer_header() {
    assert_eq!(bearer_token(Some("Bearer abc.def")), Some("abc.def".to_string()));
    assert_eq!(bearer_token(Some("Basic abc")), None);
    assert_eq!(bearer_token(Some("Bearer ")), Some(String::new()));
    assert_eq!(bearer_token(None), None);
}

#[test]
fn qr_login_flow() {
    let mut a = AuthState::new("secret", 24);
    let t = a.create_qr_token_at("tok", 1_000);
    assert_eq!(t.status, QrLoginStatus::Pending);
    assert_eq!(t.expires_at, 1_000 + QR_TTL);
    assert_eq!(a.qr_status_at("tok", 2_000), Some(QrLoginStatus::Pending));
    assert_eq!(a.complete_qr_login("tok"), None);
    assert_eq!(a.confirm_qr_at("tok", "alice", 2_000), Ok(()));
    assert_eq!(a.qr_status_at("tok", 2_000), Some(QrLoginStatus::Confirmed));
    assert_eq!(a.complete_qr_login("tok"), Some("alice".to_string()));
}

#[test]
fn qr_errors() {
    let mut a = AuthState::new("secret", 24);
    assert_eq!(a.confirm_qr_at("nope", "u", 0), Err("QR token not found".to_string()));
    assert_eq!(a.qr_status_at("nope", 0), None);
    a.create_qr_token_at("tok", 0);
    assert_eq!(a.qr_status_at("tok", QR_TTL + 1), Some(QrLoginStatus::Expired));
    assert_eq!(a.confirm_qr_at("tok", "u", QR_TTL + 1), Err("QR token expired".to_string()));
    assert_eq!(a.complete_qr_login("tok"), None);
}

#[test]
fn expired_qr_tokens_are_dropped_on_next_create() {
    let mut a = AuthState::new("secret", 24);
    a.create_qr_token_at("old", 0);
    a.create_qr_token_at("new", QR_TTL + 5);
    assert_eq!(a.qr_status_at("old", QR_TTL + 5), None);
    assert_eq!(a.qr_status_at("new", QR_TTL + 5), Some(QrLoginStatus::Pending));
}

#[test]
fn random_qr_token_is_32_alphanumerics() {
    let mut a = AuthState::new("secret", 24);
    let t = a.create_qr_token();
    assert_eq!(t.token.len(), 32);
    assert!(t.token.chars().all(|c| c.is_ascii_alphanumeric()));
    assert_eq!(a.qr_status_at(&t.token, t.created_at), Some(QrLoginStatus::Pending));
}

#[test]
fn bind_code_flow() {
    let mut a = AuthState::new("secret", 24);
    a.create_bind_code_at("alice", "123456", 0);
    assert_eq!(a.check_bind_code_at("123456", 10), Some("alice".to_string()));
    assert_eq!(a.bind_status_at("alice", 10), Some(BindStatus::Pending));
    assert_eq!(a.get_bound_openid("alice"), None);
    assert_eq!(a.confirm_bind("123456", "oXYZ"), Ok("alice".to_string()));
    assert_eq!(a.bind_status_at("alice", 10), Some(BindStatus::Confirmed));
    assert_eq!(a.get_bound_openid("alice"), Some("oXYZ".to_string()));
    assert_eq!(a.check_bind_code_at("123456", 10), None);
    assert_eq!(a.confirm_bind("123456", "oXYZ"), Err("Invalid bind code".to_string()));
}

#[test]
fn bind_code_expires_after_ten_minutes() {
    let mut a = AuthState::new("secret", 24);
    a.create_bind_code_at("bob", "654321", 0);
    assert_eq!(a.check_bind_code_at("654321", BIND_TTL), Some("bob".to_string()));
    assert_eq!(a.check_bind_code_at("654321", BIND_TTL + 1), None);
    assert_eq!(a.bind_status_at("bob", BIND_TTL + 1), Some(BindStatus::Expired));
}

#[test]
fn new_code_replaces_the_users_old_one() {
    let mut a = AuthState::new("secret", 24);
    a.create_bind_code_at("bob", "111111", 0);
    a.create_bind_code_at("carol", "222222", 0);
    a.create_bind_code_at("bob", "333333", 5);
    assert_eq!(a.check_bind_code_at("111111", 10), None);
    assert_eq!(a.check_bind_code_at("333333", 10), Some("bob".to_string()));
    assert_eq!(a.check_bind_code_at("222222", 10), Some("carol".to_string()));
}

#[test]
fn stale_pending_bindings_are_dropped_with_their_codes() {
    let mut a = AuthState::new("secret", 24);
    a.create_bind_code_at("dave", "444444", 0);
    a.create_bind_code_at("erin", "555555", BIND_TTL + 1);
    assert_eq!(a.bind_status_at("dave", BIND_TTL + 1), None);
    assert_eq!(a.confirm_bind("444444", "o1"), Err("Invalid bind code".to_string()));
}

#[test]
fn random_bind_code_is_six_digits() {
    let mut a = AuthState::new("secret", 24);
    let c = a.create_bind_code("frank");
    assert_eq!(c.len(), 6);
    assert!(c.chars().all(|ch| ch.is_ascii_digit()));
    assert!(a.check_bind_code_at(&c, i64::MIN).is_some());
}

#[test]
fn auth_clock_reading_calls_follow_the_stored_state() {
    let mut a = AuthState::new("secret", 24);
    let t = a.create_qr_token();
    assert_eq!(a.get_qr_status(&t.token), Some(QrLoginStatus::Pending));
    assert_eq!(a.get_qr_status("unknown"), None);
    assert_eq!(a.confirm_qr("unknown", "bob"), Err("QR token not found".to_string()));
    assert_eq!(a.confirm_qr(&t.token, "bob"), Ok(()));
    assert_eq!(a.get_qr_status(&t.token), Some(QrLoginStatus::Confirmed));
    assert_eq!(a.complete_qr_login(&t.token), Some("bob".to_string()));

    let code = a.create_bind_code("bob");
    assert_eq!(a.check_bind_code(&code), Some("bob".to_string()));
    assert_eq!(a.get_bind_status("bob"), Some(BindStatus::Pending));
    assert_eq!(a.get_bind_status("carol"), None);
    assert_eq!(a.confirm_bind(&code, "oBOB"), Ok("bob".to_string()));
    assert_eq!(a.get_bind_status("bob"), Some(BindStatus::Confirmed));
    assert_eq!(a.get_bound_openid("bob"), Some("oBOB".to_string()));
    assert_eq!(a.check_bind_code(&code), None);
}

#[test]
fn registration_needs_a_name_and_six_byte_password() {
    assert_eq!(registration_error("", "secret1"), Some("用户名不能为空，密码至少6位"));
    assert_eq!(registration_error("bob", "12345"), Some("用户名不能为空，密码至少6位"));
    assert_eq!(registration_error("bob", "123456"), None);
    // two CJK characters are six bytes
    assert_eq!(registration_error("bob", "密码"), None);
}

#[test]
fn login_token_round_trip() {
    let a = AuthState::new("secret", 24);
    let t = a.create_jwt("alice").unwrap();
    assert_ne!(t, "alice");
    assert_eq!(t.split('.').count(), 3);
    assert_eq!(a.verify_jwt(&t), Ok("alice".to_string()));
    let header = format!("Bearer {t}");
    assert_eq!(a.extract_user(Some(&header)), Some("alice".to_string()));
    assert_eq!(a.extract_user(Some(&t)), None);
    assert_eq!(a.extract_user(None), None);
}

#[test]
fn login_token_depends_on_its_inputs() {
    let a = AuthState::new("secret", 24);
    let t1 = a.create_jwt_at("alice", 1_700_000_000).unwrap();
    let t2 = a.create_jwt_at("alice", 1_700_000_000).unwrap();
    assert_eq!(t1, t2);
    assert_ne!(t1, a.create_jwt_at("bob", 1_700_000_000).unwrap());
    assert_ne!(t1, AuthState::new("other", 24).create_jwt_at("alice", 1_700_000_000).unwrap());
}

#[test]
fn login_token_checks_secret_and_expiry() {
    let a = AuthState::new("secret", 24);
    let b = AuthState::new("other", 24);
    let t = a.create_jwt("alice").unwrap();
    assert!(b.verify_jwt(&t).unwrap_err().starts_with("JWT decode error: "));
    let old = a.create_jwt_at("alice", 1_000).unwrap();
    assert!(a.verify_jwt(&old).unwrap_err().starts_with("JWT decode error: "));
    assert!(a.verify_jwt("not a token").unwrap_err().starts_with("JWT decode error: "));
}

#[test]
fn subject_needs_all_three_claims() {
    assert_eq!(subject_of_claims(Ok((Some("u".to_string()), Some(5), Some(1)))), Ok("u".to_string()));
    assert_eq!(
        subject_of_claims(Ok((Some("u".to_string()), Some(5), None))),
        Err("JWT decode error: missing claim".to_string())
    );
    assert_eq!(subject_of_claims(Err("JWT decode error: x".to_string())), Err("JWT decode error: x".to_string()));
}
