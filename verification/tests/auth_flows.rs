use apod_backend::auth::verify_token;
use apod_backend::error::AppError;
use apod_backend::handlers::{login, logout, register, root, RootView};
use apod_backend::models::user::{Claims, Keys, OptionalClaims, User, UserSignup};
use apod_backend::store::Store;
use apod_backend::EIGHT_HOURS_IN_SECONDS;

const SALT: &[u8] = b"somesalt";

fn test_keys() -> Keys {
    Keys::new(b"test-jwt-signing-secret")
}

fn current_unix_time() -> u64 {
    apod_backend::get_timestamp_after_8_hours() - EIGHT_HOURS_IN_SECONDS
}

fn signup(email: &str, password: &str, confirm: &str) -> UserSignup {
    UserSignup {
        email: email.to_owned(),
        password: password.to_owned(),
        confirm_password: confirm.to_owned(),
    }
}

fn register_ok(store: &mut Store, email: &str, password: &str, keys: &Keys, now: u64) -> String {
    register(store, signup(email, password, password), SALT, keys, now)
        .expect("registration should succeed")
}

#[test]
fn register_mismatched_confirmation_fails_and_stores_nothing() {
    let keys = test_keys();
    let mut store = Store::new();
    let r = register(
        &mut store,
        signup("a@example.com", "pw1", "pw2"),
        SALT,
        &keys,
        current_unix_time(),
    );
    assert!(matches!(r, Err(AppError::MissingCredentials)));
    assert_eq!(store.users.len(), 0);
}

#[test]
fn register_empty_credentials_fail() {
    let keys = test_keys();
    let mut store = Store::new();
    let r = register(&mut store, signup("", "pw", "pw"), SALT, &keys, current_unix_time());
    assert!(matches!(r, Err(AppError::MissingCredentials)));
    let r = register(
        &mut store,
        signup("a@example.com", "", ""),
        SALT,
        &keys,
        current_unix_time(),
    );
    assert!(matches!(r, Err(AppError::MissingCredentials)));
    assert_eq!(store.users.len(), 0);
}

#[test]
fn register_twice_same_email_fails_with_one_row() {
    let keys = test_keys();
    let mut store = Store::new();
    let now = current_unix_time();
    register_ok(&mut store, "dup@example.com", "hunter2", &keys, now);
    let second = register(
        &mut store,
        signup("dup@example.com", "other", "other"),
        SALT,
        &keys,
        now,
    );
    assert!(matches!(second, Err(AppError::UserAlreadyExists)));
    let rows = store.users.iter().filter(|u| u.email == "dup@example.com").count();
    assert_eq!(rows, 1);
}

#[test]
fn register_stores_hash_not_password() {
    let keys = test_keys();
    let mut store = Store::new();
    register_ok(&mut store, "h@example.com", "plaintext", &keys, current_unix_time());
    assert_eq!(store.users.len(), 1);
    assert_ne!(store.users[0].password, "plaintext");
    assert!(store.users[0].password.starts_with("$argon2"));
}

#[test]
fn register_short_salt_fails_hashing() {
    let keys = test_keys();
    let mut store = Store::new();
    let r = register(
        &mut store,
        signup("s@example.com", "pw", "pw"),
        b"short",
        &keys,
        current_unix_time(),
    );
    assert!(matches!(r, Err(AppError::Any(_))));
    assert_eq!(store.users.len(), 0);
}

#[test]
fn login_token_carries_email_and_eight_hour_expiry() {
    let keys = test_keys();
    let mut store = Store::new();
    let now = current_unix_time();
    register_ok(&mut store, "me@example.com", "hunter2", &keys, now);

    let cookie = login(
        &store,
        User { email: "me@example.com".to_owned(), password: "hunter2".to_owned() },
        &keys,
        now,
    )
    .expect("login should succeed");
    let token = cookie
        .strip_prefix("jwt=")
        .and_then(|rest| rest.strip_suffix("; HttpOnly"))
        .expect("cookie should carry the token");

    let claims = verify_token(token, &keys).expect("a fresh token should decode");
    assert_eq!(claims.email, "me@example.com");
    assert!(claims.exp >= now + EIGHT_HOURS_IN_SECONDS - 5);
    assert!(claims.exp <= now + EIGHT_HOURS_IN_SECONDS + 5);
}

#[test]
fn login_wrong_password_fails_without_token() {
    let keys = test_keys();
    let mut store = Store::new();
    let now = current_unix_time();
    register_ok(&mut store, "me@example.com", "hunter2", &keys, now);
    let r = login(
        &store,
        User { email: "me@example.com".to_owned(), password: "wrong".to_owned() },
        &keys,
        now,
    );
    assert!(matches!(r, Err(AppError::InvalidPassword)));
}

#[test]
fn login_unknown_email_fails() {
    let keys = test_keys();
    let store = Store::new();
    let r = login(
        &store,
        User { email: "ghost@example.com".to_owned(), password: "pw".to_owned() },
        &keys,
        current_unix_time(),
    );
    assert!(matches!(r, Err(AppError::UserDoesNotExist)));
}

#[test]
fn login_empty_credentials_fail() {
    let keys = test_keys();
    let store = Store::new();
    let r = login(
        &store,
        User { email: String::new(), password: "pw".to_owned() },
        &keys,
        current_unix_time(),
    );
    assert!(matches!(r, Err(AppError::MissingCredentials)));
}

#[test]
fn login_unhashed_stored_password_is_internal_error() {
    let keys = test_keys();
    let mut store = Store::new();
    store
        .create_user(signup("raw@example.com", "not-a-hash", "not-a-hash"))
        .expect("direct insert should succeed");
    let r = login(
        &store,
        User { email: "raw@example.com".to_owned(), password: "not-a-hash".to_owned() },
        &keys,
        current_unix_time(),
    );
    assert!(matches!(r, Err(AppError::InternalServerError)));
}

#[test]
fn claims_round_trip_through_cookie_header() {
    let keys = test_keys();
    let mut store = Store::new();
    let now = current_unix_time();
    let cookie = register_ok(&mut store, "rt@example.com", "pw123456", &keys, now);
    let token = cookie
        .strip_prefix("jwt=")
        .and_then(|rest| rest.strip_suffix("; HttpOnly"))
        .unwrap();

    let header = format!("jwt={}", token);
    let claims = Claims::from_cookie_header(Some(&header), &keys)
        .expect("a fresh session cookie should resolve");
    assert_eq!(claims.email, "rt@example.com");
    assert_eq!(claims.id, 0);
}

#[test]
fn claims_require_the_jwt_cookie() {
    let keys = test_keys();
    let r = Claims::from_cookie_header(Some("other=value"), &keys);
    assert!(matches!(r, Err(AppError::InvalidToken)));
    let r = Claims::from_cookie_header(None, &keys);
    assert!(matches!(r, Err(AppError::InvalidToken)));
    let r = Claims::from_cookie_header(Some("jwt=garbage.token.here"), &keys);
    assert!(matches!(r, Err(AppError::InvalidToken)));
}

#[test]
fn optional_claims_absorb_failures() {
    let keys = test_keys();
    let r = OptionalClaims::from_cookie_header(None, &keys);
    assert!(r.0.is_none());
    let r = OptionalClaims::from_cookie_header(Some("jwt=garbage"), &keys);
    assert!(r.0.is_none());
}

#[test]
fn jwt_cookie_header_extraction() {
    assert_eq!(
        apod_backend::auth::jwt_from_cookie_header("jwt=abc.def.ghi"),
        Some("abc.def.ghi".to_owned())
    );
    assert_eq!(apod_backend::auth::jwt_from_cookie_header("session=abc"), None);
    assert_eq!(apod_backend::auth::jwt_from_cookie_header("no cookie here"), None);
}

#[test]
fn claims_extraction_checks_every_field() {
    let good: serde_json::Value =
        serde_json::from_str("{\"id\":3,\"email\":\"x@example.com\",\"exp\":9}").unwrap();
    let claims = apod_backend::auth::claims_from_json(&good).unwrap();
    assert_eq!(claims.id, 3);
    assert_eq!(claims.email, "x@example.com");
    assert_eq!(claims.exp, 9);

    let missing_email: serde_json::Value =
        serde_json::from_str("{\"id\":3,\"exp\":9}").unwrap();
    assert!(matches!(
        apod_backend::auth::claims_from_json(&missing_email),
        Err(AppError::InvalidToken)
    ));

    let negative_exp: serde_json::Value =
        serde_json::from_str("{\"id\":3,\"email\":\"x\",\"exp\":-1}").unwrap();
    assert!(matches!(
        apod_backend::auth::claims_from_json(&negative_exp),
        Err(AppError::InvalidToken)
    ));

    let oversized_id: serde_json::Value =
        serde_json::from_str("{\"id\":4294967296,\"email\":\"x\",\"exp\":9}").unwrap();
    assert!(matches!(
        apod_backend::auth::claims_from_json(&oversized_id),
        Err(AppError::InvalidToken)
    ));
}

#[test]
fn verify_token_rejects_forged_token() {
    let keys = test_keys();
    let other_keys = Keys::new(b"a-different-secret");
    let mut store = Store::new();
    let now = current_unix_time();
    let cookie = register_ok(&mut store, "f@example.com", "pw123", &keys, now);
    let token = cookie
        .strip_prefix("jwt=")
        .and_then(|rest| rest.strip_suffix("; HttpOnly"))
        .unwrap();
    assert!(matches!(verify_token(token, &other_keys), Err(AppError::InvalidToken)));
}

#[test]
fn logout_clears_the_session_cookie() {
    assert_eq!(logout(), "jwt=; path=/; expires=Thu, 01 Jan 1970 00:00:00 UTC;");
}

#[test]
fn banned_user_sees_banned_view_even_as_admin() {
    let keys = test_keys();
    let mut store = Store::new();
    let now = current_unix_time();
    register_ok(&mut store, "baddie@example.com", "pw123", &keys, now);
    store.promote_admin_by_email("baddie@example.com".to_owned()).unwrap();
    store.ban_user_by_email("baddie@example.com".to_owned()).unwrap();

    let claims = Claims { id: 0, email: "baddie@example.com".to_owned(), exp: now };
    let view = root(&mut store, OptionalClaims(Some(claims))).unwrap();
    assert!(matches!(view, RootView::Banned { .. }));
}

#[test]
fn anonymous_caller_sees_anonymous_view() {
    let mut store = Store::new();
    let view = root(&mut store, OptionalClaims(None)).unwrap();
    assert!(matches!(view, RootView::Anonymous));
}

#[test]
fn main_view_reports_admin_flag_and_posts() {
    let keys = test_keys();
    let mut store = Store::new();
    let now = current_unix_time();
    register_ok(&mut store, "user@example.com", "pw123", &keys, now);
    store.promote_admin_by_email("user@example.com".to_owned()).unwrap();
    store
        .add_post(apod_backend::models::post::CreatePost {
            title: "t".to_owned(),
            query_string: "2001-01-01".to_owned(),
            explanation: "e".to_owned(),
            img_url: "u".to_owned(),
            apod_date: "2001-01-01".to_owned(),
        })
        .unwrap();

    let claims = Claims { id: 0, email: "user@example.com".to_owned(), exp: now };
    let view = root(&mut store, OptionalClaims(Some(claims))).unwrap();
    match view {
        RootView::Main { is_admin, all_posts, top_posts, .. } => {
            assert!(is_admin);
            assert_eq!(all_posts.len(), 1);
            assert_eq!(all_posts[0].num_likes, 0);
            assert!(!all_posts[0].already_liked);
            assert_eq!(top_posts.len(), 0);
        },
        _ => panic!("expected the main view"),
    }
}

#[test]
fn error_responses_match_the_taxonomy() {
    assert_eq!(
        AppError::MissingCredentials.response_parts(),
        (401, "Your credentials were missing or otherwise incorrect".to_owned())
    );
    assert_eq!(
        AppError::UserDoesNotExist.response_parts(),
        (401, "Your account does not exist!".to_owned())
    );
    assert_eq!(
        AppError::UserAlreadyExists.response_parts(),
        (
            401,
            "There is already an account with that email address in the system".to_owned()
        )
    );
    assert_eq!(AppError::InvalidToken.response_parts(), (401, "Invalid Token".to_owned()));
    assert_eq!(
        AppError::InvalidPassword.response_parts(),
        (401, "Invalid Password".to_owned())
    );
    assert_eq!(
        AppError::InternalServerError.response_parts(),
        (500, "Something terrible happened".to_owned())
    );
    assert_eq!(
        AppError::NASAError.response_parts(),
        (500, "Something terrible happened with NASA".to_owned())
    );
    assert_eq!(
        AppError::InvalidDateRange.response_parts(),
        (400, "You used a value outside the legal date-range for NASA".to_owned())
    );
    assert_eq!(
        AppError::Database("down".to_owned()).response_parts(),
        (503, "down".to_owned())
    );
    assert_eq!(
        AppError::Any("boom".to_owned()).response_parts(),
        (500, "Internal server error! boom".to_owned())
    );
}

#[test]
fn timestamp_is_eight_hours_ahead() {
    assert_eq!(apod_backend::timestamp_after_8_hours_from(1000), 1000 + 28800);
    assert_eq!(apod_backend::timestamp_after_8_hours_from(u64::MAX - 10), u64::MAX);
    let ts = apod_backend::get_timestamp_after_8_hours();
    assert!(ts >= EIGHT_HOURS_IN_SECONDS);
}
