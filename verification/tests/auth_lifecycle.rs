//! The session and registration lifecycle, exercised end to end against an
//! in-memory store with real bcrypt hashing and real uuid tokens.

use flower::auth::{
    check_email, check_username, login, logout, register, resolve_current_user, CheckEmailRequest,
    CheckUsernameRequest, LoginRequest, RegisterRequest,
};
use flower::auth::auto_login;
use flower::admin::session_reset;
use flower::error::ServiceError;
use flower::store::Store;

fn register_user(st: &mut Store, name: &str, email: &str, pw: &str) {
    let r = register(
        st,
        &RegisterRequest {
            username: name.to_string(),
            email: email.to_string(),
            password: pw.to_string(),
        },
    );
    assert!(r.is_ok());
}

fn login_user(st: &mut Store, name: &str, pw: &str, remember: bool, now: i64) -> String {
    let r = login(
        st,
        &LoginRequest { username: name.to_string(), password: pw.to_string(), remember_me: remember },
        now,
    );
    r.expect("login should succeed")
}

#[test]
fn register_login_scenario() {
    // Register alice; a duplicate registration conflicts; login issues a
    // session that expires thirty minutes later.
    let mut st = Store::new();
    register_user(&mut st, "alice", "a@x.com", "pw123");
    let dup = register(
        &mut st,
        &RegisterRequest {
            username: "alice".to_string(),
            email: "other@x.com".to_string(),
            password: "zzz".to_string(),
        },
    );
    assert_eq!(dup, Err(ServiceError::Conflict));
    let dup_email = register(
        &mut st,
        &RegisterRequest {
            username: "bob".to_string(),
            email: "a@x.com".to_string(),
            password: "zzz".to_string(),
        },
    );
    assert_eq!(dup_email, Err(ServiceError::Conflict));

    let now: i64 = 1_000_000;
    let tok = login_user(&mut st, "alice", "pw123", false, now);
    assert_eq!(tok.len(), 36);
    assert_eq!(st.sessions.len(), 1);
    assert_eq!(st.sessions[0].expires_at, now + 1800);
    assert!(!st.sessions[0].is_persistent);
}

#[test]
fn login_rejects_bad_credentials() {
    let mut st = Store::new();
    register_user(&mut st, "alice", "a@x.com", "pw123");
    let now: i64 = 50;
    let wrong_pw = login(
        &mut st,
        &LoginRequest {
            username: "alice".to_string(),
            password: "nope".to_string(),
            remember_me: false,
        },
        now,
    );
    assert_eq!(wrong_pw, Err(ServiceError::InvalidCredentials));
    let wrong_user = login(
        &mut st,
        &LoginRequest {
            username: "bob".to_string(),
            password: "pw123".to_string(),
            remember_me: false,
        },
        now,
    );
    assert_eq!(wrong_user, Err(ServiceError::InvalidCredentials));
    assert_eq!(st.sessions.len(), 0);
}

#[test]
fn second_login_while_live_conflicts() {
    // At most one session row per user: a login while the prior session is
    // live is refused and no second row appears.
    let mut st = Store::new();
    register_user(&mut st, "alice", "a@x.com", "pw123");
    let now: i64 = 1_000_000;
    let _tok = login_user(&mut st, "alice", "pw123", false, now);
    let again = login(
        &mut st,
        &LoginRequest {
            username: "alice".to_string(),
            password: "pw123".to_string(),
            remember_me: false,
        },
        now + 60,
    );
    assert_eq!(again, Err(ServiceError::SessionAlreadyActive));
    assert_eq!(st.sessions.len(), 1);
}

#[test]
fn login_after_expiry_overwrites_in_place() {
    // The expired row is overwritten: same user id, new token and expiry,
    // still exactly one row.
    let mut st = Store::new();
    register_user(&mut st, "alice", "a@x.com", "pw123");
    let now: i64 = 1_000_000;
    let tok1 = login_user(&mut st, "alice", "pw123", false, now);
    let uid = st.sessions[0].user_id;
    let later = now + 1800 + 1;
    let tok2 = login_user(&mut st, "alice", "pw123", true, later);
    assert_eq!(st.sessions.len(), 1);
    assert_ne!(tok1, tok2);
    assert_eq!(st.sessions[0].session_id, tok2);
    assert_eq!(st.sessions[0].user_id, uid);
    assert_eq!(st.sessions[0].expires_at, later + 864000);
    assert!(st.sessions[0].is_persistent);
}

#[test]
fn auto_login_returns_username_and_keeps_expiry() {
    let mut st = Store::new();
    register_user(&mut st, "alice", "a@x.com", "pw123");
    let now: i64 = 1_000_000;
    let tok = login_user(&mut st, "alice", "pw123", false, now);
    let r = auto_login(&mut st, Some(&tok), now + 100);
    assert_eq!(r, Ok("alice".to_string()));
    // Sliding presentation, not sliding expiry.
    assert_eq!(st.sessions[0].expires_at, now + 1800);
}

#[test]
fn auto_login_expired_deletes_then_not_found() {
    // The expired row is removed as a side effect, so the same stale token
    // afterwards is NotFound, not Expired.
    let mut st = Store::new();
    register_user(&mut st, "alice", "a@x.com", "pw123");
    let now: i64 = 1_000_000;
    let tok = login_user(&mut st, "alice", "pw123", false, now);
    let stale = now + 1800 + 5;
    let first = auto_login(&mut st, Some(&tok), stale);
    assert_eq!(first, Err(ServiceError::Expired));
    assert_eq!(st.sessions.len(), 0);
    let second = auto_login(&mut st, Some(&tok), stale);
    assert_eq!(second, Err(ServiceError::NotFound));
}

#[test]
fn auto_login_without_cookie() {
    let mut st = Store::new();
    let r = auto_login(&mut st, None, 0);
    assert_eq!(r, Err(ServiceError::NoSession));
}

#[test]
fn logout_deletes_live_session_only() {
    let mut st = Store::new();
    register_user(&mut st, "alice", "a@x.com", "pw123");
    let now: i64 = 1_000_000;
    let tok = login_user(&mut st, "alice", "pw123", false, now);
    assert_eq!(logout(&mut st, None, now), Err(ServiceError::NoSession));
    let unknown = "not-a-token".to_string();
    assert_eq!(logout(&mut st, Some(&unknown), now), Err(ServiceError::NotFound));
    assert_eq!(logout(&mut st, Some(&tok), now + 10), Ok(()));
    assert_eq!(st.sessions.len(), 0);
    // Logging out an already expired session leaves the row in place.
    let tok2 = login_user(&mut st, "alice", "pw123", false, now);
    let r = logout(&mut st, Some(&tok2), now + 999_999);
    assert_eq!(r, Err(ServiceError::AlreadyExpired));
    assert_eq!(st.sessions.len(), 1);
}

#[test]
fn resolve_current_user_checks_expiry() {
    let mut st = Store::new();
    register_user(&mut st, "alice", "a@x.com", "pw123");
    let now: i64 = 1_000_000;
    let tok = login_user(&mut st, "alice", "pw123", false, now);
    assert_eq!(resolve_current_user(&st, Some(&tok), now + 1), Ok("alice".to_string()));
    assert_eq!(
        resolve_current_user(&st, Some(&tok), now + 1800),
        Err(ServiceError::Unauthorized)
    );
    assert_eq!(resolve_current_user(&st, None, now), Err(ServiceError::NoSession));
}

#[test]
fn uniqueness_checks() {
    let mut st = Store::new();
    register_user(&mut st, "alice", "a@x.com", "pw123");
    let taken = check_username(&st, &CheckUsernameRequest { username: "alice".to_string() });
    assert!(!taken.is_unique);
    let free = check_username(&st, &CheckUsernameRequest { username: "bob".to_string() });
    assert!(free.is_unique);
    let taken_mail = check_email(&st, &CheckEmailRequest { email: "a@x.com".to_string() });
    assert!(!taken_mail.is_unique);
    let free_mail = check_email(&st, &CheckEmailRequest { email: "b@x.com".to_string() });
    assert!(free_mail.is_unique);
}

#[test]
fn exhausted_id_space_is_a_storage_failure() {
    let mut st = Store::new();
    st.next_id = i32::MAX;
    let r = register(
        &mut st,
        &RegisterRequest {
            username: "alice".to_string(),
            email: "a@x.com".to_string(),
            password: "pw".to_string(),
        },
    );
    assert_eq!(r, Err(ServiceError::StorageFailure));
    assert_eq!(st.users.len(), 0);
}

#[test]
fn error_messages_are_stable() {
    assert_eq!(ServiceError::NoSession.message(), "Session ID not found");
    assert_eq!(ServiceError::Expired.message(), "Login is needed, session expired");
    assert_eq!(ServiceError::AlreadyExpired.message(), "Already expired session");
    assert_eq!(
        ServiceError::SessionAlreadyActive.message(),
        "User already has an active session"
    );
    assert_eq!(ServiceError::Unauthorized.message(), "Unauthorized action");
}

#[test]
fn session_reset_wipes_all_sessions() {
    let mut st = Store::new();
    register_user(&mut st, "alice", "a@x.com", "pw123");
    register_user(&mut st, "bob", "b@x.com", "pw456");
    let now: i64 = 1_000_000;
    let _t1 = login_user(&mut st, "alice", "pw123", false, now);
    let _t2 = login_user(&mut st, "bob", "pw456", false, now);
    assert_eq!(st.sessions.len(), 2);
    session_reset(&mut st);
    assert_eq!(st.sessions.len(), 0);
    assert_eq!(st.users.len(), 2);
}
