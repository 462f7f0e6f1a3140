//! Registration, login, auto-login, logout, and the session-resolution
//! primitive every mutating operation uses.
//!
//! The session discipline: at most one session row per user; a second login
//! while a session is live is refused; a login after the session expired
//! overwrites the row in place; expiry is checked by every consumer and an
//! expired row is lazily removed by auto-login.

use vstd::prelude::*;
use crate::crypto::{bcrypt_accepts, hash_password, password_accepted};
use crate::error::ServiceError;
use crate::models::{Session, User};
use crate::store::{
    has_session_for_user, has_session_id, has_user_email, has_user_id, has_user_named,
    lemma_remove_keeps, lemma_session_for_user, lemma_session_with_id, lemma_user_by_id,
    lemma_user_named, same_domain_tables, session_for_user, session_index_for_user,
    session_index_of, session_with_id, user_by_id, user_named, Store,
};
use crate::token::new_session_token;

verus! {

/// Lifetime of a session created with the remember-me flag: ten days.
pub const PERSISTENT_SESSION_SECS: i64 = 864000;

/// Lifetime of an ordinary session: thirty minutes.
pub const SHORT_SESSION_SECS: i64 = 1800;

// ---------------------------------------------------------------------------
// Wire types.
// ---------------------------------------------------------------------------

pub struct CheckUsernameRequest {
    pub username: String,
}

pub struct CheckUsernameResponse {
    pub is_unique: bool,
}

pub struct CheckEmailRequest {
    pub email: String,
}

pub struct CheckEmailResponse {
    pub is_unique: bool,
}

pub struct RegisterRequest {
    pub username: String,
    pub email: String,
    pub password: String,
}

pub struct RegisterResponse {
    pub success: bool,
    pub message: String,
}

pub struct LoginRequest {
    pub username: String,
    pub password: String,
    pub remember_me: bool,
}

pub struct LoginResponse {
    pub success: bool,
    pub message: String,
}

pub struct AutoLoginRequest {}

pub struct AutoLoginResponse {
    pub success: bool,
    pub message: String,
    pub username: String,
}

pub struct LogoutRequest {}

pub struct LogoutResponse {
    pub success: bool,
    pub message: String,
}

// ---------------------------------------------------------------------------
// Session specification helpers.
// ---------------------------------------------------------------------------

/// Expiry instant of a session issued at `now`.
pub open spec fn login_expiry(now: i64, remember: bool) -> int {
    if remember {
        now + PERSISTENT_SESSION_SECS
    } else {
        now + SHORT_SESSION_SECS
    }
}

/// The presented token denotes a live session of an existing user.
pub open spec fn resolve_ok(st: Store, sid: Seq<char>, now: i64) -> bool {
    &&& has_session_id(st.sessions@, sid)
    &&& session_with_id(st.sessions@, sid).expires_at > now
    &&& has_user_id(st.users@, session_with_id(st.sessions@, sid).user_id)
}

/// The user a live session token acts for.
pub open spec fn resolved_user(st: Store, sid: Seq<char>) -> User {
    user_by_id(st.users@, session_with_id(st.sessions@, sid).user_id)
}

// ---------------------------------------------------------------------------
// Operations.
// ---------------------------------------------------------------------------

/// Whether a username is still free.
pub fn check_username(st: &Store, req: &CheckUsernameRequest) -> (r: CheckUsernameResponse)
    ensures
        r.is_unique == !has_user_named(st.users@, req.username@),
{
    let found = st.find_user_by_name(&req.username);
    CheckUsernameResponse { is_unique: found.is_none() }
}

/// Whether an email address is still free.
pub fn check_email(st: &Store, req: &CheckEmailRequest) -> (r: CheckEmailResponse)
    ensures
        r.is_unique == !has_user_email(st.users@, req.email@),
{
    let found = st.find_user_by_email(&req.email);
    CheckEmailResponse { is_unique: found.is_none() }
}

/// Register a new user.  The plaintext password is never stored: the new
/// row carries a hash that the password check accepts for it.  Fails with
/// `Conflict` when the username or email is already taken.
pub fn register(st: &mut Store, req: &RegisterRequest) -> (r: Result<(), ServiceError>)
    requires
        old(st).wf(),
    ensures
        final(st).wf(),
        final(st).sessions@ == old(st).sessions@,
        same_domain_tables(*old(st), *final(st)),
        match r {
            Ok(()) => {
                &&& !has_user_named(old(st).users@, req.username@)
                &&& !has_user_email(old(st).users@, req.email@)
                &&& old(st).next_id < i32::MAX
                &&& final(st).users@.len() == old(st).users@.len() + 1
                &&& final(st).users@.drop_last() == old(st).users@
                &&& ({
                    let u = final(st).users@.last();
                    &&& u.user_id == old(st).next_id
                    &&& u.user_name@ == req.username@
                    &&& u.user_email@ == req.email@
                    &&& bcrypt_accepts(req.password@, u.password_hash@)
                    &&& u.password_hash@.len() == 60
                })
                &&& final(st).next_id == old(st).next_id + 1
            },
            Err(e) => {
                &&& final(st).users@ == old(st).users@
                &&& final(st).next_id == old(st).next_id
                &&& match e {
                    ServiceError::Conflict => has_user_named(old(st).users@, req.username@)
                        || has_user_email(old(st).users@, req.email@),
                    ServiceError::StorageFailure => !has_user_named(old(st).users@, req.username@)
                        && !has_user_email(old(st).users@, req.email@),
                    _ => false,
                }
            },
        },
{
    if st.find_user_by_name(&req.username).is_some() {
        return Err(ServiceError::Conflict);
    }
    if st.find_user_by_email(&req.email).is_some() {
        return Err(ServiceError::Conflict);
    }
    let hashed = match hash_password(&req.password) {
        Some(h) => h,
        None => {
            return Err(ServiceError::StorageFailure);
        },
    };
    store_new_user(st, &req.username, &req.email, hashed)
}

/// Install a user row carrying an already computed password hash: the
/// second half of a registration, stated exactly for every hash value.
/// Succeeds if and only if the username and email are free and the
/// identifier space is not exhausted.
pub fn store_new_user(st: &mut Store, username: &String, email: &String, password_hash: String)
    -> (r: Result<(), ServiceError>)
    requires
        old(st).wf(),
    ensures
        final(st).wf(),
        final(st).sessions@ == old(st).sessions@,
        same_domain_tables(*old(st), *final(st)),
        match r {
            Ok(()) => {
                &&& !has_user_named(old(st).users@, username@)
                &&& !has_user_email(old(st).users@, email@)
                &&& old(st).next_id < i32::MAX
                &&& final(st).users@ == old(st).users@.push(
                    User {
                        user_id: old(st).next_id,
                        user_name: *username,
                        user_email: *email,
                        password_hash: password_hash,
                    },
                )
                &&& final(st).next_id == old(st).next_id + 1
            },
            Err(e) => {
                &&& final(st).users@ == old(st).users@
                &&& final(st).next_id == old(st).next_id
                &&& match e {
                    ServiceError::Conflict => has_user_named(old(st).users@, username@)
                        || has_user_email(old(st).users@, email@),
                    ServiceError::StorageFailure => !has_user_named(old(st).users@, username@)
                        && !has_user_email(old(st).users@, email@) && old(st).next_id == i32::MAX,
                    _ => false,
                }
            },
        },
{
    if st.find_user_by_name(username).is_some() {
        return Err(ServiceError::Conflict);
    }
    if st.find_user_by_email(email).is_some() {
        return Err(ServiceError::Conflict);
    }
    if st.next_id == i32::MAX {
        return Err(ServiceError::StorageFailure);
    }
    let row = User {
        user_id: st.next_id,
        user_name: username.clone(),
        user_email: email.clone(),
        password_hash,
    };
    st.users.push(row);
    st.next_id = st.next_id + 1;
    assert(final(st).wf());
    Ok(())
}

/// Install a freshly generated session token for a user: the second half of
/// a login, after the credential check, stated exactly for every possible
/// token.  Refuses with `SessionAlreadyActive` while an unexpired session
/// row for the user exists; overwrites an expired row in place; inserts a
/// row otherwise.  A token that collides with another stored session is the
/// storage layer's uniqueness violation, `StorageFailure`.
pub fn create_session(st: &mut Store, uid: i32, token: String, remember: bool, now: i64) -> (r:
    Result<String, ServiceError>)
    requires
        old(st).wf(),
        old(st).id_ok(uid),
        now <= i64::MAX - PERSISTENT_SESSION_SECS,
    ensures
        final(st).wf(),
        final(st).users@ == old(st).users@,
        same_domain_tables(*old(st), *final(st)),
        final(st).next_id == old(st).next_id,
        match r {
            Ok(tok) => {
                &&& tok@ == token@
                &&& !has_session_id(old(st).sessions@, token@)
                &&& !(has_session_for_user(old(st).sessions@, uid) && session_for_user(
                    old(st).sessions@,
                    uid,
                ).expires_at > now)
                &&& ({
                    let srow = Session {
                        session_id: tok,
                        user_id: uid,
                        expires_at: login_expiry(now, remember) as i64,
                        is_persistent: remember,
                    };
                    if has_session_for_user(old(st).sessions@, uid) {
                        final(st).sessions@ == old(st).sessions@.update(
                            session_index_for_user(old(st).sessions@, uid),
                            srow,
                        )
                    } else {
                        final(st).sessions@ == old(st).sessions@.push(srow)
                    }
                })
            },
            Err(e) => {
                &&& final(st).sessions@ == old(st).sessions@
                &&& match e {
                    ServiceError::SessionAlreadyActive => has_session_for_user(
                        old(st).sessions@,
                        uid,
                    ) && session_for_user(old(st).sessions@, uid).expires_at > now,
                    ServiceError::StorageFailure => has_session_id(old(st).sessions@, token@) && !(
                    has_session_for_user(old(st).sessions@, uid) && session_for_user(
                        old(st).sessions@,
                        uid,
                    ).expires_at > now),
                    _ => false,
                }
            },
        },
{
    let expires_at: i64 = if remember {
        now + PERSISTENT_SESSION_SECS
    } else {
        now + SHORT_SESSION_SECS
    };
    let existing = st.find_session_by_user(uid);
    match existing {
        Some(k) => {
            proof {
                lemma_session_for_user(st.sessions@, k as int);
            }
            if st.sessions[k].expires_at > now {
                return Err(ServiceError::SessionAlreadyActive);
            }
            match st.find_session_by_id(&token) {
                Some(_) => Err(ServiceError::StorageFailure),
                None => {
                    let srow = Session {
                        session_id: token.clone(),
                        user_id: uid,
                        expires_at,
                        is_persistent: remember,
                    };
                    st.sessions[k] = srow;
                    proof {
                        let ss = old(st).sessions@;
                        let nss = final(st).sessions@;
                        assert forall|i: int, j: int|
                            #![trigger nss[i], nss[j]]
                            0 <= i < j < nss.len() implies nss[i].session_id@ != nss[j].session_id@
                            && nss[i].user_id != nss[j].user_id by {
                            assert(ss[i].session_id@ != ss[j].session_id@ && ss[i].user_id
                                != ss[j].user_id);
                        }
                        assert(final(st).wf());
                    }
                    Ok(token)
                },
            }
        },
        None => {
            match st.find_session_by_id(&token) {
                Some(_) => Err(ServiceError::StorageFailure),
                None => {
                    let srow = Session {
                        session_id: token.clone(),
                        user_id: uid,
                        expires_at,
                        is_persistent: remember,
                    };
                    st.sessions.push(srow);
                    proof {
                        let ss = old(st).sessions@;
                        let nss = final(st).sessions@;
                        assert forall|i: int, j: int|
                            #![trigger nss[i], nss[j]]
                            0 <= i < j < nss.len() implies nss[i].session_id@ != nss[j].session_id@
                            && nss[i].user_id != nss[j].user_id by {
                            if j < nss.len() - 1 {
                                assert(ss[i].session_id@ != ss[j].session_id@ && ss[i].user_id
                                    != ss[j].user_id);
                            }
                        }
                        assert(final(st).wf());
                    }
                    Ok(token)
                },
            }
        },
    }
}

/// Log a user in: check the credentials, then issue a fresh opaque session
/// token.  Fails with `InvalidCredentials` on an unknown username or a
/// rejected password, with `SessionAlreadyActive` while the user's prior
/// session is unexpired, and overwrites an expired prior session in place.
pub fn login(st: &mut Store, req: &LoginRequest, now: i64) -> (r: Result<String, ServiceError>)
    requires
        old(st).wf(),
        now <= i64::MAX - PERSISTENT_SESSION_SECS,
    ensures
        final(st).wf(),
        final(st).users@ == old(st).users@,
        same_domain_tables(*old(st), *final(st)),
        final(st).next_id == old(st).next_id,
        match r {
            Ok(tok) => {
                &&& has_user_named(old(st).users@, req.username@)
                &&& ({
                    let u = user_named(old(st).users@, req.username@);
                    &&& bcrypt_accepts(req.password@, u.password_hash@)
                    &&& !has_session_id(old(st).sessions@, tok@)
                    &&& !(has_session_for_user(old(st).sessions@, u.user_id) && session_for_user(
                        old(st).sessions@,
                        u.user_id,
                    ).expires_at > now)
                    &&& ({
                        let srow = Session {
                            session_id: tok,
                            user_id: u.user_id,
                            expires_at: login_expiry(now, req.remember_me) as i64,
                            is_persistent: req.remember_me,
                        };
                        if has_session_for_user(old(st).sessions@, u.user_id) {
                            final(st).sessions@ == old(st).sessions@.update(
                                session_index_for_user(old(st).sessions@, u.user_id),
                                srow,
                            )
                        } else {
                            final(st).sessions@ == old(st).sessions@.push(srow)
                        }
                    })
                })
            },
            Err(e) => {
                &&& final(st).sessions@ == old(st).sessions@
                &&& match e {
                    ServiceError::InvalidCredentials => !has_user_named(
                        old(st).users@,
                        req.username@,
                    ) || !bcrypt_accepts(
                        req.password@,
                        user_named(old(st).users@, req.username@).password_hash@,
                    ),
                    ServiceError::SessionAlreadyActive => {
                        let u = user_named(old(st).users@, req.username@);
                        &&& has_user_named(old(st).users@, req.username@)
                        &&& bcrypt_accepts(req.password@, u.password_hash@)
                        &&& has_session_for_user(old(st).sessions@, u.user_id)
                        &&& session_for_user(old(st).sessions@, u.user_id).expires_at > now
                    },
                    ServiceError::StorageFailure => {
                        let u = user_named(old(st).users@, req.username@);
                        &&& has_user_named(old(st).users@, req.username@)
                        &&& bcrypt_accepts(req.password@, u.password_hash@)
                        &&& !(has_session_for_user(old(st).sessions@, u.user_id)
                            && session_for_user(old(st).sessions@, u.user_id).expires_at > now)
                    },
                    _ => false,
                }
            },
        },
{
    let ui = match st.find_user_by_name(&req.username) {
        Some(i) => i,
        None => {
            return Err(ServiceError::InvalidCredentials);
        },
    };
    proof {
        lemma_user_named(st.users@, ui as int);
    }
    if !password_accepted(&req.password, &st.users[ui].password_hash) {
        return Err(ServiceError::InvalidCredentials);
    }
    let uid = st.users[ui].user_id;
    let token = new_session_token();
    create_session(st, uid, token, req.remember_me, now)
}

/// Re-authenticate from a presented cookie token.  An expired session is
/// removed as a side effect, so a later attempt with the same token reports
/// `NotFound`, not `Expired`.  Success returns the session's username and
/// does not extend the expiry.
pub fn auto_login(st: &mut Store, session_id: Option<&String>, now: i64) -> (r: Result<
    String,
    ServiceError,
>)
    requires
        old(st).wf(),
    ensures
        final(st).wf(),
        final(st).users@ == old(st).users@,
        same_domain_tables(*old(st), *final(st)),
        final(st).next_id == old(st).next_id,
        match r {
            Ok(name) => {
                &&& session_id matches Some(sid)
                &&& has_session_id(old(st).sessions@, sid@)
                &&& ({
                    let s = session_with_id(old(st).sessions@, sid@);
                    &&& !(s.expires_at < now)
                    &&& has_user_id(old(st).users@, s.user_id)
                    &&& name@ == user_by_id(old(st).users@, s.user_id).user_name@
                })
                &&& final(st).sessions@ == old(st).sessions@
            },
            Err(e) => match e {
                ServiceError::NoSession => session_id is None && final(st).sessions@ == old(st).sessions@,
                ServiceError::NotFound => session_id matches Some(sid) && !has_session_id(
                    old(st).sessions@,
                    sid@,
                ) && final(st).sessions@ == old(st).sessions@,
                ServiceError::Expired => session_id matches Some(sid) && has_session_id(
                    old(st).sessions@,
                    sid@,
                ) && session_with_id(old(st).sessions@, sid@).expires_at < now && final(st).sessions@ == old(st).sessions@.remove(
                    session_index_of(old(st).sessions@, sid@),
                ) && !has_session_id(final(st).sessions@, sid@),
                ServiceError::StorageFailure => session_id matches Some(sid) && has_session_id(
                    old(st).sessions@,
                    sid@,
                ) && !(session_with_id(old(st).sessions@, sid@).expires_at < now)
                    && !has_user_id(
                    old(st).users@,
                    session_with_id(old(st).sessions@, sid@).user_id,
                ) && final(st).sessions@ == old(st).sessions@,
                _ => false,
            },
        },
{
    let sid = match session_id {
        Some(s) => s,
        None => {
            return Err(ServiceError::NoSession);
        },
    };
    let k = match st.find_session_by_id(sid) {
        Some(k) => k,
        None => {
            return Err(ServiceError::NotFound);
        },
    };
    proof {
        lemma_session_with_id(st.sessions@, k as int);
    }
    if st.sessions[k].expires_at < now {
        st.sessions.remove(k);
        proof {
            let ss = old(st).sessions@;
            let nss = final(st).sessions@;
            assert forall|i: int, j: int|
                #![trigger nss[i], nss[j]]
                0 <= i < j < nss.len() implies nss[i].session_id@ != nss[j].session_id@
                && nss[i].user_id != nss[j].user_id by {
                lemma_remove_keeps(ss, k as int, i);
                lemma_remove_keeps(ss, k as int, j);
            }
            assert forall|i: int| 0 <= i < nss.len() implies final(st).id_ok(
                (#[trigger] nss[i]).user_id,
            ) by {
                lemma_remove_keeps(ss, k as int, i);
            }
            assert forall|i: int| 0 <= i < nss.len() implies (#[trigger] nss[i]).session_id@
                != ss[k as int].session_id@ by {
                lemma_remove_keeps(ss, k as int, i);
            }
            assert(!has_session_id(nss, ss[k as int].session_id@));
            assert(final(st).wf());
        }
        return Err(ServiceError::Expired);
    }
    let uid = st.sessions[k].user_id;
    let ui = match st.find_user_by_id(uid) {
        Some(i) => i,
        None => {
            return Err(ServiceError::StorageFailure);
        },
    };
    proof {
        lemma_user_by_id(st.users@, ui as int);
    }
    Ok(st.users[ui].user_name.clone())
}

/// Log out: delete the presented session row.  A missing cookie, an unknown
/// token, and an already expired session are each reported distinctly; the
/// expired row is left in place, exactly as presented.
pub fn logout(st: &mut Store, session_id: Option<&String>, now: i64) -> (r: Result<
    (),
    ServiceError,
>)
    requires
        old(st).wf(),
    ensures
        final(st).wf(),
        final(st).users@ == old(st).users@,
        same_domain_tables(*old(st), *final(st)),
        final(st).next_id == old(st).next_id,
        match r {
            Ok(()) => {
                &&& session_id matches Some(sid)
                &&& has_session_id(old(st).sessions@, sid@)
                &&& !(session_with_id(old(st).sessions@, sid@).expires_at < now)
                &&& final(st).sessions@ == old(st).sessions@.remove(
                    session_index_of(old(st).sessions@, sid@),
                )
                &&& !has_session_id(final(st).sessions@, sid@)
            },
            Err(e) => final(st).sessions@ == old(st).sessions@ && match e {
                ServiceError::NoSession => session_id is None,
                ServiceError::NotFound => session_id matches Some(sid) && !has_session_id(
                    old(st).sessions@,
                    sid@,
                ),
                ServiceError::AlreadyExpired => session_id matches Some(sid) && has_session_id(
                    old(st).sessions@,
                    sid@,
                ) && session_with_id(old(st).sessions@, sid@).expires_at < now,
                _ => false,
            },
        },
{
    let sid = match session_id {
        Some(s) => s,
        None => {
            return Err(ServiceError::NoSession);
        },
    };
    let k = match st.find_session_by_id(sid) {
        Some(k) => k,
        None => {
            return Err(ServiceError::NotFound);
        },
    };
    proof {
        lemma_session_with_id(st.sessions@, k as int);
    }
    if st.sessions[k].expires_at < now {
        return Err(ServiceError::AlreadyExpired);
    }
    st.sessions.remove(k);
    proof {
        let ss = old(st).sessions@;
        let nss = final(st).sessions@;
        assert forall|i: int, j: int|
            #![trigger nss[i], nss[j]]
            0 <= i < j < nss.len() implies nss[i].session_id@ != nss[j].session_id@
            && nss[i].user_id != nss[j].user_id by {
            lemma_remove_keeps(ss, k as int, i);
            lemma_remove_keeps(ss, k as int, j);
        }
        assert forall|i: int| 0 <= i < nss.len() implies final(st).id_ok(
            (#[trigger] nss[i]).user_id,
        ) by {
            lemma_remove_keeps(ss, k as int, i);
        }
        assert forall|i: int| 0 <= i < nss.len() implies (#[trigger] nss[i]).session_id@
            != ss[k as int].session_id@ by {
            lemma_remove_keeps(ss, k as int, i);
        }
        assert(!has_session_id(nss, ss[k as int].session_id@));
        assert(final(st).wf());
    }
    Ok(())
}

/// The session-resolution primitive: the presented token must denote a live
/// session of an existing user, else the request is `Unauthorized` (or
/// `NoSession` when no token was presented at all).
pub fn resolve_current_user(st: &Store, session_id: Option<&String>, now: i64) -> (r: Result<
    String,
    ServiceError,
>)
    requires
        st.wf(),
    ensures
        match r {
            Ok(name) => {
                &&& session_id matches Some(sid)
                &&& resolve_ok(*st, sid@, now)
                &&& name@ == resolved_user(*st, sid@).user_name@
            },
            Err(e) => match e {
                ServiceError::NoSession => session_id is None,
                ServiceError::Unauthorized => session_id matches Some(sid) && !resolve_ok(
                    *st,
                    sid@,
                    now,
                ),
                _ => false,
            },
        },
{
    let sid = match session_id {
        Some(s) => s,
        None => {
            return Err(ServiceError::NoSession);
        },
    };
    let k = match st.find_session_by_id(sid) {
        Some(k) => k,
        None => {
            return Err(ServiceError::Unauthorized);
        },
    };
    proof {
        lemma_session_with_id(st.sessions@, k as int);
    }
    if !(st.sessions[k].expires_at > now) {
        return Err(ServiceError::Unauthorized);
    }
    let uid = st.sessions[k].user_id;
    let ui = match st.find_user_by_id(uid) {
        Some(i) => i,
        None => {
            return Err(ServiceError::Unauthorized);
        },
    };
    proof {
        lemma_user_by_id(st.users@, ui as int);
    }
    Ok(st.users[ui].user_name.clone())
}

// ---------------------------------------------------------------------------
// Session laws.
// ---------------------------------------------------------------------------

/// At most one session row exists per user: in a well-formed store, two
/// session rows carrying the same user id are one and the same row.
pub proof fn lemma_single_session_per_user(st: Store, i: int, j: int)
    requires
        st.wf(),
        0 <= i < st.sessions@.len(),
        0 <= j < st.sessions@.len(),
        st.sessions@[i].user_id == st.sessions@[j].user_id,
    ensures
        i == j,
{
    if i < j {
        assert(st.sessions@[i].user_id != st.sessions@[j].user_id);
    }
    if j < i {
        assert(st.sessions@[j].user_id != st.sessions@[i].user_id);
    }
}

/// Once the row holding a token is removed, the token denotes nothing: a
/// later lookup of the same token misses, so a repeated auto-login reports
/// `NotFound` rather than `Expired`.
pub proof fn lemma_stale_token_unknown(st: Store, k: int)
    requires
        st.wf(),
        0 <= k < st.sessions@.len(),
    ensures
        !has_session_id(st.sessions@.remove(k), st.sessions@[k].session_id@),
{
    let ss = st.sessions@;
    let nss = ss.remove(k);
    assert forall|i: int| 0 <= i < nss.len() implies (#[trigger] nss[i]).session_id@
        != ss[k].session_id@ by {
        lemma_remove_keeps(ss, k, i);
    }
}

} // verus!
