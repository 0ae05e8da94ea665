//! Registration, login and the caller's own account.

use vstd::prelude::*;

use crate::credentials::{bcrypt_check, check_password, encode_token, hash_password, token_lifetime};
use crate::error::ApiError;
use crate::guard::caller_of;
use crate::ids::{fresh_pid, pid_text, uuid_text};
use crate::model::{Store, StoreModel, User, copy_text, user_pid, project_id, tag_id, testimonial_id, user_email, user_id};
use crate::query::{find_user_by_email, find_user_by_pid, first_index, user_has_email, user_has_pid};
use crate::tables::{lemma_push_all_below, lemma_push_unique_by, lemma_raise_bound};

verus! {

/// The work factor that passwords are hashed with.
pub const HASH_COST: u32 = 12;

#[derive(Debug)]
pub struct RegisterRequest {
    pub email: String,
    pub password: String,
    pub name: Option<String>,
}

#[derive(Debug)]
pub struct LoginRequest {
    pub email: String,
    pub password: String,
}

#[derive(Debug)]
pub struct UserResponse {
    pub id: String,
    pub email: String,
    pub name: Option<String>,
    pub avatar_url: Option<String>,
}

#[derive(Debug)]
pub struct AuthResponse {
    pub token: String,
    pub expires_in: u64,
    pub user: UserResponse,
}

/// `r` shows account `u`.
pub open spec fn user_shown(r: UserResponse, u: User) -> bool {
    &&& r.id@ == uuid_text(u.pid)
    &&& r.email == u.email
    &&& r.name == u.name
    &&& r.avatar_url == u.avatar_url
}

/// Some account has this email.
pub open spec fn email_taken(m: StoreModel, email: Seq<char>) -> bool {
    first_index(m.users, user_has_email(email)) is Some
}

/// The account that registering adds.
pub open spec fn registered_user(m: StoreModel, body: RegisterRequest, pid: u128, password_hash: String) -> User {
    User {
        id: m.next_id,
        pid: pid,
        email: body.email,
        password_hash: Some(password_hash),
        name: body.name,
        avatar_url: None,
    }
}

/// The account that an email and a password open: the one with that email,
/// where it has a stored hash that the password matches. Every failure is
/// the same `Unauthenticated`.
pub open spec fn credentials_ok(m: StoreModel, email: Seq<char>, password: Seq<char>) -> Result<int, ApiError> {
    match first_index(m.users, user_has_email(email)) {
        None => Err(ApiError::Unauthenticated),
        Some(i) => match m.users[i].password_hash {
            None => Err(ApiError::Unauthenticated),
            Some(h) => if bcrypt_check(password, h@) == Some(true) {
                Ok(i)
            } else {
                Err(ApiError::Unauthenticated)
            },
        },
    }
}

pub fn to_user_response(u: &User) -> (r: UserResponse)
    ensures
        user_shown(r, *u),
{
    UserResponse {
        id: pid_text(u.pid),
        email: u.email.clone(),
        name: copy_text(&u.name),
        avatar_url: copy_text(&u.avatar_url),
    }
}

/// Adds an account with the given external identifier and password hash,
/// and answers with the given token; the email must be new.
pub fn register_with(
    db: &mut Store,
    body: RegisterRequest,
    pid: u128,
    password_hash: String,
    token: String,
    expires_in: u64,
) -> (r: Result<AuthResponse, ApiError>)
    requires
        old(db)@.wf(),
    ensures
        final(db)@.wf(),
        if email_taken(old(db)@, body.email@) {
            r == Err::<AuthResponse, ApiError>(ApiError::Conflict) && final(db)@ == old(db)@
        } else if first_index(old(db)@.users, user_has_pid(pid)) is Some || old(db)@.next_id
            == u64::MAX {
            r == Err::<AuthResponse, ApiError>(ApiError::Internal) && final(db)@ == old(db)@
        } else {
            let row = registered_user(old(db)@, body, pid, password_hash);
            &&& final(db)@ == (StoreModel {
                users: old(db)@.users.push(row),
                next_id: (old(db)@.next_id + 1) as u64,
                ..old(db)@
            })
            &&& r matches Ok(resp) && resp.token == token && resp.expires_in == expires_in
                && user_shown(resp.user, row)
        },
{
    if find_user_by_email(&db.users, &body.email).is_some() {
        return Err(ApiError::Conflict);
    }
    if find_user_by_pid(&db.users, pid).is_some() || db.next_id == u64::MAX {
        return Err(ApiError::Internal);
    }
    let ghost m = db@;
    let row = User {
        id: db.next_id,
        pid,
        email: body.email,
        password_hash: Some(password_hash),
        name: body.name,
        avatar_url: None,
    };
    let user = to_user_response(&row);
    proof {
        assert forall|i: int| 0 <= i < m.users.len() implies #[trigger] user_email()(m.users[i])
            != user_email()(row) by {
            if user_email()(m.users[i]) == user_email()(row) {
                assert(user_has_email(row.email@)(m.users[i]));
                crate::query::lemma_first_index_none(m.users, user_has_email(row.email@), i);
            }
        }
    }
    proof {
        crate::query::lemma_first_index_absent(m.users, user_has_pid(pid));
        assert forall|i: int| 0 <= i < m.users.len() implies #[trigger] user_pid()(m.users[i])
            != user_pid()(row) by {
            assert(!user_has_pid(pid)(m.users[i]));
        }
        lemma_push_unique_by(m.users, row, user_pid());
    }
    db.users.push(row);
    db.next_id = db.next_id + 1;
    proof {
        lemma_push_unique_by(m.users, row, user_id());
        lemma_push_all_below(m.users, row, user_id(), m.next_id, db.next_id);
        lemma_push_unique_by(m.users, row, user_email());
        lemma_raise_bound(m.projects, project_id(), m.next_id, db.next_id);
        lemma_raise_bound(m.testimonials, testimonial_id(), m.next_id, db.next_id);
        lemma_raise_bound(m.tags, tag_id(), m.next_id, db.next_id);
    }
    Ok(AuthResponse { token, expires_in, user })
}

/// A signed token for `subject`, issued at `now` and valid for the
/// configured lifetime, with that lifetime; `Internal` where the expiry
/// would not fit in 64 bits or signing fails.
fn issue_token(config: &rapina::auth::AuthConfig, subject: String, now: u64) -> (r: Result<(String, u64), ApiError>)
    ensures
        r matches Ok((_, lifetime)) ==> now + lifetime <= u64::MAX,
        r matches Err(e) ==> e == ApiError::Internal,
{
    let lifetime = token_lifetime(config);
    let expires_at = match now.checked_add(lifetime) {
        Some(t) => t,
        None => return Err(ApiError::Internal),
    };
    match encode_token(config, subject, now, expires_at) {
        Some(token) => Ok((token, lifetime)),
        None => Err(ApiError::Internal),
    }
}

/// Registers an account: the email must be new; the password is stored
/// only as a salted hash that the password opens, and the answer carries a
/// token for the account issued at `now`.
pub fn register(db: &mut Store, auth: &rapina::auth::AuthConfig, body: RegisterRequest, now: u64) -> (r: Result<AuthResponse, ApiError>)
    requires
        old(db)@.wf(),
    ensures
        final(db)@.wf(),
        if email_taken(old(db)@, body.email@) {
            r == Err::<AuthResponse, ApiError>(ApiError::Conflict) && final(db)@ == old(db)@
        } else {
            ||| r == Err::<AuthResponse, ApiError>(ApiError::Internal) && final(db)@ == old(db)@
            ||| exists|pid: u128, password_hash: String| {
                let row = #[trigger] registered_user(old(db)@, body, pid, password_hash);
                &&& bcrypt_check(body.password@, password_hash@) == Some(true)
                &&& final(db)@ == (StoreModel {
                    users: old(db)@.users.push(row),
                    next_id: (old(db)@.next_id + 1) as u64,
                    ..old(db)@
                })
                &&& r matches Ok(resp) && user_shown(resp.user, row)
            }
        },
{
    if find_user_by_email(&db.users, &body.email).is_some() {
        return Err(ApiError::Conflict);
    }
    let password_hash = match hash_password(body.password.as_str(), HASH_COST) {
        Some(h) => h,
        None => return Err(ApiError::Internal),
    };
    let pid = fresh_pid();
    let (token, expires_in) = issue_token(auth, pid_text(pid), now)?;
    let ghost b = body;
    let r = register_with(db, body, pid, password_hash, token, expires_in);
    proof {
        if r is Ok {
            let row = registered_user(old(db)@, b, pid, password_hash);
            assert(final(db)@ == (StoreModel {
                users: old(db)@.users.push(row),
                next_id: (old(db)@.next_id + 1) as u64,
                ..old(db)@
            }));
        }
    }
    r
}

/// The position of the account that an email and a password open.
pub fn check_credentials(db: &Store, email: &String, password: &String) -> (r: Result<usize, ApiError>)
    ensures
        r matches Ok(i) ==> credentials_ok(db@, email@, password@) == Ok::<int, ApiError>(i as int),
        r matches Err(e) ==> credentials_ok(db@, email@, password@) == Err::<int, ApiError>(e),
        r matches Ok(i) ==> i < db@.users.len(),
{
    let i = match find_user_by_email(&db.users, email) {
        Some(i) => i,
        None => return Err(ApiError::Unauthenticated),
    };
    match &db.users[i].password_hash {
        None => Err(ApiError::Unauthenticated),
        Some(h) => match check_password(password.as_str(), h.as_str()) {
            Some(true) => Ok(i),
            _ => Err(ApiError::Unauthenticated),
        },
    }
}

/// Opens a session: answers with a token, issued at `now`, for the account
/// that the email and the password open.
pub fn login(db: &Store, auth: &rapina::auth::AuthConfig, body: LoginRequest, now: u64) -> (r: Result<AuthResponse, ApiError>)
    ensures
        match credentials_ok(db@, body.email@, body.password@) {
            Err(e) => r == Err::<AuthResponse, ApiError>(e),
            Ok(i) => r == Err::<AuthResponse, ApiError>(ApiError::Internal) || (r matches Ok(resp)
                && user_shown(resp.user, db@.users[i])),
        },
{
    let i = check_credentials(db, &body.email, &body.password)?;
    let (token, expires_in) = issue_token(auth, pid_text(db.users[i].pid), now)?;
    Ok(AuthResponse { token, expires_in, user: to_user_response(&db.users[i]) })
}

/// The caller's own account.
pub fn me(db: &Store, current_user: &str) -> (r: Result<UserResponse, ApiError>)
    ensures
        match caller_of(db@, current_user@) {
            None => r == Err::<UserResponse, ApiError>(ApiError::Unauthenticated),
            Some(_) => {
                let i = first_index(db@.users, user_has_pid(crate::ids::uuid_parse(current_user@)->0))->0;
                r matches Ok(resp) && user_shown(resp, db@.users[i])
            },
        },
{
    let pid = match crate::ids::parse_pid(current_user) {
        Some(p) => p,
        None => return Err(ApiError::Unauthenticated),
    };
    match find_user_by_pid(&db.users, pid) {
        None => Err(ApiError::Unauthenticated),
        Some(i) => Ok(to_user_response(&db.users[i])),
    }
}

} // verus!
