//! Resolving the caller and the entities that external identifiers name,
//! and walking the ownership chain: existence first, then ownership.

use vstd::prelude::*;

use crate::error::ApiError;
use crate::ids::{parse_pid, uuid_parse};
use crate::model::{Store, StoreModel};
use crate::query::{
    find_project_by_id, find_project_by_pid, find_tag_by_pid, find_testimonial_by_pid,
    find_user_by_pid, first_index, project_has_id, project_has_pid, tag_has_pid,
    testimonial_has_pid, user_has_pid,
};

verus! {

/// The internal id of the account that a credential's subject names, if any.
pub open spec fn caller_of(m: StoreModel, subject: Seq<char>) -> Option<u64> {
    match uuid_parse(subject) {
        None => None,
        Some(pid) => match first_index(m.users, user_has_pid(pid)) {
            None => None,
            Some(i) => Some(m.users[i].id),
        },
    }
}

/// The position of the project that an external identifier names.
pub open spec fn project_named(m: StoreModel, ext: Seq<char>) -> Option<int> {
    match uuid_parse(ext) {
        None => None,
        Some(pid) => first_index(m.projects, project_has_pid(pid)),
    }
}

/// The position of the testimonial that an external identifier names.
pub open spec fn testimonial_named(m: StoreModel, ext: Seq<char>) -> Option<int> {
    match uuid_parse(ext) {
        None => None,
        Some(pid) => first_index(m.testimonials, testimonial_has_pid(pid)),
    }
}

/// The position of the tag that an external identifier names.
pub open spec fn tag_named(m: StoreModel, ext: Seq<char>) -> Option<int> {
    match uuid_parse(ext) {
        None => None,
        Some(pid) => first_index(m.tags, tag_has_pid(pid)),
    }
}

/// The position of the project with an internal id.
pub open spec fn project_with_id(m: StoreModel, id: u64) -> Option<int> {
    first_index(m.projects, project_has_id(id))
}

/// Authentication, then existence, then ownership of a project; on success
/// the project's position.
pub open spec fn project_access(m: StoreModel, subject: Seq<char>, ext: Seq<char>) -> Result<int, ApiError> {
    match caller_of(m, subject) {
        None => Err(ApiError::Unauthenticated),
        Some(uid) => match project_named(m, ext) {
            None => Err(ApiError::NotFound),
            Some(p) => if m.projects[p].user_id == uid {
                Ok(p)
            } else {
                Err(ApiError::Forbidden)
            },
        },
    }
}

/// The owning project of a resource that lives in the project with internal
/// id `project_id`, checked against the caller `uid`.
pub open spec fn chain_access(m: StoreModel, uid: u64, project_id: u64) -> Result<int, ApiError> {
    match project_with_id(m, project_id) {
        None => Err(ApiError::NotFound),
        Some(p) => if m.projects[p].user_id == uid {
            Ok(p)
        } else {
            Err(ApiError::Forbidden)
        },
    }
}

/// Authentication, then existence of the testimonial and of its project,
/// then ownership; on success the positions of testimonial and project.
pub open spec fn testimonial_access(m: StoreModel, subject: Seq<char>, ext: Seq<char>) -> Result<(int, int), ApiError> {
    match caller_of(m, subject) {
        None => Err(ApiError::Unauthenticated),
        Some(uid) => match testimonial_named(m, ext) {
            None => Err(ApiError::NotFound),
            Some(t) => match chain_access(m, uid, m.testimonials[t].project_id) {
                Err(e) => Err(e),
                Ok(p) => Ok((t, p)),
            },
        },
    }
}

/// Authentication, then existence of the tag and of its project, then
/// ownership; on success the positions of tag and project.
pub open spec fn tag_access(m: StoreModel, subject: Seq<char>, ext: Seq<char>) -> Result<(int, int), ApiError> {
    match caller_of(m, subject) {
        None => Err(ApiError::Unauthenticated),
        Some(uid) => match tag_named(m, ext) {
            None => Err(ApiError::NotFound),
            Some(t) => match chain_access(m, uid, m.tags[t].project_id) {
                Err(e) => Err(e),
                Ok(p) => Ok((t, p)),
            },
        },
    }
}

/// Maps a credential's subject to the internal id of its account.
pub fn resolve_user_id(db: &Store, current_user: &str) -> (r: Result<u64, ApiError>)
    ensures
        r == (match caller_of(db@, current_user@) {
            Some(uid) => Ok(uid),
            None => Err(ApiError::Unauthenticated),
        }),
{
    match parse_pid(current_user) {
        None => Err(ApiError::Unauthenticated),
        Some(pid) => match find_user_by_pid(&db.users, pid) {
            None => Err(ApiError::Unauthenticated),
            Some(i) => Ok(db.users[i].id),
        },
    }
}

fn check_chain(db: &Store, uid: u64, project_id: u64) -> (r: Result<usize, ApiError>)
    ensures
        r matches Ok(p) ==> chain_access(db@, uid, project_id) == Ok::<int, ApiError>(p as int),
        r matches Err(e) ==> chain_access(db@, uid, project_id) == Err::<int, ApiError>(e),
        r matches Ok(p) ==> p < db@.projects.len(),
{
    match find_project_by_id(&db.projects, project_id) {
        None => Err(ApiError::NotFound),
        Some(p) => if db.projects[p].user_id == uid {
            Ok(p)
        } else {
            Err(ApiError::Forbidden)
        },
    }
}

/// The position of the project that `id` names, where the caller owns it.
pub fn authorize_project(db: &Store, current_user: &str, id: &str) -> (r: Result<usize, ApiError>)
    ensures
        r matches Ok(p) ==> project_access(db@, current_user@, id@) == Ok::<int, ApiError>(p as int),
        r matches Err(e) ==> project_access(db@, current_user@, id@) == Err::<int, ApiError>(e),
        r matches Ok(p) ==> p < db@.projects.len(),
{
    let uid = resolve_user_id(db, current_user)?;
    match parse_pid(id) {
        None => Err(ApiError::NotFound),
        Some(pid) => match find_project_by_pid(&db.projects, pid) {
            None => Err(ApiError::NotFound),
            Some(p) => if db.projects[p].user_id == uid {
                Ok(p)
            } else {
                Err(ApiError::Forbidden)
            },
        },
    }
}

/// The positions of the testimonial that `id` names and of its project,
/// where the caller owns that project.
pub fn authorize_testimonial(db: &Store, current_user: &str, id: &str) -> (r: Result<(usize, usize), ApiError>)
    ensures
        r matches Ok((t, p)) ==> testimonial_access(db@, current_user@, id@) == Ok::<(int, int), ApiError>((t as int, p as int)),
        r matches Err(e) ==> testimonial_access(db@, current_user@, id@) == Err::<(int, int), ApiError>(e),
        r matches Ok((t, p)) ==> t < db@.testimonials.len() && p < db@.projects.len(),
{
    let uid = resolve_user_id(db, current_user)?;
    match parse_pid(id) {
        None => Err(ApiError::NotFound),
        Some(pid) => match find_testimonial_by_pid(&db.testimonials, pid) {
            None => Err(ApiError::NotFound),
            Some(t) => {
                let p = check_chain(db, uid, db.testimonials[t].project_id)?;
                Ok((t, p))
            },
        },
    }
}

/// The positions of the tag that `id` names and of its project, where the
/// caller owns that project.
pub fn authorize_tag(db: &Store, current_user: &str, id: &str) -> (r: Result<(usize, usize), ApiError>)
    ensures
        r matches Ok((t, p)) ==> tag_access(db@, current_user@, id@) == Ok::<(int, int), ApiError>((t as int, p as int)),
        r matches Err(e) ==> tag_access(db@, current_user@, id@) == Err::<(int, int), ApiError>(e),
        r matches Ok((t, p)) ==> t < db@.tags.len() && p < db@.projects.len(),
{
    let uid = resolve_user_id(db, current_user)?;
    match parse_pid(id) {
        None => Err(ApiError::NotFound),
        Some(pid) => match find_tag_by_pid(&db.tags, pid) {
            None => Err(ApiError::NotFound),
            Some(t) => {
                let p = check_chain(db, uid, db.tags[t].project_id)?;
                Ok((t, p))
            },
        },
    }
}

} // verus!
