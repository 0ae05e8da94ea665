//! Projects: the tenants, with globally unique slugs.

use vstd::prelude::*;

use crate::error::ApiError;
use crate::guard::{authorize_project, caller_of, project_access, project_named, resolve_user_id};
use crate::ids::{fresh_pid, pid_text, uuid_text};
use crate::model::{
    Project, Store, StoreModel, copy_text, project_pid, tag_pid, testimonial_pid, project_id, project_slug, tag_id,
    tag_scoped_name, testimonial_id,
};
use crate::prune::{
    lemma_links_ok_without_project,
    link_outside_project, links_outside, not_project, outside_project, projects_without,
    tag_outside_project, tags_without, testimonials_without,
};
use crate::query::{first_index, project_has_pid};
use crate::tables::{
    lemma_filter_all_below, lemma_filter_came_from, lemma_filter_prefix_step, lemma_filter_unique_by,
    lemma_links_ok_rows,
    lemma_push_all_below, lemma_push_unique_by, lemma_raise_bound, lemma_update_all_below,
    lemma_update_same_key, lemma_update_unique_by,
};

verus! {

broadcast use vstd::seq_lib::group_seq_properties;

#[derive(Debug)]
pub struct CreateProjectRequest {
    pub name: String,
    pub slug: String,
    pub logo_url: Option<String>,
    pub website_url: Option<String>,
}

#[derive(Debug)]
pub struct UpdateProjectRequest {
    pub name: Option<String>,
    pub slug: Option<String>,
    pub logo_url: Option<String>,
    pub website_url: Option<String>,
}

#[derive(Debug)]
pub struct ProjectResponse {
    pub id: String,
    pub name: String,
    pub slug: String,
    pub logo_url: Option<String>,
    pub website_url: Option<String>,
    pub created_at: u64,
    pub updated_at: u64,
}

/// `r` shows project `p` to a client.
pub open spec fn project_shown(r: ProjectResponse, p: Project) -> bool {
    &&& r.id@ == uuid_text(p.pid)
    &&& r.name == p.name
    &&& r.slug == p.slug
    &&& r.logo_url == p.logo_url
    &&& r.website_url == p.website_url
    &&& r.created_at == p.created_at
    &&& r.updated_at == p.updated_at
}

pub open spec fn projects_shown(rs: Seq<ProjectResponse>, ps: Seq<Project>) -> bool {
    rs.len() == ps.len() && forall|i: int| 0 <= i < ps.len() ==> project_shown(#[trigger] rs[i], ps[i])
}

pub open spec fn owned_by(uid: u64) -> spec_fn(Project) -> bool {
    |p: Project| p.user_id == uid
}

/// Some project other than the one at position `except` has this slug.
pub open spec fn slug_in_use(ps: Seq<Project>, slug: Seq<char>, except: int) -> bool {
    exists|j: int| 0 <= j < ps.len() && j != except && (#[trigger] ps[j]).slug@ == slug
}

/// The row that creating a project adds.
pub open spec fn created_project(m: StoreModel, uid: u64, body: CreateProjectRequest, pid: u128, now: u64) -> Project {
    Project {
        id: m.next_id,
        pid: pid,
        user_id: uid,
        name: body.name,
        slug: body.slug,
        logo_url: body.logo_url,
        website_url: body.website_url,
        created_at: now,
        updated_at: now,
    }
}

/// Adding the project that `body` describes, for `uid`, under external
/// identifier `pid`: refused as `Internal` with nothing changed where `pid`
/// is taken or internal ids are spent; else the row is appended and shown.
pub open spec fn project_inserted(
    old: StoreModel,
    new: StoreModel,
    r: Result<ProjectResponse, ApiError>,
    uid: u64,
    body: CreateProjectRequest,
    pid: u128,
    now: u64,
) -> bool {
    if first_index(old.projects, project_has_pid(pid)) is Some || old.next_id == u64::MAX {
        r == Err::<ProjectResponse, ApiError>(ApiError::Internal) && new == old
    } else {
        let row = created_project(old, uid, body, pid, now);
        &&& r matches Ok(resp) && project_shown(resp, row)
        &&& new == (StoreModel {
            projects: old.projects.push(row),
            next_id: (old.next_id + 1) as u64,
            ..old
        })
    }
}

/// A project with the fields that a request gives replaced.
pub open spec fn updated_project(p: Project, body: UpdateProjectRequest) -> Project {
    Project {
        name: match body.name {
            Some(n) => n,
            None => p.name,
        },
        slug: match body.slug {
            Some(s) => s,
            None => p.slug,
        },
        logo_url: if body.logo_url is Some {
            body.logo_url
        } else {
            p.logo_url
        },
        website_url: if body.website_url is Some {
            body.website_url
        } else {
            p.website_url
        },
        ..p
    }
}

/// The store after project `id` is deleted, with everything that hangs on it.
pub open spec fn without_project(m: StoreModel, id: u64) -> StoreModel {
    StoreModel {
        projects: m.projects.filter(not_project(id)),
        testimonials: m.testimonials.filter(outside_project(id)),
        tags: m.tags.filter(tag_outside_project(id)),
        links: m.links.filter(link_outside_project(m, id)),
        ..m
    }
}

pub fn to_response(p: &Project) -> (r: ProjectResponse)
    ensures
        project_shown(r, *p),
{
    ProjectResponse {
        id: pid_text(p.pid),
        name: p.name.clone(),
        slug: p.slug.clone(),
        logo_url: copy_text(&p.logo_url),
        website_url: copy_text(&p.website_url),
        created_at: p.created_at,
        updated_at: p.updated_at,
    }
}

fn find_slug(v: &Vec<Project>, slug: &String, except: usize) -> (r: bool)
    ensures
        r == slug_in_use(v@, slug@, except as int),
{
    let mut i: usize = 0;
    while i < v.len()
        invariant
            i <= v@.len(),
            forall|j: int| 0 <= j < i && j != except ==> (#[trigger] v@[j]).slug@ != slug@,
        decreases v.len() - i,
    {
        if i != except && v[i].slug == *slug {
            return true;
        }
        i += 1;
    }
    false
}

/// The projects that the caller owns, in store order.
pub fn list_projects(db: &Store, current_user: &str) -> (r: Result<Vec<ProjectResponse>, ApiError>)
    ensures
        match caller_of(db@, current_user@) {
            None => r == Err::<Vec<ProjectResponse>, ApiError>(ApiError::Unauthenticated),
            Some(uid) => r matches Ok(rs) && projects_shown(rs@, db@.projects.filter(owned_by(uid))),
        },
{
    let uid = resolve_user_id(db, current_user)?;
    let mut out: Vec<ProjectResponse> = Vec::new();
    let mut i: usize = 0;
    while i < db.projects.len()
        invariant
            i <= db@.projects.len(),
            projects_shown(out@, db@.projects.subrange(0, i as int).filter(owned_by(uid))),
        decreases db.projects.len() - i,
    {
        proof { lemma_filter_prefix_step(db@.projects, i as int, owned_by(uid)); }
        if db.projects[i].user_id == uid {
            let resp = to_response(&db.projects[i]);
            out.push(resp);
        }
        i += 1;
    }
    proof { assert(db@.projects.subrange(0, db@.projects.len() as int) == db@.projects); }
    Ok(out)
}

/// Creates a project with the given external identifier for the caller.
pub fn create_project_with_pid(
    db: &mut Store,
    current_user: &str,
    body: CreateProjectRequest,
    pid: u128,
    now: u64,
) -> (r: Result<ProjectResponse, ApiError>)
    requires
        old(db)@.wf(),
    ensures
        final(db)@.wf(),
        match caller_of(old(db)@, current_user@) {
            None => r == Err::<ProjectResponse, ApiError>(ApiError::Unauthenticated) && final(db)@
                == old(db)@,
            Some(uid) => if slug_in_use(old(db)@.projects, body.slug@, -1) {
                r == Err::<ProjectResponse, ApiError>(ApiError::Conflict) && final(db)@ == old(db)@
            } else {
                project_inserted(old(db)@, final(db)@, r, uid, body, pid, now)
            },
        },
{
    let uid = resolve_user_id(db, current_user)?;
    if find_slug(&db.projects, &body.slug, db.projects.len()) {
        return Err(ApiError::Conflict);
    }
    proof {
        if slug_in_use(old(db)@.projects, body.slug@, -1) {
            let j = choose|j: int|
                0 <= j < old(db)@.projects.len() && j != -1 && (#[trigger] old(db)@.projects[j]).slug@
                    == body.slug@;
            assert(j != old(db)@.projects.len());
        }
    }
    if crate::query::find_project_by_pid(&db.projects, pid).is_some() || db.next_id == u64::MAX {
        return Err(ApiError::Internal);
    }
    let ghost m = db@;
    let row = Project {
        id: db.next_id,
        pid,
        user_id: uid,
        name: body.name,
        slug: body.slug,
        logo_url: body.logo_url,
        website_url: body.website_url,
        created_at: now,
        updated_at: now,
    };
    let resp = to_response(&row);
    proof {
        crate::query::lemma_first_index_absent(m.projects, project_has_pid(pid));
        assert forall|i: int| 0 <= i < m.projects.len() implies #[trigger] project_pid()(m.projects[i])
            != project_pid()(row) by {
            assert(!project_has_pid(pid)(m.projects[i]));
        }
        lemma_push_unique_by(m.projects, row, project_pid());
    }
    db.projects.push(row);
    db.next_id = db.next_id + 1;
    proof {
        lemma_raise_bound(m.users, crate::model::user_id(), m.next_id, db.next_id);
        lemma_push_unique_by(m.projects, row, project_id());
        lemma_push_all_below(m.projects, row, project_id(), m.next_id, db.next_id);
        assert forall|i: int| 0 <= i < m.projects.len() implies #[trigger] project_slug()(
            m.projects[i],
        ) != project_slug()(row) by {
            assert(i != -1);
        }
        lemma_push_unique_by(m.projects, row, project_slug());
        lemma_raise_bound(m.testimonials, testimonial_id(), m.next_id, db.next_id);
        lemma_raise_bound(m.tags, tag_id(), m.next_id, db.next_id);
        lemma_links_ok_rows(m, db@);
    }
    Ok(resp)
}

/// Creates a project, with a fresh random external identifier, for the
/// caller.
pub fn create_project(db: &mut Store, current_user: &str, body: CreateProjectRequest, now: u64) -> (r: Result<ProjectResponse, ApiError>)
    requires
        old(db)@.wf(),
    ensures
        final(db)@.wf(),
        match caller_of(old(db)@, current_user@) {
            None => r == Err::<ProjectResponse, ApiError>(ApiError::Unauthenticated) && final(db)@
                == old(db)@,
            Some(uid) => if slug_in_use(old(db)@.projects, body.slug@, -1) {
                r == Err::<ProjectResponse, ApiError>(ApiError::Conflict) && final(db)@ == old(db)@
            } else {
                exists|pid: u128| #[trigger] project_inserted(old(db)@, final(db)@, r, uid, body, pid, now)
            },
        },
{
    let pid = fresh_pid();
    let ghost b = body;
    let r = create_project_with_pid(db, current_user, body, pid, now);
    proof {
        if let Some(uid) = caller_of(old(db)@, current_user@) {
            if !slug_in_use(old(db)@.projects, b.slug@, -1) {
                assert(project_inserted(old(db)@, final(db)@, r, uid, b, pid, now));
            }
        }
    }
    r
}

/// The project that `id` names, where the caller owns it.
pub fn get_project(db: &Store, id: &str, current_user: &str) -> (r: Result<ProjectResponse, ApiError>)
    ensures
        match project_access(db@, current_user@, id@) {
            Err(e) => r == Err::<ProjectResponse, ApiError>(e),
            Ok(p) => r matches Ok(resp) && project_shown(resp, db@.projects[p]),
        },
{
    let p = authorize_project(db, current_user, id)?;
    let resp = to_response(&db.projects[p]);
    Ok(resp)
}

/// Replaces the fields that the request gives on a project the caller owns;
/// a new slug must not be used by any other project.
pub fn update_project(db: &mut Store, id: &str, current_user: &str, body: UpdateProjectRequest) -> (r: Result<ProjectResponse, ApiError>)
    requires
        old(db)@.wf(),
    ensures
        final(db)@.wf(),
        match project_access(old(db)@, current_user@, id@) {
            Err(e) => r == Err::<ProjectResponse, ApiError>(e) && final(db)@ == old(db)@,
            Ok(p) => if body.slug matches Some(s) && slug_in_use(old(db)@.projects, s@, p) {
                r == Err::<ProjectResponse, ApiError>(ApiError::Conflict) && final(db)@ == old(db)@
            } else {
                let row = updated_project(old(db)@.projects[p], body);
                &&& r matches Ok(resp) && project_shown(resp, row)
                &&& final(db)@ == (StoreModel {
                    projects: old(db)@.projects.update(p, row),
                    ..old(db)@
                })
            },
        },
{
    let p = authorize_project(db, current_user, id)?;
    if let Some(s) = &body.slug {
        if find_slug(&db.projects, s, p) {
            return Err(ApiError::Conflict);
        }
    }
    let ghost m = db@;
    let ghost b = body;
    let mut row = db.projects[p].copy();
    let UpdateProjectRequest { name, slug, logo_url, website_url } = body;
    if let Some(n) = name {
        row.name = n;
    }
    if let Some(s) = slug {
        row.slug = s;
    }
    if logo_url.is_some() {
        row.logo_url = logo_url;
    }
    if website_url.is_some() {
        row.website_url = website_url;
    }
    assert(row == updated_project(m.projects[p as int], b));
    let resp = to_response(&row);
    db.projects.set(p, row);
    proof {
        lemma_update_same_key(m.projects, p as int, row, project_id());
        lemma_update_same_key(m.projects, p as int, row, project_pid());
        lemma_update_all_below(m.projects, p as int, row, project_id(), m.next_id);
        if b.slug is None {
            lemma_update_same_key(m.projects, p as int, row, project_slug());
        } else {
            lemma_update_unique_by(m.projects, p as int, row, project_slug());
        }
    }
    Ok(resp)
}

/// Deletes a project the caller owns, with its testimonials, its tags and
/// every link that touches them.
pub fn delete_project(db: &mut Store, id: &str, current_user: &str) -> (r: Result<(), ApiError>)
    requires
        old(db)@.wf(),
    ensures
        final(db)@.wf(),
        match project_access(old(db)@, current_user@, id@) {
            Err(e) => r == Err::<(), ApiError>(e) && final(db)@ == old(db)@,
            Ok(p) => {
                &&& r == Ok::<(), ApiError>(())
                &&& final(db)@ == without_project(old(db)@, old(db)@.projects[p].id)
                &&& project_named(final(db)@, id@) is None
            },
        },
{
    let p = authorize_project(db, current_user, id)?;
    let key = db.projects[p].id;
    let ghost m = db@;
    let links = links_outside(db, key);
    let projects = projects_without(&db.projects, key);
    let testimonials = testimonials_without(&db.testimonials, key, true);
    let tags = tags_without(&db.tags, key, true);
    db.links = links;
    db.projects = projects;
    db.testimonials = testimonials;
    db.tags = tags;
    proof {
        lemma_filter_unique_by(m.projects, not_project(key), project_id());
        lemma_filter_all_below(m.projects, not_project(key), project_id(), m.next_id);
        lemma_filter_unique_by(m.projects, not_project(key), project_slug());
        lemma_filter_unique_by(m.projects, not_project(key), project_pid());
        lemma_filter_unique_by(m.testimonials, outside_project(key), testimonial_pid());
        lemma_filter_unique_by(m.tags, tag_outside_project(key), tag_pid());
        lemma_filter_unique_by(m.testimonials, outside_project(key), testimonial_id());
        lemma_filter_all_below(m.testimonials, outside_project(key), testimonial_id(), m.next_id);
        lemma_filter_unique_by(m.tags, tag_outside_project(key), tag_id());
        lemma_filter_all_below(m.tags, tag_outside_project(key), tag_id(), m.next_id);
        lemma_filter_unique_by(m.tags, tag_outside_project(key), tag_scoped_name());
        lemma_links_ok_without_project(m, key);
        assert(db@ == without_project(m, key));
        let pid = m.projects[p as int].pid;
        let kept = m.projects.filter(not_project(key));
        assert forall|i: int| 0 <= i < kept.len() implies !project_has_pid(pid)(#[trigger] kept[i]) by {
            lemma_filter_came_from(m.projects, not_project(key), i);
            let j = choose|j: int| 0 <= j < m.projects.len() && m.projects[j] == kept[i];
            if kept[i].pid == pid {
                assert(project_pid()(m.projects[j]) == project_pid()(m.projects[p as int]));
            }
        }
        crate::query::lemma_first_index(kept, project_has_pid(pid), kept.len() as int);
    }
    Ok(())
}

} // verus!
