//! Testimonials: payload, flags and tags.

use vstd::prelude::*;

use crate::error::ApiError;
use crate::guard::{authorize_project, authorize_testimonial, project_access, testimonial_access};
use crate::ids::{fresh_pid, pid_text, uuid_text};
use crate::model::{
    Project, Store, StoreModel, Tag, TagLink, Testimonial, TestimonialDetails, testimonial_pid, link_ok, tag_in, testimonial_in, project_id, tag_id, testimonial_id,
    user_id,
};
use crate::prune::{lemma_links_ok_without_testimonial, link_off_testimonial, links_without, not_testimonial, testimonials_without};
use crate::query::{find_testimonial_by_pid, first_index, testimonial_has_pid};
use crate::tables::{
    lemma_filter_all_below, lemma_filter_none_pass, lemma_filter_prefix_step, lemma_links_ok_rows, lemma_filter_unique_by,
    lemma_push_all_below, lemma_push_unique_by, lemma_raise_bound, lemma_update_all_below,
    lemma_update_same_key,
};
use crate::tags::{TagResponse, linked, load_tags_for_testimonial, tags_of, tags_shown};

verus! {

broadcast use vstd::seq_lib::group_seq_properties;

/// The kind a testimonial gets where its creation names none.
pub const DEFAULT_TYPE: &'static str = "text";

#[derive(Debug)]
pub struct CreateTestimonialRequest {
    pub author_name: String,
    pub testimonial_type: Option<String>,
    pub details: TestimonialDetails,
}

/// Each field that is given replaces the stored one; in `details`, each
/// field that is `Some` does.
#[derive(Debug)]
pub struct UpdateTestimonialRequest {
    pub testimonial_type: Option<String>,
    pub author_name: Option<String>,
    pub details: TestimonialDetails,
    pub is_approved: Option<bool>,
    pub is_featured: Option<bool>,
}

#[derive(Debug)]
pub struct TestimonialResponse {
    pub id: String,
    pub project_id: String,
    pub testimonial_type: String,
    pub author_name: String,
    pub details: TestimonialDetails,
    pub is_approved: bool,
    pub is_featured: bool,
    pub tags: Vec<TagResponse>,
    pub created_at: u64,
    pub updated_at: u64,
}

/// A filter on the two flags; a flag that is given must match.
#[derive(Debug)]
pub struct ListTestimonialsQuery {
    pub is_approved: Option<bool>,
    pub is_featured: Option<bool>,
}

/// `r` shows testimonial `t`, with tags `tags`, of the project with external
/// identifier `project_pid`.
pub open spec fn testimonial_shown(r: TestimonialResponse, t: Testimonial, project_pid: u128, tags: Seq<Tag>) -> bool {
    &&& r.id@ == uuid_text(t.pid)
    &&& r.project_id@ == uuid_text(project_pid)
    &&& r.testimonial_type == t.testimonial_type
    &&& r.author_name == t.author_name
    &&& r.details == t.details
    &&& r.is_approved == t.is_approved
    &&& r.is_featured == t.is_featured
    &&& tags_shown(r.tags@, tags, project_pid)
    &&& r.created_at == t.created_at
    &&& r.updated_at == t.updated_at
}

pub open spec fn pick<T>(newer: Option<T>, older: Option<T>) -> Option<T> {
    if newer is Some {
        newer
    } else {
        older
    }
}

/// The payload with each field that `patch` gives replaced.
pub open spec fn merged_details(d: TestimonialDetails, patch: TestimonialDetails) -> TestimonialDetails {
    TestimonialDetails {
        content: pick(patch.content, d.content),
        rating: pick(patch.rating, d.rating),
        author_email: pick(patch.author_email, d.author_email),
        author_title: pick(patch.author_title, d.author_title),
        author_avatar_url: pick(patch.author_avatar_url, d.author_avatar_url),
        author_company: pick(patch.author_company, d.author_company),
        author_url: pick(patch.author_url, d.author_url),
        video_url: pick(patch.video_url, d.video_url),
        video_thumbnail_url: pick(patch.video_thumbnail_url, d.video_thumbnail_url),
        video_duration_seconds: pick(patch.video_duration_seconds, d.video_duration_seconds),
        transcription: pick(patch.transcription, d.transcription),
        source: pick(patch.source, d.source),
        source_platform: pick(patch.source_platform, d.source_platform),
        source_url: pick(patch.source_url, d.source_url),
        source_id: pick(patch.source_id, d.source_id),
        sentiment: pick(patch.sentiment, d.sentiment),
        sentiment_score_bits: pick(patch.sentiment_score_bits, d.sentiment_score_bits),
        language: pick(patch.language, d.language),
    }
}

/// A testimonial with the fields that a request gives replaced.
pub open spec fn updated_testimonial(t: Testimonial, body: UpdateTestimonialRequest) -> Testimonial {
    Testimonial {
        testimonial_type: match body.testimonial_type {
            Some(s) => s,
            None => t.testimonial_type,
        },
        author_name: match body.author_name {
            Some(s) => s,
            None => t.author_name,
        },
        details: merged_details(t.details, body.details),
        is_approved: match body.is_approved {
            Some(b) => b,
            None => t.is_approved,
        },
        is_featured: match body.is_featured {
            Some(b) => b,
            None => t.is_featured,
        },
        ..t
    }
}

/// `row` is what creating a testimonial in project `project` adds.
pub open spec fn is_created_testimonial(row: Testimonial, m: StoreModel, project: u64, body: CreateTestimonialRequest, pid: u128, now: u64) -> bool {
    &&& row.id == m.next_id
    &&& row.pid == pid
    &&& row.project_id == project
    &&& row.testimonial_type@ == match body.testimonial_type {
        Some(s) => s@,
        None => DEFAULT_TYPE@,
    }
    &&& body.testimonial_type matches Some(s) ==> row.testimonial_type == s
    &&& row.author_name == body.author_name
    &&& row.details == body.details
    &&& !row.is_approved
    &&& !row.is_featured
    &&& row.created_at == now
    &&& row.updated_at == now
}

/// Adding the testimonial that `body` describes to `project` under external
/// identifier `pid`: refused as `Internal` with nothing changed where `pid`
/// is taken or internal ids are spent; else the row is appended, untagged,
/// and shown.
pub open spec fn testimonial_inserted(
    old: StoreModel,
    new: StoreModel,
    r: Result<TestimonialResponse, ApiError>,
    project: Project,
    body: CreateTestimonialRequest,
    pid: u128,
    now: u64,
) -> bool {
    if first_index(old.testimonials, testimonial_has_pid(pid)) is Some || old.next_id == u64::MAX {
        r == Err::<TestimonialResponse, ApiError>(ApiError::Internal) && new == old
    } else {
        let row = new.testimonials.last();
        &&& is_created_testimonial(row, old, project.id, body, pid, now)
        &&& tags_of(new, row.id).len() == 0
        &&& new == (StoreModel {
            testimonials: old.testimonials.push(row),
            next_id: (old.next_id + 1) as u64,
            ..old
        })
        &&& r matches Ok(resp) && testimonial_shown(resp, row, project.pid, tags_of(new, row.id))
    }
}

/// Testimonial `t` lives in project `project` and passes the filter.
pub open spec fn listed(project: u64, query: ListTestimonialsQuery) -> spec_fn(Testimonial) -> bool {
    |t: Testimonial|
        t.project_id == project && (query.is_approved matches Some(a) ==> t.is_approved == a) && (
        query.is_featured matches Some(f) ==> t.is_featured == f)
}

fn pick_value<T>(newer: Option<T>, older: Option<T>) -> (r: Option<T>)
    ensures
        r == pick(newer, older),
{
    if newer.is_some() {
        newer
    } else {
        older
    }
}

fn merge_details(d: TestimonialDetails, patch: TestimonialDetails) -> (r: TestimonialDetails)
    ensures
        r == merged_details(d, patch),
{
    TestimonialDetails {
        content: pick_value(patch.content, d.content),
        rating: pick_value(patch.rating, d.rating),
        author_email: pick_value(patch.author_email, d.author_email),
        author_title: pick_value(patch.author_title, d.author_title),
        author_avatar_url: pick_value(patch.author_avatar_url, d.author_avatar_url),
        author_company: pick_value(patch.author_company, d.author_company),
        author_url: pick_value(patch.author_url, d.author_url),
        video_url: pick_value(patch.video_url, d.video_url),
        video_thumbnail_url: pick_value(patch.video_thumbnail_url, d.video_thumbnail_url),
        video_duration_seconds: pick_value(patch.video_duration_seconds, d.video_duration_seconds),
        transcription: pick_value(patch.transcription, d.transcription),
        source: pick_value(patch.source, d.source),
        source_platform: pick_value(patch.source_platform, d.source_platform),
        source_url: pick_value(patch.source_url, d.source_url),
        source_id: pick_value(patch.source_id, d.source_id),
        sentiment: pick_value(patch.sentiment, d.sentiment),
        sentiment_score_bits: pick_value(patch.sentiment_score_bits, d.sentiment_score_bits),
        language: pick_value(patch.language, d.language),
    }
}

pub fn to_response(t: &Testimonial, project_pid: u128, tags: Vec<TagResponse>) -> (r: TestimonialResponse)
    ensures
        r.id@ == uuid_text(t.pid),
        r.project_id@ == uuid_text(project_pid),
        r.testimonial_type == t.testimonial_type,
        r.author_name == t.author_name,
        r.details == t.details,
        r.is_approved == t.is_approved,
        r.is_featured == t.is_featured,
        r.tags == tags,
        r.created_at == t.created_at,
        r.updated_at == t.updated_at,
{
    TestimonialResponse {
        id: pid_text(t.pid),
        project_id: pid_text(project_pid),
        testimonial_type: t.testimonial_type.clone(),
        author_name: t.author_name.clone(),
        details: t.details.copy(),
        is_approved: t.is_approved,
        is_featured: t.is_featured,
        tags,
        created_at: t.created_at,
        updated_at: t.updated_at,
    }
}

fn respond(db: &Store, t: usize, p: usize) -> (r: TestimonialResponse)
    requires
        t < db@.testimonials.len(),
        p < db@.projects.len(),
    ensures
        testimonial_shown(
            r,
            db@.testimonials[t as int],
            db@.projects[p as int].pid,
            tags_of(db@, db@.testimonials[t as int].id),
        ),
{
    let project_pid = db.projects[p].pid;
    let tags = load_tags_for_testimonial(db, db.testimonials[t].id, project_pid);
    to_response(&db.testimonials[t], project_pid, tags)
}

/// The testimonials of a project the caller owns that pass the filter, in
/// store order, each with its tags.
pub fn list_testimonials(db: &Store, id: &str, query: &ListTestimonialsQuery, current_user: &str) -> (r: Result<Vec<TestimonialResponse>, ApiError>)
    ensures
        match project_access(db@, current_user@, id@) {
            Err(e) => r == Err::<Vec<TestimonialResponse>, ApiError>(e),
            Ok(p) => {
                let shown = db@.testimonials.filter(listed(db@.projects[p].id, *query));
                &&& r matches Ok(rs)
                &&& rs@.len() == shown.len()
                &&& forall|i: int|
                    0 <= i < shown.len() ==> testimonial_shown(
                        #[trigger] rs@[i],
                        shown[i],
                        db@.projects[p].pid,
                        tags_of(db@, shown[i].id),
                    )
            },
        },
{
    let p = authorize_project(db, current_user, id)?;
    let project = db.projects[p].id;
    let project_pid = db.projects[p].pid;
    let ghost pred = listed(project, *query);
    let mut out: Vec<TestimonialResponse> = Vec::new();
    let mut i: usize = 0;
    while i < db.testimonials.len()
        invariant
            i <= db@.testimonials.len(),
            pred == listed(project, *query),
            out@.len() == db@.testimonials.subrange(0, i as int).filter(pred).len(),
            forall|k: int|
                0 <= k < out@.len() ==> testimonial_shown(
                    #[trigger] out@[k],
                    db@.testimonials.subrange(0, i as int).filter(pred)[k],
                    project_pid,
                    tags_of(db@, db@.testimonials.subrange(0, i as int).filter(pred)[k].id),
                ),
        decreases db.testimonials.len() - i,
    {
        proof { lemma_filter_prefix_step(db@.testimonials, i as int, pred); }
        let t = &db.testimonials[i];
        let approved_ok = match query.is_approved {
            Some(a) => t.is_approved == a,
            None => true,
        };
        let featured_ok = match query.is_featured {
            Some(f) => t.is_featured == f,
            None => true,
        };
        if t.project_id == project && approved_ok && featured_ok {
            let tags = load_tags_for_testimonial(db, t.id, project_pid);
            out.push(to_response(t, project_pid, tags));
        }
        i += 1;
    }
    proof { assert(db@.testimonials.subrange(0, db@.testimonials.len() as int) == db@.testimonials); }
    Ok(out)
}

/// Creates a testimonial with the given external identifier in a project
/// the caller owns; it starts neither approved nor featured.
pub fn create_testimonial_with_pid(db: &mut Store, id: &str, current_user: &str, body: CreateTestimonialRequest, pid: u128, now: u64) -> (r: Result<TestimonialResponse, ApiError>)
    requires
        old(db)@.wf(),
    ensures
        final(db)@.wf(),
        match project_access(old(db)@, current_user@, id@) {
            Err(e) => r == Err::<TestimonialResponse, ApiError>(e) && final(db)@ == old(db)@,
            Ok(p) => testimonial_inserted(old(db)@, final(db)@, r, old(db)@.projects[p], body, pid, now),
        },
{
    let p = authorize_project(db, current_user, id)?;
    if find_testimonial_by_pid(&db.testimonials, pid).is_some() || db.next_id == u64::MAX {
        return Err(ApiError::Internal);
    }
    let ghost m = db@;
    let ghost b = body;
    let CreateTestimonialRequest { author_name, testimonial_type, details } = body;
    let kind = match testimonial_type {
        Some(s) => s,
        None => String::from_str(DEFAULT_TYPE),
    };
    let row = Testimonial {
        id: db.next_id,
        pid,
        project_id: db.projects[p].id,
        testimonial_type: kind,
        author_name,
        details,
        is_approved: false,
        is_featured: false,
        created_at: now,
        updated_at: now,
    };
    proof {
        crate::query::lemma_first_index_absent(m.testimonials, testimonial_has_pid(pid));
        assert forall|i: int| 0 <= i < m.testimonials.len() implies #[trigger] testimonial_pid()(
            m.testimonials[i],
        ) != testimonial_pid()(row) by {
            assert(!testimonial_has_pid(pid)(m.testimonials[i]));
        }
        lemma_push_unique_by(m.testimonials, row, testimonial_pid());
    }
    db.testimonials.push(row);
    db.next_id = db.next_id + 1;
    proof {
        assert(db@.testimonials.last() == row);
        lemma_raise_bound(m.users, user_id(), m.next_id, db.next_id);
        lemma_raise_bound(m.projects, project_id(), m.next_id, db.next_id);
        lemma_raise_bound(m.tags, tag_id(), m.next_id, db.next_id);
        lemma_push_unique_by(m.testimonials, row, testimonial_id());
        lemma_push_all_below(m.testimonials, row, testimonial_id(), m.next_id, db.next_id);
        lemma_links_ok_rows(m, db@);
        assert forall|i: int| 0 <= i < m.tags.len() implies !linked(m.links, row.id)(#[trigger] m.tags[i]) by {
            let l = TagLink { testimonial_id: row.id, tag_id: m.tags[i].id };
            if m.links.contains(l) {
                let k = choose|k: int| 0 <= k < m.links.len() && m.links[k] == l;
                assert(link_ok(m, m.links[k]));
                let q = choose|q: u64| testimonial_in(m.testimonials, l.testimonial_id, q) && tag_in(m.tags, l.tag_id, q);
                let j = choose|j: int|
                    0 <= j < m.testimonials.len() && (#[trigger] m.testimonials[j]).id == l.testimonial_id
                        && m.testimonials[j].project_id == q;
                assert(testimonial_id()(m.testimonials[j]) < m.next_id);
            }
        }
        lemma_filter_none_pass(m.tags, linked(m.links, row.id));
    }
    let t = db.testimonials.len() - 1;
    Ok(respond(db, t, p))
}

/// Creates a testimonial, with a fresh random external identifier, in a
/// project the caller owns.
pub fn create_testimonial(db: &mut Store, id: &str, current_user: &str, body: CreateTestimonialRequest, now: u64) -> (r: Result<TestimonialResponse, ApiError>)
    requires
        old(db)@.wf(),
    ensures
        final(db)@.wf(),
        match project_access(old(db)@, current_user@, id@) {
            Err(e) => r == Err::<TestimonialResponse, ApiError>(e) && final(db)@ == old(db)@,
            Ok(p) => exists|pid: u128|
                #[trigger] testimonial_inserted(old(db)@, final(db)@, r, old(db)@.projects[p], body, pid, now),
        },
{
    let pid = fresh_pid();
    let ghost b = body;
    let r = create_testimonial_with_pid(db, id, current_user, body, pid, now);
    proof {
        if let Ok(p) = project_access(old(db)@, current_user@, id@) {
            assert(testimonial_inserted(old(db)@, final(db)@, r, old(db)@.projects[p], b, pid, now));
        }
    }
    r
}

/// A testimonial the caller owns, with its tags.
pub fn get_testimonial(db: &Store, id: &str, current_user: &str) -> (r: Result<TestimonialResponse, ApiError>)
    ensures
        match testimonial_access(db@, current_user@, id@) {
            Err(e) => r == Err::<TestimonialResponse, ApiError>(e),
            Ok((t, p)) => r matches Ok(resp) && testimonial_shown(
                resp,
                db@.testimonials[t],
                db@.projects[p].pid,
                tags_of(db@, db@.testimonials[t].id),
            ),
        },
{
    let (t, p) = authorize_testimonial(db, current_user, id)?;
    Ok(respond(db, t, p))
}

/// Replaces the fields that the request gives on a testimonial the caller
/// owns.
pub fn update_testimonial(db: &mut Store, id: &str, current_user: &str, body: UpdateTestimonialRequest) -> (r: Result<TestimonialResponse, ApiError>)
    requires
        old(db)@.wf(),
    ensures
        final(db)@.wf(),
        match testimonial_access(old(db)@, current_user@, id@) {
            Err(e) => r == Err::<TestimonialResponse, ApiError>(e) && final(db)@ == old(db)@,
            Ok((t, p)) => {
                let row = updated_testimonial(old(db)@.testimonials[t], body);
                &&& final(db)@ == (StoreModel {
                    testimonials: old(db)@.testimonials.update(t, row),
                    ..old(db)@
                })
                &&& r matches Ok(resp) && testimonial_shown(
                    resp,
                    row,
                    old(db)@.projects[p].pid,
                    tags_of(old(db)@, row.id),
                )
            },
        },
{
    let (t, p) = authorize_testimonial(db, current_user, id)?;
    let ghost m = db@;
    let ghost b = body;
    let mut row = db.testimonials[t].copy();
    let UpdateTestimonialRequest { testimonial_type, author_name, details, is_approved, is_featured } = body;
    if let Some(kind) = testimonial_type {
        row.testimonial_type = kind;
    }
    if let Some(name) = author_name {
        row.author_name = name;
    }
    row.details = merge_details(row.details, details);
    if let Some(a) = is_approved {
        row.is_approved = a;
    }
    if let Some(f) = is_featured {
        row.is_featured = f;
    }
    assert(row == updated_testimonial(m.testimonials[t as int], b));
    db.testimonials.set(t, row);
    proof {
        lemma_update_same_key(m.testimonials, t as int, row, testimonial_id());
        lemma_update_same_key(m.testimonials, t as int, row, testimonial_pid());
        lemma_update_all_below(m.testimonials, t as int, row, testimonial_id(), m.next_id);
        lemma_links_ok_rows(m, db@);
    }
    Ok(respond(db, t, p))
}

/// Deletes a testimonial the caller owns, with its links.
pub fn delete_testimonial(db: &mut Store, id: &str, current_user: &str) -> (r: Result<(), ApiError>)
    requires
        old(db)@.wf(),
    ensures
        final(db)@.wf(),
        match testimonial_access(old(db)@, current_user@, id@) {
            Err(e) => r == Err::<(), ApiError>(e) && final(db)@ == old(db)@,
            Ok((t, p)) => {
                let key = old(db)@.testimonials[t].id;
                &&& r == Ok::<(), ApiError>(())
                &&& final(db)@ == (StoreModel {
                    testimonials: old(db)@.testimonials.filter(not_testimonial(key)),
                    links: old(db)@.links.filter(link_off_testimonial(key)),
                    ..old(db)@
                })
            },
        },
{
    let (t, _p) = authorize_testimonial(db, current_user, id)?;
    let key = db.testimonials[t].id;
    let ghost m = db@;
    let testimonials = testimonials_without(&db.testimonials, key, false);
    let links = links_without(&db.links, key, false);
    db.testimonials = testimonials;
    db.links = links;
    proof {
        lemma_filter_unique_by(m.testimonials, not_testimonial(key), testimonial_id());
        lemma_filter_unique_by(m.testimonials, not_testimonial(key), testimonial_pid());
        lemma_filter_all_below(m.testimonials, not_testimonial(key), testimonial_id(), m.next_id);
        lemma_links_ok_without_testimonial(m, key);
    }
    Ok(())
}

/// Inverts one flag of a testimonial the caller owns: the approval where
/// `approval`, else the featuring; the other flag and every other field stay.
fn toggle(db: &mut Store, id: &str, current_user: &str, approval: bool) -> (r: Result<TestimonialResponse, ApiError>)
    requires
        old(db)@.wf(),
    ensures
        final(db)@.wf(),
        match testimonial_access(old(db)@, current_user@, id@) {
            Err(e) => r == Err::<TestimonialResponse, ApiError>(e) && final(db)@ == old(db)@,
            Ok((t, p)) => {
                let before = old(db)@.testimonials[t];
                let row = if approval {
                    Testimonial { is_approved: !before.is_approved, ..before }
                } else {
                    Testimonial { is_featured: !before.is_featured, ..before }
                };
                &&& final(db)@ == (StoreModel {
                    testimonials: old(db)@.testimonials.update(t, row),
                    ..old(db)@
                })
                &&& r matches Ok(resp) && testimonial_shown(
                    resp,
                    row,
                    old(db)@.projects[p].pid,
                    tags_of(old(db)@, row.id),
                )
            },
        },
{
    let (t, p) = authorize_testimonial(db, current_user, id)?;
    let ghost m = db@;
    let mut row = db.testimonials[t].copy();
    if approval {
        row.is_approved = !row.is_approved;
    } else {
        row.is_featured = !row.is_featured;
    }
    db.testimonials.set(t, row);
    proof {
        lemma_update_same_key(m.testimonials, t as int, row, testimonial_id());
        lemma_update_same_key(m.testimonials, t as int, row, testimonial_pid());
        lemma_update_all_below(m.testimonials, t as int, row, testimonial_id(), m.next_id);
        lemma_links_ok_rows(m, db@);
    }
    Ok(respond(db, t, p))
}

/// Inverts the approval of a testimonial the caller owns; nothing else
/// changes.
pub fn approve_testimonial(db: &mut Store, id: &str, current_user: &str) -> (r: Result<TestimonialResponse, ApiError>)
    requires
        old(db)@.wf(),
    ensures
        final(db)@.wf(),
        match testimonial_access(old(db)@, current_user@, id@) {
            Err(e) => r == Err::<TestimonialResponse, ApiError>(e) && final(db)@ == old(db)@,
            Ok((t, p)) => {
                let before = old(db)@.testimonials[t];
                let row = Testimonial { is_approved: !before.is_approved, ..before };
                &&& final(db)@ == (StoreModel {
                    testimonials: old(db)@.testimonials.update(t, row),
                    ..old(db)@
                })
                &&& r matches Ok(resp) && testimonial_shown(
                    resp,
                    row,
                    old(db)@.projects[p].pid,
                    tags_of(old(db)@, row.id),
                )
            },
        },
{
    toggle(db, id, current_user, true)
}

/// Inverts the featuring of a testimonial the caller owns; nothing else
/// changes.
pub fn feature_testimonial(db: &mut Store, id: &str, current_user: &str) -> (r: Result<TestimonialResponse, ApiError>)
    requires
        old(db)@.wf(),
    ensures
        final(db)@.wf(),
        match testimonial_access(old(db)@, current_user@, id@) {
            Err(e) => r == Err::<TestimonialResponse, ApiError>(e) && final(db)@ == old(db)@,
            Ok((t, p)) => {
                let before = old(db)@.testimonials[t];
                let row = Testimonial { is_featured: !before.is_featured, ..before };
                &&& final(db)@ == (StoreModel {
                    testimonials: old(db)@.testimonials.update(t, row),
                    ..old(db)@
                })
                &&& r matches Ok(resp) && testimonial_shown(
                    resp,
                    row,
                    old(db)@.projects[p].pid,
                    tags_of(old(db)@, row.id),
                )
            },
        },
{
    toggle(db, id, current_user, false)
}

} // verus!
