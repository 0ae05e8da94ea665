//! Tags: labels unique by name within their project.

use std::collections::HashMap;

use vstd::prelude::*;

use crate::error::ApiError;
use crate::guard::{authorize_project, authorize_tag, project_access, tag_access};
use crate::ids::{fresh_pid, pid_text, uuid_text};
use crate::model::{
    Project, Store, StoreModel, Tag, TagLink, copy_text, tag_pid, project_id, tag_id, tag_scoped_name,
    testimonial_id, user_id,
};
use crate::prune::{lemma_links_ok_without_tag, link_off_tag, links_without, not_tag, tags_without};
use crate::query::{find_tag_by_pid, first_index, tag_has_pid};
use crate::tables::{
    lemma_filter_all_below, lemma_filter_prefix_step, lemma_links_ok_rows, lemma_filter_unique_by,
    lemma_push_all_below, lemma_push_unique_by, lemma_raise_bound, lemma_update_all_below,
    lemma_update_same_key, lemma_update_unique_by,
};

verus! {

broadcast use vstd::seq_lib::group_seq_properties;

#[derive(Debug)]
pub struct CreateTagRequest {
    pub name: String,
    pub color: Option<String>,
}

#[derive(Debug)]
pub struct UpdateTagRequest {
    pub name: Option<String>,
    pub color: Option<String>,
}

#[derive(Debug)]
pub struct TagResponse {
    pub id: String,
    pub project_id: String,
    pub name: String,
    pub color: Option<String>,
}

#[derive(Debug)]
pub struct SetTestimonialTagsRequest {
    pub tag_ids: Vec<String>,
}

#[derive(Debug)]
pub struct TestimonialTagsResponse {
    pub tags: Vec<TagResponse>,
}

/// `r` shows tag `t` of the project with external identifier `project_pid`.
pub open spec fn tag_shown(r: TagResponse, t: Tag, project_pid: u128) -> bool {
    &&& r.id@ == uuid_text(t.pid)
    &&& r.project_id@ == uuid_text(project_pid)
    &&& r.name == t.name
    &&& r.color == t.color
}

pub open spec fn tags_shown(rs: Seq<TagResponse>, ts: Seq<Tag>, project_pid: u128) -> bool {
    rs.len() == ts.len() && forall|i: int|
        0 <= i < ts.len() ==> tag_shown(#[trigger] rs[i], ts[i], project_pid)
}

/// Tag `t` is linked to testimonial `testimonial`.
pub open spec fn linked(links: Seq<TagLink>, testimonial: u64) -> spec_fn(Tag) -> bool {
    |t: Tag| links.contains(TagLink { testimonial_id: testimonial, tag_id: t.id })
}

/// The tags of a testimonial, in store order.
pub open spec fn tags_of(m: StoreModel, testimonial: u64) -> Seq<Tag> {
    m.tags.filter(linked(m.links, testimonial))
}

pub open spec fn in_project(id: u64) -> spec_fn(Tag) -> bool {
    |t: Tag| t.project_id == id
}

/// Some tag of project `project`, other than the one at position `except`,
/// has this name.
pub open spec fn tag_name_in_use(ts: Seq<Tag>, project: u64, name: Seq<char>, except: int) -> bool {
    exists|j: int|
        0 <= j < ts.len() && j != except && (#[trigger] ts[j]).project_id == project && ts[j].name@
            == name
}

/// The row that creating a tag adds.
pub open spec fn created_tag(m: StoreModel, project: u64, body: CreateTagRequest, pid: u128) -> Tag {
    Tag { id: m.next_id, pid: pid, project_id: project, name: body.name, color: body.color }
}

/// Adding the tag that `body` describes to `project` under external
/// identifier `pid`: refused as `Internal` with nothing changed where `pid`
/// is taken or internal ids are spent; else the row is appended and shown.
pub open spec fn tag_inserted(
    old: StoreModel,
    new: StoreModel,
    r: Result<TagResponse, ApiError>,
    project: Project,
    body: CreateTagRequest,
    pid: u128,
) -> bool {
    if first_index(old.tags, tag_has_pid(pid)) is Some || old.next_id == u64::MAX {
        r == Err::<TagResponse, ApiError>(ApiError::Internal) && new == old
    } else {
        let row = created_tag(old, project.id, body, pid);
        &&& r matches Ok(resp) && tag_shown(resp, row, project.pid)
        &&& new == (StoreModel { tags: old.tags.push(row), next_id: (old.next_id + 1) as u64, ..old })
    }
}

/// A tag with the fields that a request gives replaced.
pub open spec fn updated_tag(t: Tag, body: UpdateTagRequest) -> Tag {
    Tag {
        name: match body.name {
            Some(n) => n,
            None => t.name,
        },
        color: if body.color is Some {
            body.color
        } else {
            t.color
        },
        ..t
    }
}

pub fn to_response(tag: &Tag, project_pid: u128) -> (r: TagResponse)
    ensures
        tag_shown(r, *tag, project_pid),
{
    TagResponse {
        id: pid_text(tag.pid),
        project_id: pid_text(project_pid),
        name: tag.name.clone(),
        color: copy_text(&tag.color),
    }
}

/// Shows each tag, in order.
pub fn to_tag_responses(tags: &Vec<Tag>, project_pid: u128) -> (r: Vec<TagResponse>)
    ensures
        tags_shown(r@, tags@, project_pid),
{
    let mut out: Vec<TagResponse> = Vec::new();
    let mut i: usize = 0;
    while i < tags.len()
        invariant
            i <= tags@.len(),
            tags_shown(out@, tags@.subrange(0, i as int), project_pid),
        decreases tags.len() - i,
    {
        out.push(to_response(&tags[i], project_pid));
        i += 1;
    }
    proof { assert(tags@.subrange(0, tags@.len() as int) == tags@); }
    out
}

fn has_link(links: &Vec<TagLink>, l: TagLink) -> (r: bool)
    ensures
        r == links@.contains(l),
{
    let mut i: usize = 0;
    while i < links.len()
        invariant
            i <= links@.len(),
            forall|k: int| 0 <= k < i ==> links@[k] != l,
        decreases links.len() - i,
    {
        if links[i] == l {
            return true;
        }
        i += 1;
    }
    false
}

/// The tags linked to a testimonial, shown as tags of the project with
/// external identifier `project_pid`.
pub fn load_tags_for_testimonial(db: &Store, testimonial_id: u64, project_pid: u128) -> (r: Vec<TagResponse>)
    ensures
        tags_shown(r@, tags_of(db@, testimonial_id), project_pid),
{
    let ghost pred = linked(db@.links, testimonial_id);
    let mut out: Vec<TagResponse> = Vec::new();
    let mut i: usize = 0;
    while i < db.tags.len()
        invariant
            i <= db@.tags.len(),
            pred == linked(db@.links, testimonial_id),
            tags_shown(out@, db@.tags.subrange(0, i as int).filter(pred), project_pid),
        decreases db.tags.len() - i,
    {
        proof { lemma_filter_prefix_step(db@.tags, i as int, pred); }
        if has_link(&db.links, TagLink { testimonial_id, tag_id: db.tags[i].id }) {
            out.push(to_response(&db.tags[i], project_pid));
        }
        i += 1;
    }
    proof { assert(db@.tags.subrange(0, db@.tags.len() as int) == db@.tags); }
    out
}

/// The tags of the testimonials in `testimonial_ids`, by testimonial id;
/// a testimonial without tags has no entry.
pub fn load_tags_for_testimonials(db: &Store, testimonial_ids: &Vec<u64>, project_pid: u128) -> (r: HashMap<u64, Vec<TagResponse>>)
    ensures
        forall|id: u64|
            #[trigger] r@.contains_key(id) <==> (testimonial_ids@.contains(id) && tags_of(db@, id).len() > 0),
        forall|id: u64| #[trigger] r@.contains_key(id) ==> tags_shown(r@[id]@, tags_of(db@, id), project_pid),
{
    broadcast use vstd::std_specs::hash::group_hash_axioms;

    let mut out: HashMap<u64, Vec<TagResponse>> = HashMap::new();
    let mut i: usize = 0;
    while i < testimonial_ids.len()
        invariant
            i <= testimonial_ids@.len(),
            forall|id: u64|
                #[trigger] out@.contains_key(id) <==> (testimonial_ids@.subrange(0, i as int).contains(id)
                    && tags_of(db@, id).len() > 0),
            forall|id: u64| #[trigger] out@.contains_key(id) ==> tags_shown(out@[id]@, tags_of(db@, id), project_pid),
        decreases testimonial_ids.len() - i,
    {
        let id = testimonial_ids[i];
        let tags = load_tags_for_testimonial(db, id, project_pid);
        proof {
            assert(testimonial_ids@.subrange(0, i as int + 1) == testimonial_ids@.subrange(0, i as int).push(id));
            assert forall|x: u64| testimonial_ids@.subrange(0, i as int + 1).contains(x)
                <==> (testimonial_ids@.subrange(0, i as int).contains(x) || x == id) by {
                let pre = testimonial_ids@.subrange(0, i as int);
                if x == id {
                    assert(pre.push(id)[pre.len() as int] == id);
                }
                if pre.contains(x) {
                    let k = choose|k: int| 0 <= k < pre.len() && pre[k] == x;
                    assert(pre.push(id)[k] == x);
                }
                if pre.push(id).contains(x) {
                    let k = choose|k: int| 0 <= k < pre.push(id).len() && pre.push(id)[k] == x;
                    if k < pre.len() {
                        assert(pre[k] == x);
                    }
                }
            }
        }
        if tags.len() > 0 {
            out.insert(id, tags);
        }
        i += 1;
    }
    proof { assert(testimonial_ids@.subrange(0, testimonial_ids@.len() as int) == testimonial_ids@); }
    out
}

fn find_tag_name(v: &Vec<Tag>, project: u64, name: &String, except: usize) -> (r: bool)
    ensures
        r == tag_name_in_use(v@, project, name@, except as int),
{
    let mut i: usize = 0;
    while i < v.len()
        invariant
            i <= v@.len(),
            forall|j: int|
                0 <= j < i && j != except ==> !((#[trigger] v@[j]).project_id == project && v@[j].name@
                    == name@),
        decreases v.len() - i,
    {
        if i != except && v[i].project_id == project && v[i].name == *name {
            return true;
        }
        i += 1;
    }
    false
}

/// The tags of a project the caller owns, in store order.
pub fn list_tags(db: &Store, id: &str, current_user: &str) -> (r: Result<Vec<TagResponse>, ApiError>)
    ensures
        match project_access(db@, current_user@, id@) {
            Err(e) => r == Err::<Vec<TagResponse>, ApiError>(e),
            Ok(p) => r matches Ok(rs) && tags_shown(
                rs@,
                db@.tags.filter(in_project(db@.projects[p].id)),
                db@.projects[p].pid,
            ),
        },
{
    let p = authorize_project(db, current_user, id)?;
    let project = db.projects[p].id;
    let project_pid = db.projects[p].pid;
    let mut out: Vec<TagResponse> = Vec::new();
    let mut i: usize = 0;
    while i < db.tags.len()
        invariant
            i <= db@.tags.len(),
            tags_shown(out@, db@.tags.subrange(0, i as int).filter(in_project(project)), project_pid),
        decreases db.tags.len() - i,
    {
        proof { lemma_filter_prefix_step(db@.tags, i as int, in_project(project)); }
        if db.tags[i].project_id == project {
            out.push(to_response(&db.tags[i], project_pid));
        }
        i += 1;
    }
    proof { assert(db@.tags.subrange(0, db@.tags.len() as int) == db@.tags); }
    Ok(out)
}

/// Creates a tag with the given external identifier in a project the caller
/// owns; the name must be new within that project.
pub fn create_tag_with_pid(db: &mut Store, id: &str, current_user: &str, body: CreateTagRequest, pid: u128) -> (r: Result<TagResponse, ApiError>)
    requires
        old(db)@.wf(),
    ensures
        final(db)@.wf(),
        match project_access(old(db)@, current_user@, id@) {
            Err(e) => r == Err::<TagResponse, ApiError>(e) && final(db)@ == old(db)@,
            Ok(p) => {
                let project = old(db)@.projects[p];
                if tag_name_in_use(old(db)@.tags, project.id, body.name@, -1) {
                    r == Err::<TagResponse, ApiError>(ApiError::Conflict) && final(db)@ == old(db)@
                } else {
                    tag_inserted(old(db)@, final(db)@, r, project, body, pid)
                }
            },
        },
{
    let p = authorize_project(db, current_user, id)?;
    let project = db.projects[p].id;
    let project_pid = db.projects[p].pid;
    if find_tag_name(&db.tags, project, &body.name, db.tags.len()) {
        return Err(ApiError::Conflict);
    }
    proof {
        if tag_name_in_use(old(db)@.tags, project, body.name@, -1) {
            let j = choose|j: int|
                0 <= j < old(db)@.tags.len() && j != -1 && (#[trigger] old(db)@.tags[j]).project_id
                    == project && old(db)@.tags[j].name@ == body.name@;
            assert(j != old(db)@.tags.len());
        }
    }
    if find_tag_by_pid(&db.tags, pid).is_some() || db.next_id == u64::MAX {
        return Err(ApiError::Internal);
    }
    let ghost m = db@;
    let row = Tag { id: db.next_id, pid, project_id: project, name: body.name, color: body.color };
    let resp = to_response(&row, project_pid);
    proof {
        crate::query::lemma_first_index_absent(m.tags, tag_has_pid(pid));
        assert forall|i: int| 0 <= i < m.tags.len() implies #[trigger] tag_pid()(m.tags[i])
            != tag_pid()(row) by {
            assert(!tag_has_pid(pid)(m.tags[i]));
        }
        lemma_push_unique_by(m.tags, row, tag_pid());
    }
    db.tags.push(row);
    db.next_id = db.next_id + 1;
    proof {
        lemma_raise_bound(m.users, user_id(), m.next_id, db.next_id);
        lemma_raise_bound(m.projects, project_id(), m.next_id, db.next_id);
        lemma_raise_bound(m.testimonials, testimonial_id(), m.next_id, db.next_id);
        lemma_push_unique_by(m.tags, row, tag_id());
        lemma_push_all_below(m.tags, row, tag_id(), m.next_id, db.next_id);
        assert forall|i: int| 0 <= i < m.tags.len() implies #[trigger] tag_scoped_name()(m.tags[i])
            != tag_scoped_name()(row) by {
            assert(i != -1);
        }
        lemma_push_unique_by(m.tags, row, tag_scoped_name());
        lemma_links_ok_rows(m, db@);
    }
    Ok(resp)
}

/// Creates a tag, with a fresh random external identifier, in a project the
/// caller owns; the name must be new within that project.
pub fn create_tag(db: &mut Store, id: &str, current_user: &str, body: CreateTagRequest) -> (r: Result<TagResponse, ApiError>)
    requires
        old(db)@.wf(),
    ensures
        final(db)@.wf(),
        match project_access(old(db)@, current_user@, id@) {
            Err(e) => r == Err::<TagResponse, ApiError>(e) && final(db)@ == old(db)@,
            Ok(p) => {
                let project = old(db)@.projects[p];
                if tag_name_in_use(old(db)@.tags, project.id, body.name@, -1) {
                    r == Err::<TagResponse, ApiError>(ApiError::Conflict) && final(db)@ == old(db)@
                } else {
                    exists|pid: u128| #[trigger] tag_inserted(old(db)@, final(db)@, r, project, body, pid)
                }
            },
        },
{
    let pid = fresh_pid();
    let ghost b = body;
    let r = create_tag_with_pid(db, id, current_user, body, pid);
    proof {
        if let Ok(p) = project_access(old(db)@, current_user@, id@) {
            let project = old(db)@.projects[p];
            if !tag_name_in_use(old(db)@.tags, project.id, b.name@, -1) {
                assert(tag_inserted(old(db)@, final(db)@, r, project, b, pid));
            }
        }
    }
    r
}

/// Replaces the fields that the request gives on a tag the caller owns; a
/// new name must not be used by another tag of the same project.
pub fn update_tag(db: &mut Store, id: &str, current_user: &str, body: UpdateTagRequest) -> (r: Result<TagResponse, ApiError>)
    requires
        old(db)@.wf(),
    ensures
        final(db)@.wf(),
        match tag_access(old(db)@, current_user@, id@) {
            Err(e) => r == Err::<TagResponse, ApiError>(e) && final(db)@ == old(db)@,
            Ok((t, p)) => {
                let tag = old(db)@.tags[t];
                if body.name matches Some(n) && tag_name_in_use(old(db)@.tags, tag.project_id, n@, t) {
                    r == Err::<TagResponse, ApiError>(ApiError::Conflict) && final(db)@ == old(db)@
                } else {
                    let row = updated_tag(tag, body);
                    &&& r matches Ok(resp) && tag_shown(resp, row, old(db)@.projects[p].pid)
                    &&& final(db)@ == (StoreModel { tags: old(db)@.tags.update(t, row), ..old(db)@ })
                }
            },
        },
{
    let (t, p) = authorize_tag(db, current_user, id)?;
    if let Some(n) = &body.name {
        if find_tag_name(&db.tags, db.tags[t].project_id, n, t) {
            return Err(ApiError::Conflict);
        }
    }
    let ghost m = db@;
    let ghost b = body;
    let mut row = db.tags[t].copy();
    let UpdateTagRequest { name, color } = body;
    if let Some(n) = name {
        row.name = n;
    }
    if color.is_some() {
        row.color = color;
    }
    assert(row == updated_tag(m.tags[t as int], b));
    let resp = to_response(&row, db.projects[p].pid);
    db.tags.set(t, row);
    proof {
        lemma_update_same_key(m.tags, t as int, row, tag_id());
        lemma_update_same_key(m.tags, t as int, row, tag_pid());
        lemma_update_all_below(m.tags, t as int, row, tag_id(), m.next_id);
        if b.name is None {
            lemma_update_same_key(m.tags, t as int, row, tag_scoped_name());
        } else {
            assert forall|j: int| 0 <= j < m.tags.len() && j != t implies #[trigger] tag_scoped_name()(
                m.tags[j],
            ) != tag_scoped_name()(row) by {}
            lemma_update_unique_by(m.tags, t as int, row, tag_scoped_name());
        }
        lemma_links_ok_rows(m, db@);
    }
    Ok(resp)
}

/// Deletes a tag the caller owns, with its links.
pub fn delete_tag(db: &mut Store, id: &str, current_user: &str) -> (r: Result<(), ApiError>)
    requires
        old(db)@.wf(),
    ensures
        final(db)@.wf(),
        match tag_access(old(db)@, current_user@, id@) {
            Err(e) => r == Err::<(), ApiError>(e) && final(db)@ == old(db)@,
            Ok((t, p)) => {
                let key = old(db)@.tags[t].id;
                &&& r == Ok::<(), ApiError>(())
                &&& final(db)@ == (StoreModel {
                    tags: old(db)@.tags.filter(not_tag(key)),
                    links: old(db)@.links.filter(link_off_tag(key)),
                    ..old(db)@
                })
            },
        },
{
    let (t, _p) = authorize_tag(db, current_user, id)?;
    let key = db.tags[t].id;
    let ghost m = db@;
    let tags = tags_without(&db.tags, key, false);
    let links = links_without(&db.links, key, true);
    db.tags = tags;
    db.links = links;
    proof {
        lemma_filter_unique_by(m.tags, not_tag(key), tag_id());
        lemma_filter_all_below(m.tags, not_tag(key), tag_id(), m.next_id);
        lemma_filter_unique_by(m.tags, not_tag(key), tag_scoped_name());
        lemma_filter_unique_by(m.tags, not_tag(key), tag_pid());
        lemma_links_ok_without_tag(m, key);
    }
    Ok(())
}

} // verus!
