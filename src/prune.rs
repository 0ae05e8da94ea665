//! Deleting rows, with the links that hang on them.

use vstd::prelude::*;

use crate::model::{Project, Store, StoreModel, Tag, TagLink, Testimonial, tag_in, testimonial_in};
use crate::model::{link_ok, links_ok};
use crate::tables::{lemma_filter_came_from, lemma_filter_keeps, lemma_filter_prefix_step};

verus! {

broadcast use vstd::seq_lib::group_seq_properties;

pub open spec fn not_project(id: u64) -> spec_fn(Project) -> bool {
    |p: Project| p.id != id
}

pub open spec fn outside_project(id: u64) -> spec_fn(Testimonial) -> bool {
    |t: Testimonial| t.project_id != id
}

pub open spec fn tag_outside_project(id: u64) -> spec_fn(Tag) -> bool {
    |t: Tag| t.project_id != id
}

pub open spec fn not_testimonial(id: u64) -> spec_fn(Testimonial) -> bool {
    |t: Testimonial| t.id != id
}

pub open spec fn not_tag(id: u64) -> spec_fn(Tag) -> bool {
    |t: Tag| t.id != id
}

pub open spec fn link_off_testimonial(id: u64) -> spec_fn(TagLink) -> bool {
    |l: TagLink| l.testimonial_id != id
}

pub open spec fn link_off_tag(id: u64) -> spec_fn(TagLink) -> bool {
    |l: TagLink| l.tag_id != id
}

/// A link survives the deletion of project `id` where neither of its ends
/// lives in that project.
pub open spec fn link_outside_project(m: StoreModel, id: u64) -> spec_fn(TagLink) -> bool {
    |l: TagLink|
        !testimonial_in(m.testimonials, l.testimonial_id, id) && !tag_in(m.tags, l.tag_id, id)
}

fn has_testimonial_in(ts: &Vec<Testimonial>, id: u64, project: u64) -> (r: bool)
    ensures
        r == testimonial_in(ts@, id, project),
{
    let mut i: usize = 0;
    while i < ts.len()
        invariant
            i <= ts@.len(),
            forall|k: int|
                0 <= k < i ==> !((#[trigger] ts@[k]).id == id && ts@[k].project_id == project),
        decreases ts.len() - i,
    {
        if ts[i].id == id && ts[i].project_id == project {
            return true;
        }
        i += 1;
    }
    false
}

fn has_tag_in(ts: &Vec<Tag>, id: u64, project: u64) -> (r: bool)
    ensures
        r == tag_in(ts@, id, project),
{
    let mut i: usize = 0;
    while i < ts.len()
        invariant
            i <= ts@.len(),
            forall|k: int|
                0 <= k < i ==> !((#[trigger] ts@[k]).id == id && ts@[k].project_id == project),
        decreases ts.len() - i,
    {
        if ts[i].id == id && ts[i].project_id == project {
            return true;
        }
        i += 1;
    }
    false
}

pub fn projects_without(v: &Vec<Project>, id: u64) -> (r: Vec<Project>)
    ensures
        r@ == v@.filter(not_project(id)),
{
    let mut out: Vec<Project> = Vec::new();
    let mut i: usize = 0;
    while i < v.len()
        invariant
            i <= v@.len(),
            out@ == v@.subrange(0, i as int).filter(not_project(id)),
        decreases v.len() - i,
    {
        proof { lemma_filter_prefix_step(v@, i as int, not_project(id)); }
        if v[i].id != id {
            out.push(v[i].copy());
        }
        i += 1;
    }
    proof { assert(v@.subrange(0, v@.len() as int) == v@); }
    out
}

/// The testimonials that remain once those with internal id `id` (or, with
/// `by_project`, those of project `id`) are gone.
pub fn testimonials_without(v: &Vec<Testimonial>, id: u64, by_project: bool) -> (r: Vec<Testimonial>)
    ensures
        r@ == v@.filter(if by_project { outside_project(id) } else { not_testimonial(id) }),
{
    let ghost pred = if by_project { outside_project(id) } else { not_testimonial(id) };
    let mut out: Vec<Testimonial> = Vec::new();
    let mut i: usize = 0;
    while i < v.len()
        invariant
            i <= v@.len(),
            pred == (if by_project { outside_project(id) } else { not_testimonial(id) }),
            out@ == v@.subrange(0, i as int).filter(pred),
        decreases v.len() - i,
    {
        proof { lemma_filter_prefix_step(v@, i as int, pred); }
        let keep = if by_project { v[i].project_id != id } else { v[i].id != id };
        if keep {
            out.push(v[i].copy());
        }
        i += 1;
    }
    proof { assert(v@.subrange(0, v@.len() as int) == v@); }
    out
}

/// The tags that remain once those with internal id `id` (or, with
/// `by_project`, those of project `id`) are gone.
pub fn tags_without(v: &Vec<Tag>, id: u64, by_project: bool) -> (r: Vec<Tag>)
    ensures
        r@ == v@.filter(if by_project { tag_outside_project(id) } else { not_tag(id) }),
{
    let ghost pred = if by_project { tag_outside_project(id) } else { not_tag(id) };
    let mut out: Vec<Tag> = Vec::new();
    let mut i: usize = 0;
    while i < v.len()
        invariant
            i <= v@.len(),
            pred == (if by_project { tag_outside_project(id) } else { not_tag(id) }),
            out@ == v@.subrange(0, i as int).filter(pred),
        decreases v.len() - i,
    {
        proof { lemma_filter_prefix_step(v@, i as int, pred); }
        let keep = if by_project { v[i].project_id != id } else { v[i].id != id };
        if keep {
            out.push(v[i].copy());
        }
        i += 1;
    }
    proof { assert(v@.subrange(0, v@.len() as int) == v@); }
    out
}

/// The links that remain once those of testimonial `id` (or, with `by_tag`,
/// those of tag `id`) are gone.
pub fn links_without(v: &Vec<TagLink>, id: u64, by_tag: bool) -> (r: Vec<TagLink>)
    ensures
        r@ == v@.filter(if by_tag { link_off_tag(id) } else { link_off_testimonial(id) }),
{
    let ghost pred = if by_tag { link_off_tag(id) } else { link_off_testimonial(id) };
    let mut out: Vec<TagLink> = Vec::new();
    let mut i: usize = 0;
    while i < v.len()
        invariant
            i <= v@.len(),
            pred == (if by_tag { link_off_tag(id) } else { link_off_testimonial(id) }),
            out@ == v@.subrange(0, i as int).filter(pred),
        decreases v.len() - i,
    {
        proof { lemma_filter_prefix_step(v@, i as int, pred); }
        let keep = if by_tag { v[i].tag_id != id } else { v[i].testimonial_id != id };
        if keep {
            out.push(v[i]);
        }
        i += 1;
    }
    proof { assert(v@.subrange(0, v@.len() as int) == v@); }
    out
}

/// The links that survive the deletion of project `id`.
pub fn links_outside(db: &Store, id: u64) -> (r: Vec<TagLink>)
    ensures
        r@ == db@.links.filter(link_outside_project(db@, id)),
{
    let ghost pred = link_outside_project(db@, id);
    let mut out: Vec<TagLink> = Vec::new();
    let mut i: usize = 0;
    while i < db.links.len()
        invariant
            i <= db@.links.len(),
            pred == link_outside_project(db@, id),
            out@ == db@.links.subrange(0, i as int).filter(pred),
        decreases db.links.len() - i,
    {
        proof { lemma_filter_prefix_step(db@.links, i as int, pred); }
        let l = db.links[i];
        if !has_testimonial_in(&db.testimonials, l.testimonial_id, id) && !has_tag_in(&db.tags, l.tag_id, id) {
            out.push(l);
        }
        i += 1;
    }
    proof { assert(db@.links.subrange(0, db@.links.len() as int) == db@.links); }
    out
}

} // verus!

verus! {

/// Deleting a testimonial with its links keeps every remaining link sound.
pub proof fn lemma_links_ok_without_testimonial(m: StoreModel, key: u64)
    requires
        links_ok(m),
    ensures
        links_ok(
            StoreModel {
                testimonials: m.testimonials.filter(not_testimonial(key)),
                links: m.links.filter(link_off_testimonial(key)),
                ..m
            },
        ),
{
    let m2 = StoreModel {
        testimonials: m.testimonials.filter(not_testimonial(key)),
        links: m.links.filter(link_off_testimonial(key)),
        ..m
    };
    assert forall|k: int| 0 <= k < m2.links.len() implies link_ok(m2, #[trigger] m2.links[k]) by {
        let l = m2.links[k];
        lemma_filter_came_from(m.links, link_off_testimonial(key), k);
        let n = choose|n: int| 0 <= n < m.links.len() && m.links[n] == l;
        assert(link_ok(m, m.links[n]));
        let p = choose|p: u64|
            testimonial_in(m.testimonials, l.testimonial_id, p) && tag_in(m.tags, l.tag_id, p);
        let i = choose|i: int|
            0 <= i < m.testimonials.len() && (#[trigger] m.testimonials[i]).id == l.testimonial_id
                && m.testimonials[i].project_id == p;
        let i2 = lemma_filter_keeps(m.testimonials, not_testimonial(key), i);
        assert(m2.testimonials[i2].id == l.testimonial_id);
        assert(testimonial_in(m2.testimonials, l.testimonial_id, p));
    }
}

/// Deleting a tag with its links keeps every remaining link sound.
pub proof fn lemma_links_ok_without_tag(m: StoreModel, key: u64)
    requires
        links_ok(m),
    ensures
        links_ok(
            StoreModel {
                tags: m.tags.filter(not_tag(key)),
                links: m.links.filter(link_off_tag(key)),
                ..m
            },
        ),
{
    let m2 = StoreModel {
        tags: m.tags.filter(not_tag(key)),
        links: m.links.filter(link_off_tag(key)),
        ..m
    };
    assert forall|k: int| 0 <= k < m2.links.len() implies link_ok(m2, #[trigger] m2.links[k]) by {
        let l = m2.links[k];
        lemma_filter_came_from(m.links, link_off_tag(key), k);
        let n = choose|n: int| 0 <= n < m.links.len() && m.links[n] == l;
        assert(link_ok(m, m.links[n]));
        let p = choose|p: u64|
            testimonial_in(m.testimonials, l.testimonial_id, p) && tag_in(m.tags, l.tag_id, p);
        let j = choose|j: int|
            0 <= j < m.tags.len() && (#[trigger] m.tags[j]).id == l.tag_id && m.tags[j].project_id == p;
        let j2 = lemma_filter_keeps(m.tags, not_tag(key), j);
        assert(m2.tags[j2].id == l.tag_id);
        assert(tag_in(m2.tags, l.tag_id, p));
    }
}

/// Deleting a project with everything that hangs on it keeps every remaining
/// link sound.
pub proof fn lemma_links_ok_without_project(m: StoreModel, key: u64)
    requires
        links_ok(m),
    ensures
        links_ok(
            StoreModel {
                projects: m.projects.filter(not_project(key)),
                testimonials: m.testimonials.filter(outside_project(key)),
                tags: m.tags.filter(tag_outside_project(key)),
                links: m.links.filter(link_outside_project(m, key)),
                ..m
            },
        ),
{
    let m2 = StoreModel {
        projects: m.projects.filter(not_project(key)),
        testimonials: m.testimonials.filter(outside_project(key)),
        tags: m.tags.filter(tag_outside_project(key)),
        links: m.links.filter(link_outside_project(m, key)),
        ..m
    };
    assert forall|k: int| 0 <= k < m2.links.len() implies link_ok(m2, #[trigger] m2.links[k]) by {
        let l = m2.links[k];
        lemma_filter_came_from(m.links, link_outside_project(m, key), k);
        let n = choose|n: int| 0 <= n < m.links.len() && m.links[n] == l;
        assert(link_ok(m, m.links[n]));
        let p = choose|p: u64|
            testimonial_in(m.testimonials, l.testimonial_id, p) && tag_in(m.tags, l.tag_id, p);
        assert(p != key);
        let i = choose|i: int|
            0 <= i < m.testimonials.len() && (#[trigger] m.testimonials[i]).id == l.testimonial_id
                && m.testimonials[i].project_id == p;
        let j = choose|j: int|
            0 <= j < m.tags.len() && (#[trigger] m.tags[j]).id == l.tag_id && m.tags[j].project_id == p;
        let i2 = lemma_filter_keeps(m.testimonials, outside_project(key), i);
        let j2 = lemma_filter_keeps(m.tags, tag_outside_project(key), j);
        assert(m2.testimonials[i2].id == l.testimonial_id);
        assert(m2.tags[j2].id == l.tag_id);
        assert(testimonial_in(m2.testimonials, l.testimonial_id, p));
        assert(tag_in(m2.tags, l.tag_id, p));
    }
}

} // verus!
