//! Replacing the whole tag set of a testimonial in one step.

use vstd::prelude::*;

use crate::error::ApiError;
use crate::guard::{authorize_testimonial, tag_named, testimonial_access};
use crate::ids::{parse_pid, uuid_parse};
use crate::model::{Store, StoreModel, Tag, TagLink, link_ok, links_ok, tag_in, testimonial_in};
use crate::prune::{link_off_testimonial, links_without};
use crate::query::{find_tag_by_pid, lemma_first_index_some, project_has_id, tag_has_pid};
use crate::tables::lemma_filter_came_from;
use crate::tags::{SetTestimonialTagsRequest, TagResponse, TestimonialTagsResponse, tags_shown, to_response};

verus! {

broadcast use vstd::seq_lib::group_seq_properties;

/// The texts of a list of strings.
pub open spec fn texts(v: Seq<String>) -> Seq<Seq<char>> {
    v.map_values(|s: String| s@)
}

/// The positions of the requested tags, in request order, where every
/// identifier names a tag.
pub open spec fn tags_resolved(m: StoreModel, exts: Seq<Seq<char>>) -> Option<Seq<usize>>
    decreases exts.len(),
{
    if exts.len() == 0 {
        Some(Seq::empty())
    } else {
        match tags_resolved(m, exts.drop_last()) {
            None => None,
            Some(ks) => match tag_named(m, exts.last()) {
                None => None,
                Some(k) => Some(ks.push(k as usize)),
            },
        }
    }
}

/// Every requested tag must resolve, else `NotFound`; then every one must
/// belong to project `project`, else `Forbidden`. On success the tags'
/// positions, in request order.
pub open spec fn tags_check(m: StoreModel, exts: Seq<Seq<char>>, project: u64) -> Result<Seq<usize>, ApiError> {
    match tags_resolved(m, exts) {
        None => Err(ApiError::NotFound),
        Some(ks) => if forall|i: int| 0 <= i < ks.len() ==> m.tags[(#[trigger] ks[i]) as int].project_id == project {
            Ok(ks)
        } else {
            Err(ApiError::Forbidden)
        },
    }
}

/// The entries of `s` without repeats, each where it first occurs.
pub open spec fn distinct<A>(s: Seq<A>) -> Seq<A>
    decreases s.len(),
{
    if s.len() == 0 {
        s
    } else {
        let d = distinct(s.drop_last());
        if d.contains(s.last()) {
            d
        } else {
            d.push(s.last())
        }
    }
}

/// The tags at positions `ks`, in that order.
pub open spec fn picked(tags: Seq<Tag>, ks: Seq<usize>) -> Seq<Tag> {
    ks.map_values(|k: usize| tags[k as int])
}

/// One link from testimonial `testimonial` to each tag at positions `ks`.
pub open spec fn links_to(testimonial: u64, tags: Seq<Tag>, ks: Seq<usize>) -> Seq<TagLink> {
    ks.map_values(|k: usize| TagLink { testimonial_id: testimonial, tag_id: tags[k as int].id })
}

/// The links after the tag set of testimonial `testimonial` is replaced by
/// the tags at positions `ks`.
pub open spec fn relinked(links: Seq<TagLink>, testimonial: u64, tags: Seq<Tag>, ks: Seq<usize>) -> Seq<TagLink> {
    links.filter(link_off_testimonial(testimonial)) + links_to(testimonial, tags, distinct(ks))
}

/// What replacing a testimonial's tag set decides: the error, or the new
/// links, the resulting tags in request order, and the project's external
/// identifier.
pub open spec fn set_tags_plan(m: StoreModel, subject: Seq<char>, ext: Seq<char>, req: Seq<Seq<char>>) -> Result<(Seq<TagLink>, Seq<Tag>, u128), ApiError> {
    match testimonial_access(m, subject, ext) {
        Err(e) => Err(e),
        Ok((t, p)) => match tags_check(m, req, m.projects[p].id) {
            Err(e) => Err(e),
            Ok(ks) => Ok(
                (
                    relinked(m.links, m.testimonials[t].id, m.tags, ks),
                    picked(m.tags, distinct(ks)),
                    m.projects[p].pid,
                ),
            ),
        },
    }
}

/// The store after a request to replace a testimonial's tag set.
pub open spec fn set_tags_state(m: StoreModel, subject: Seq<char>, ext: Seq<char>, req: Seq<Seq<char>>) -> StoreModel {
    match set_tags_plan(m, subject, ext, req) {
        Err(_) => m,
        Ok((links, _, _)) => StoreModel { links: links, ..m },
    }
}

/// The answer to a request to replace a testimonial's tag set: the error, or
/// the resulting tags, each once in request order, with their project's
/// external identifier.
pub open spec fn set_tags_answer(m: StoreModel, subject: Seq<char>, ext: Seq<char>, req: Seq<Seq<char>>) -> Result<(Seq<Tag>, u128), ApiError> {
    match set_tags_plan(m, subject, ext, req) {
        Err(e) => Err(e),
        Ok((_, tags, pid)) => Ok((tags, pid)),
    }
}

proof fn lemma_tags_resolved_prefix(m: StoreModel, exts: Seq<Seq<char>>, i: int)
    requires
        0 <= i <= exts.len(),
        tags_resolved(m, exts.subrange(0, i)) is None,
    ensures
        tags_resolved(m, exts) is None,
    decreases exts.len(),
{
    if i == exts.len() {
        assert(exts.subrange(0, i) == exts);
    } else {
        assert(exts.drop_last().subrange(0, i) == exts.subrange(0, i));
        lemma_tags_resolved_prefix(m, exts.drop_last(), i);
    }
}

/// The positions that resolution gives lie within the tags.
pub proof fn lemma_tags_resolved_in_range(m: StoreModel, exts: Seq<Seq<char>>)
    ensures
        tags_resolved(m, exts) matches Some(ks) ==> forall|i: int|
            0 <= i < ks.len() ==> (#[trigger] ks[i]) < m.tags.len(),
    decreases exts.len(),
{
    if exts.len() > 0 {
        lemma_tags_resolved_in_range(m, exts.drop_last());
        if let Some(pid) = uuid_parse(exts.last()) {
            lemma_first_index_some(m.tags, tag_has_pid(pid));
        }
        if let Some(ks) = tags_resolved(m, exts) {
            let prev = tags_resolved(m, exts.drop_last())->0;
            assert forall|i: int| 0 <= i < ks.len() implies (#[trigger] ks[i]) < m.tags.len() by {
                if i < prev.len() {
                    assert(ks[i] == prev[i]);
                }
            }
        }
    }
}

pub proof fn lemma_distinct_from<A>(s: Seq<A>)
    ensures
        forall|x: A| distinct(s).contains(x) ==> s.contains(x),
    decreases s.len(),
{
    if s.len() > 0 {
        lemma_distinct_from(s.drop_last());
        let d = distinct(s.drop_last());
        assert forall|x: A| distinct(s).contains(x) implies s.contains(x) by {
            if d.contains(x) {
                assert(s.drop_last().contains(x));
                let k = choose|k: int| 0 <= k < s.drop_last().len() && s.drop_last()[k] == x;
                assert(s[k] == x);
            } else {
                let e = distinct(s);
                assert(e == d.push(s.last()));
                let k = choose|k: int| 0 <= k < e.len() && e[k] == x;
                if k < d.len() {
                    assert(d[k] == x);
                }
                assert(s[s.len() - 1] == x);
            }
        }
    }
}

/// Relinking a testimonial to tags of its own project keeps every link
/// sound.
proof fn lemma_links_ok_relinked(m: StoreModel, t: int, ks: Seq<usize>)
    requires
        links_ok(m),
        0 <= t < m.testimonials.len(),
        forall|i: int|
            0 <= i < ks.len() ==> (#[trigger] ks[i]) < m.tags.len() && m.tags[ks[i] as int].project_id
                == m.testimonials[t].project_id,
    ensures
        links_ok(StoreModel { links: relinked(m.links, m.testimonials[t].id, m.tags, ks), ..m }),
{
    let tid = m.testimonials[t].id;
    let project = m.testimonials[t].project_id;
    let m2 = StoreModel { links: relinked(m.links, tid, m.tags, ks), ..m };
    let kept = m.links.filter(link_off_testimonial(tid));
    let fresh = links_to(tid, m.tags, distinct(ks));
    lemma_distinct_from(ks);
    assert forall|k: int| 0 <= k < m2.links.len() implies link_ok(m2, #[trigger] m2.links[k]) by {
        if k < kept.len() {
            assert(m2.links[k] == kept[k]);
            lemma_filter_came_from(m.links, link_off_testimonial(tid), k);
            let n = choose|n: int| 0 <= n < m.links.len() && m.links[n] == kept[k];
            assert(link_ok(m, m.links[n]));
            let l = kept[k];
            let q = choose|q: u64|
                testimonial_in(m.testimonials, l.testimonial_id, q) && tag_in(m.tags, l.tag_id, q);
            assert(testimonial_in(m2.testimonials, l.testimonial_id, q) && tag_in(m2.tags, l.tag_id, q));
            assert(link_ok(m2, l));
        } else {
            let x = k - kept.len();
            assert(m2.links[k] == fresh[x]);
            let pos = distinct(ks)[x];
            assert(distinct(ks).contains(pos));
            assert(ks.contains(pos));
            let y = choose|y: int| 0 <= y < ks.len() && ks[y] == pos;
            assert(ks[y] < m.tags.len());
            let id = m.tags[pos as int].id;
            assert(tag_in(m.tags, id, project));
            assert(testimonial_in(m.testimonials, tid, project));
            let l = TagLink { testimonial_id: tid, tag_id: id };
            assert(fresh[x] == l);
            assert(testimonial_in(m2.testimonials, l.testimonial_id, project) && tag_in(
                m2.tags,
                l.tag_id,
                project,
            ));
            assert(link_ok(m2, l));
        }
    }
}

fn vec_has(v: &Vec<usize>, x: usize) -> (r: bool)
    ensures
        r == v@.contains(x),
{
    let mut i: usize = 0;
    while i < v.len()
        invariant
            i <= v@.len(),
            forall|k: int| 0 <= k < i ==> v@[k] != x,
        decreases v.len() - i,
    {
        if v[i] == x {
            return true;
        }
        i += 1;
    }
    false
}

/// Resolves every requested tag first, then checks that each belongs to
/// project `project`; on success their positions in request order.
fn resolve_tags(db: &Store, tag_ids: &Vec<String>, project: u64) -> (r: Result<Vec<usize>, ApiError>)
    ensures
        match tags_check(db@, texts(tag_ids@), project) {
            Err(e) => r == Err::<Vec<usize>, ApiError>(e),
            Ok(ks) => r matches Ok(v) && v@ == ks,
        },
        r matches Ok(v) ==> forall|q: int|
            0 <= q < v@.len() ==> (#[trigger] v@[q]) < db@.tags.len() && db@.tags[v@[q] as int].project_id
                == project,
{
    let ghost exts = texts(tag_ids@);
    let mut ks: Vec<usize> = Vec::new();
    let mut i: usize = 0;
    while i < tag_ids.len()
        invariant
            i <= tag_ids@.len(),
            exts == texts(tag_ids@),
            tags_resolved(db@, exts.subrange(0, i as int)) == Some(ks@),
        decreases tag_ids.len() - i,
    {
        let ghost pre = exts.subrange(0, i as int + 1);
        assert(pre.drop_last() == exts.subrange(0, i as int));
        assert(pre.last() == tag_ids@[i as int]@);
        let found = match parse_pid(tag_ids[i].as_str()) {
            None => None,
            Some(pid) => find_tag_by_pid(&db.tags, pid),
        };
        match found {
            None => {
                proof { lemma_tags_resolved_prefix(db@, exts, i as int + 1); }
                return Err(ApiError::NotFound);
            },
            Some(k) => {
                ks.push(k);
            },
        }
        i += 1;
    }
    proof {
        assert(exts.subrange(0, tag_ids@.len() as int) == exts);
        lemma_tags_resolved_in_range(db@, exts);
    }
    let mut j: usize = 0;
    while j < ks.len()
        invariant
            j <= ks@.len(),
            exts == texts(tag_ids@),
            tags_resolved(db@, exts) == Some(ks@),
            forall|q: int| 0 <= q < ks@.len() ==> (#[trigger] ks@[q]) < db@.tags.len(),
            forall|q: int| 0 <= q < j ==> db@.tags[(#[trigger] ks@[q]) as int].project_id == project,
        decreases ks.len() - j,
    {
        if db.tags[ks[j]].project_id != project {
            assert(db@.tags[(ks@[j as int]) as int].project_id != project);
            return Err(ApiError::Forbidden);
        }
        j += 1;
    }
    Ok(ks)
}

fn dedup(ks: &Vec<usize>) -> (r: Vec<usize>)
    ensures
        r@ == distinct(ks@),
{
    let mut out: Vec<usize> = Vec::new();
    let mut i: usize = 0;
    while i < ks.len()
        invariant
            i <= ks@.len(),
            out@ == distinct(ks@.subrange(0, i as int)),
        decreases ks.len() - i,
    {
        let ghost pre = ks@.subrange(0, i as int + 1);
        assert(pre.drop_last() == ks@.subrange(0, i as int));
        if !vec_has(&out, ks[i]) {
            out.push(ks[i]);
        }
        i += 1;
    }
    proof { assert(ks@.subrange(0, ks@.len() as int) == ks@); }
    out
}

/// Replaces the whole tag set of a testimonial the caller owns. Every
/// requested identifier must name a tag (else `NotFound`), and every such
/// tag must belong to the testimonial's project (else `Forbidden`); only
/// then are the old links removed and one link per distinct requested tag
/// added. On any failure nothing changes. The answer lists the tags once
/// each, in request order.
pub fn set_testimonial_tags(db: &mut Store, id: &str, current_user: &str, body: SetTestimonialTagsRequest) -> (r: Result<TestimonialTagsResponse, ApiError>)
    requires
        old(db)@.wf(),
    ensures
        final(db)@.wf(),
        final(db)@ == set_tags_state(old(db)@, current_user@, id@, texts(body.tag_ids@)),
        match set_tags_answer(old(db)@, current_user@, id@, texts(body.tag_ids@)) {
            Err(e) => r == Err::<TestimonialTagsResponse, ApiError>(e),
            Ok((tags, pid)) => r matches Ok(resp) && tags_shown(resp.tags@, tags, pid),
        },
{
    let (t, p) = authorize_testimonial(db, current_user, id)?;
    let testimonial = db.testimonials[t].id;
    let project_pid = db.projects[p].pid;
    let ks = resolve_tags(db, &body.tag_ids, db.projects[p].id)?;
    let wanted = dedup(&ks);
    proof {
        lemma_distinct_from(ks@);
        assert forall|q: int| 0 <= q < wanted@.len() implies (#[trigger] wanted@[q]) < db@.tags.len() by {
            assert(distinct(ks@).contains(wanted@[q]));
            assert(ks@.contains(wanted@[q]));
            let y = choose|y: int| 0 <= y < ks@.len() && ks@[y] == wanted@[q];
            assert(ks@[y] < db@.tags.len());
        }
    }
    let mut links = links_without(&db.links, testimonial, false);
    let ghost base = links@;
    let mut answer: Vec<TagResponse> = Vec::new();
    let mut j: usize = 0;
    while j < wanted.len()
        invariant
            j <= wanted@.len(),
            forall|q: int| 0 <= q < wanted@.len() ==> (#[trigger] wanted@[q]) < db@.tags.len(),
            links@ == base + links_to(testimonial, db@.tags, wanted@.subrange(0, j as int)),
            tags_shown(answer@, picked(db@.tags, wanted@.subrange(0, j as int)), project_pid),
        decreases wanted.len() - j,
    {
        let k = wanted[j];
        proof {
            assert(wanted@.subrange(0, j as int + 1) == wanted@.subrange(0, j as int).push(k));
            assert(links_to(testimonial, db@.tags, wanted@.subrange(0, j as int + 1)) == links_to(
                testimonial,
                db@.tags,
                wanted@.subrange(0, j as int),
            ).push(TagLink { testimonial_id: testimonial, tag_id: db@.tags[k as int].id }));
            assert(picked(db@.tags, wanted@.subrange(0, j as int + 1)) == picked(
                db@.tags,
                wanted@.subrange(0, j as int),
            ).push(db@.tags[k as int]));
        }
        links.push(TagLink { testimonial_id: testimonial, tag_id: db.tags[k].id });
        answer.push(to_response(&db.tags[k], project_pid));
        j += 1;
    }
    proof { assert(wanted@.subrange(0, wanted@.len() as int) == wanted@); }
    db.links = links;
    proof {
        let m = old(db)@;
        lemma_first_index_some(m.projects, project_has_id(m.testimonials[t as int].project_id));
        assert forall|i: int| 0 <= i < ks@.len() implies (#[trigger] ks@[i]) < m.tags.len()
            && m.tags[ks@[i] as int].project_id == m.testimonials[t as int].project_id by {}
        lemma_links_ok_relinked(m, t as int, ks@);
    }
    Ok(TestimonialTagsResponse { tags: answer })
}

} // verus!
