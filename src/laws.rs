//! Properties that relate several requests, or that hold of every state.

use vstd::prelude::*;

use crate::error::ApiError;
use crate::guard::{
    caller_of, project_access, project_named, project_with_id, tag_access, tag_named,
    testimonial_access, testimonial_named,
};
use crate::ids::uuid_parse;
use crate::model::{StoreModel, Tag, TagLink};
use crate::query::{lemma_first_index_some, tag_has_pid};
use crate::prune::link_off_testimonial;
use crate::reconcile::{
    distinct, links_to, relinked, set_tags_answer, set_tags_plan, set_tags_state, tags_check,
    tags_resolved,
};
use crate::tables::{lemma_filter_all_pass, lemma_filter_none_pass};
use crate::tags::{linked, tags_of};

verus! {

broadcast use vstd::seq_lib::group_seq_properties;

proof fn lemma_links_to_own(t: u64, tags: Seq<Tag>, ks: Seq<usize>)
    ensures
        forall|i: int|
            0 <= i < links_to(t, tags, ks).len() ==> (#[trigger] links_to(t, tags, ks)[i]).testimonial_id
                == t,
{
}

proof fn lemma_relinked_twice(links: Seq<TagLink>, t: u64, tags: Seq<Tag>, ks: Seq<usize>)
    ensures
        relinked(relinked(links, t, tags, ks), t, tags, ks) == relinked(links, t, tags, ks),
{
    let p = link_off_testimonial(t);
    let kept = links.filter(p);
    let fresh = links_to(t, tags, distinct(ks));
    Seq::filter_distributes_over_add(kept, fresh, p);
    assert forall|i: int| 0 <= i < kept.len() implies p(#[trigger] kept[i]) by {
        links.lemma_filter_pred(p, i);
    }
    lemma_filter_all_pass(kept, p);
    lemma_links_to_own(t, tags, distinct(ks));
    lemma_filter_none_pass(fresh, p);
    assert(fresh.filter(p) == Seq::<TagLink>::empty());
    assert(kept + Seq::<TagLink>::empty() == kept);
}

proof fn lemma_tags_resolved_same_tags(m: StoreModel, n: StoreModel, exts: Seq<Seq<char>>)
    requires
        m.tags == n.tags,
    ensures
        tags_resolved(m, exts) == tags_resolved(n, exts),
    decreases exts.len(),
{
    if exts.len() > 0 {
        lemma_tags_resolved_same_tags(m, n, exts.drop_last());
    }
}

/// Replacing a testimonial's tag set twice with the same request leaves the
/// same store, and gives the same answer, as doing it once.
pub proof fn lemma_set_tags_idempotent(m: StoreModel, subject: Seq<char>, ext: Seq<char>, req: Seq<Seq<char>>)
    ensures
        set_tags_state(set_tags_state(m, subject, ext, req), subject, ext, req) == set_tags_state(
            m,
            subject,
            ext,
            req,
        ),
        set_tags_answer(set_tags_state(m, subject, ext, req), subject, ext, req) == set_tags_answer(
            m,
            subject,
            ext,
            req,
        ),
{
    let m1 = set_tags_state(m, subject, ext, req);
    if let Ok((links, tags, pid)) = set_tags_plan(m, subject, ext, req) {
        assert(testimonial_access(m1, subject, ext) == testimonial_access(m, subject, ext));
        let (ti, pi) = testimonial_access(m, subject, ext)->Ok_0;
        lemma_tags_resolved_same_tags(m, m1, req);
        assert(tags_check(m1, req, m.projects[pi].id) == tags_check(m, req, m.projects[pi].id));
        let ks = tags_check(m, req, m.projects[pi].id)->Ok_0;
        lemma_relinked_twice(m.links, m.testimonials[ti].id, m.tags, ks);
        assert(set_tags_plan(m1, subject, ext, req) == set_tags_plan(m, subject, ext, req));
    }
}

/// An empty request, from the testimonial's owner, always succeeds and
/// leaves the testimonial with no link and no tag, whatever it had before.
pub proof fn lemma_set_tags_empty_clears(m: StoreModel, subject: Seq<char>, ext: Seq<char>)
    requires
        testimonial_access(m, subject, ext) is Ok,
    ensures
        ({
            let t = m.testimonials[testimonial_access(m, subject, ext)->Ok_0.0].id;
            let after = set_tags_state(m, subject, ext, Seq::empty());
            &&& set_tags_answer(m, subject, ext, Seq::empty()) matches Ok((tags, _)) && tags.len() == 0
            &&& forall|k: int| 0 <= k < after.links.len() ==> (#[trigger] after.links[k]).testimonial_id != t
            &&& tags_of(after, t).len() == 0
        }),
{
    let (ti, pi) = testimonial_access(m, subject, ext)->Ok_0;
    let t = m.testimonials[ti].id;
    let req = Seq::<Seq<char>>::empty();
    assert(tags_resolved(m, req) == Some(Seq::<usize>::empty()));
    assert(tags_check(m, req, m.projects[pi].id) == Ok::<Seq<usize>, ApiError>(Seq::empty()));
    let p = link_off_testimonial(t);
    let kept = m.links.filter(p);
    assert(distinct(Seq::<usize>::empty()) == Seq::<usize>::empty());
    assert(links_to(t, m.tags, Seq::<usize>::empty()) == Seq::<TagLink>::empty());
    assert(relinked(m.links, t, m.tags, Seq::empty()) == kept);
    let after = set_tags_state(m, subject, ext, req);
    assert(after.links == kept);
    assert forall|k: int| 0 <= k < after.links.len() implies (#[trigger] after.links[k]).testimonial_id != t by {
        m.links.lemma_filter_pred(p, k);
    }
    assert forall|i: int| 0 <= i < after.tags.len() implies !linked(after.links, t)(#[trigger] after.tags[i]) by {
        if after.links.contains(TagLink { testimonial_id: t, tag_id: after.tags[i].id }) {
            let k = choose|k: int|
                0 <= k < after.links.len() && after.links[k] == TagLink {
                    testimonial_id: t,
                    tag_id: after.tags[i].id,
                };
            assert(after.links[k].testimonial_id != t);
        }
    }
    lemma_filter_none_pass(after.tags, linked(after.links, t));
}

proof fn lemma_tags_resolved_all(m: StoreModel, req: Seq<Seq<char>>)
    requires
        m.tags.len() <= usize::MAX,
        forall|i: int| 0 <= i < req.len() ==> tag_named(m, #[trigger] req[i]) is Some,
    ensures
        tags_resolved(m, req) matches Some(ks) && ks.len() == req.len() && forall|i: int|
            0 <= i < req.len() ==> (#[trigger] ks[i]) as int == tag_named(m, req[i])->0,
    decreases req.len(),
{
    if req.len() > 0 {
        assert forall|i: int| 0 <= i < req.drop_last().len() implies tag_named(m, #[trigger] req.drop_last()[i]) is Some by {
            assert(req.drop_last()[i] == req[i]);
        }
        lemma_tags_resolved_all(m, req.drop_last());
        assert(tag_named(m, req[req.len() - 1]) is Some);
        if let Some(pid) = uuid_parse(req.last()) {
            lemma_first_index_some(m.tags, tag_has_pid(pid));
        }
        let ks = tags_resolved(m, req)->0;
        let prev = tags_resolved(m, req.drop_last())->0;
        let last = tag_named(m, req.last())->0;
        assert(0 <= last < m.tags.len());
        assert forall|i: int| 0 <= i < req.len() implies (#[trigger] ks[i]) as int == tag_named(m, req[i])->0 by {
            if i < prev.len() {
                assert(ks[i] == prev[i]);
                assert(req.drop_last()[i] == req[i]);
            } else {
                assert(req[i] == req.last());
            }
        }
    }
}

proof fn lemma_tags_resolved_unknown(m: StoreModel, req: Seq<Seq<char>>, k: int)
    requires
        0 <= k < req.len(),
        tag_named(m, req[k]) is None,
    ensures
        tags_resolved(m, req) is None,
    decreases req.len(),
{
    if k < req.len() - 1 {
        assert(req.drop_last()[k] == req[k]);
        lemma_tags_resolved_unknown(m, req.drop_last(), k);
    }
}

/// Where every requested tag resolves but one of them belongs to a project
/// other than the testimonial's, the request is refused as `Forbidden` and
/// the store, links included, stays as it was.
pub proof fn lemma_set_tags_foreign_refused(m: StoreModel, subject: Seq<char>, ext: Seq<char>, req: Seq<Seq<char>>, k: int)
    requires
        m.tags.len() <= usize::MAX,
        testimonial_access(m, subject, ext) is Ok,
        forall|i: int| 0 <= i < req.len() ==> tag_named(m, #[trigger] req[i]) is Some,
        0 <= k < req.len(),
        m.tags[tag_named(m, req[k])->0].project_id != m.projects[testimonial_access(
            m,
            subject,
            ext,
        )->Ok_0.1].id,
    ensures
        set_tags_answer(m, subject, ext, req) == Err::<(Seq<Tag>, u128), ApiError>(ApiError::Forbidden),
        set_tags_state(m, subject, ext, req) == m,
{
    lemma_tags_resolved_all(m, req);
    let ks = tags_resolved(m, req)->0;
    assert(ks[k] as int == tag_named(m, req[k])->0);
}

/// Where some requested identifier names no tag, the request is refused as
/// `NotFound` and the store, links included, stays as it was, whatever else
/// the request lists.
pub proof fn lemma_set_tags_unknown_refused(m: StoreModel, subject: Seq<char>, ext: Seq<char>, req: Seq<Seq<char>>, k: int)
    requires
        testimonial_access(m, subject, ext) is Ok,
        0 <= k < req.len(),
        tag_named(m, req[k]) is None,
    ensures
        set_tags_answer(m, subject, ext, req) == Err::<(Seq<Tag>, u128), ApiError>(ApiError::NotFound),
        set_tags_state(m, subject, ext, req) == m,
{
    lemma_tags_resolved_unknown(m, req, k);
}

/// A caller who is known but does not own the project that an identifier
/// names is refused that project as `Forbidden`.
pub proof fn lemma_project_non_owner(m: StoreModel, subject: Seq<char>, ext: Seq<char>)
    requires
        caller_of(m, subject) is Some,
        project_named(m, ext) is Some,
        m.projects[project_named(m, ext)->0].user_id != caller_of(m, subject)->0,
    ensures
        project_access(m, subject, ext) == Err::<int, ApiError>(ApiError::Forbidden),
{
}

/// A caller who is known but does not own the project of the testimonial
/// that an identifier names is refused that testimonial as `Forbidden`.
pub proof fn lemma_testimonial_non_owner(m: StoreModel, subject: Seq<char>, ext: Seq<char>)
    requires
        caller_of(m, subject) is Some,
        testimonial_named(m, ext) is Some,
        project_with_id(m, m.testimonials[testimonial_named(m, ext)->0].project_id) matches Some(p)
            && m.projects[p].user_id != caller_of(m, subject)->0,
    ensures
        testimonial_access(m, subject, ext) == Err::<(int, int), ApiError>(ApiError::Forbidden),
{
}

/// A caller who is known but does not own the project of the tag that an
/// identifier names is refused that tag as `Forbidden`.
pub proof fn lemma_tag_non_owner(m: StoreModel, subject: Seq<char>, ext: Seq<char>)
    requires
        caller_of(m, subject) is Some,
        tag_named(m, ext) is Some,
        project_with_id(m, m.tags[tag_named(m, ext)->0].project_id) matches Some(p)
            && m.projects[p].user_id != caller_of(m, subject)->0,
    ensures
        tag_access(m, subject, ext) == Err::<(int, int), ApiError>(ApiError::Forbidden),
{
}

} // verus!
