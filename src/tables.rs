//! Facts about filtered, extended and updated relations.

use vstd::prelude::*;

use crate::model::{StoreModel, all_below, link_ok, links_ok, tag_in, testimonial_in, unique_by};

verus! {

broadcast use vstd::seq_lib::group_seq_properties;

pub proof fn lemma_filter_unique_by<A, K>(s: Seq<A>, p: spec_fn(A) -> bool, key: spec_fn(A) -> K)
    requires
        unique_by(s, key),
    ensures
        unique_by(s.filter(p), key),
    decreases s.len(),
{
    reveal(Seq::filter);
    if s.len() > 0 {
        let d = s.drop_last();
        let last = s.last();
        assert forall|i: int, j: int|
            0 <= i < d.len() && 0 <= j < d.len() && #[trigger] key(d[i]) == #[trigger] key(d[j])
                implies i == j by {
            assert(key(s[i]) == key(s[j]));
        }
        lemma_filter_unique_by(d, p, key);
        let f = d.filter(p);
        if p(last) {
            assert forall|i: int| 0 <= i < f.len() implies #[trigger] key(f[i]) != key(last) by {
                assert(f.contains(f[i]));
                d.lemma_filter_contains_rev(p, f[i]);
                let k = choose|k: int| 0 <= k < d.len() && d[k] == f[i];
                assert(s[k] == d[k]);
                assert(s[s.len() - 1] == last);
                if key(f[i]) == key(last) {
                    assert(key(s[k]) == key(s[s.len() - 1]));
                }
            }
            let g = f.push(last);
            assert forall|i: int, j: int|
                0 <= i < g.len() && 0 <= j < g.len() && #[trigger] key(g[i]) == #[trigger] key(g[j])
                    implies i == j by {
                if i < f.len() && j < f.len() {
                    assert(g[i] == f[i] && g[j] == f[j]);
                } else if i < f.len() {
                    assert(g[i] == f[i]);
                } else if j < f.len() {
                    assert(g[j] == f[j]);
                }
            }
        }
    }
}

pub proof fn lemma_filter_all_below<A>(s: Seq<A>, p: spec_fn(A) -> bool, key: spec_fn(A) -> u64, bound: u64)
    requires
        all_below(s, key, bound),
    ensures
        all_below(s.filter(p), key, bound),
{
    let f = s.filter(p);
    assert forall|i: int| 0 <= i < f.len() implies #[trigger] key(f[i]) < bound by {
        assert(f.contains(f[i]));
        s.lemma_filter_contains_rev(p, f[i]);
    }
}

pub proof fn lemma_push_unique_by<A, K>(s: Seq<A>, x: A, key: spec_fn(A) -> K)
    requires
        unique_by(s, key),
        forall|i: int| 0 <= i < s.len() ==> #[trigger] key(s[i]) != key(x),
    ensures
        unique_by(s.push(x), key),
{
    let g = s.push(x);
    assert forall|i: int, j: int|
        0 <= i < g.len() && 0 <= j < g.len() && #[trigger] key(g[i]) == #[trigger] key(g[j])
            implies i == j by {
        if i < s.len() && j < s.len() {
            assert(g[i] == s[i] && g[j] == s[j]);
        } else if i < s.len() {
            assert(g[i] == s[i]);
        } else if j < s.len() {
            assert(g[j] == s[j]);
        }
    }
}

pub proof fn lemma_push_all_below<A>(s: Seq<A>, x: A, key: spec_fn(A) -> u64, bound: u64, new_bound: u64)
    requires
        all_below(s, key, bound),
        bound <= new_bound,
        key(x) < new_bound,
    ensures
        all_below(s.push(x), key, new_bound),
{
    let g = s.push(x);
    assert forall|i: int| 0 <= i < g.len() implies #[trigger] key(g[i]) < new_bound by {
        if i < s.len() {
            assert(g[i] == s[i]);
        }
    }
}

pub proof fn lemma_raise_bound<A>(s: Seq<A>, key: spec_fn(A) -> u64, bound: u64, new_bound: u64)
    requires
        all_below(s, key, bound),
        bound <= new_bound,
    ensures
        all_below(s, key, new_bound),
{
}

pub proof fn lemma_update_unique_by<A, K>(s: Seq<A>, i: int, x: A, key: spec_fn(A) -> K)
    requires
        unique_by(s, key),
        0 <= i < s.len(),
        forall|j: int| 0 <= j < s.len() && j != i ==> #[trigger] key(s[j]) != key(x),
    ensures
        unique_by(s.update(i, x), key),
{
    let g = s.update(i, x);
    assert forall|a: int, b: int|
        0 <= a < g.len() && 0 <= b < g.len() && #[trigger] key(g[a]) == #[trigger] key(g[b])
            implies a == b by {
        if a != i && b != i {
            assert(g[a] == s[a] && g[b] == s[b]);
        } else if a != i {
            assert(g[a] == s[a]);
        } else if b != i {
            assert(g[b] == s[b]);
        }
    }
}

pub proof fn lemma_update_all_below<A>(s: Seq<A>, i: int, x: A, key: spec_fn(A) -> u64, bound: u64)
    requires
        all_below(s, key, bound),
        0 <= i < s.len(),
        key(x) == key(s[i]),
    ensures
        all_below(s.update(i, x), key, bound),
{
    let g = s.update(i, x);
    assert forall|a: int| 0 <= a < g.len() implies #[trigger] key(g[a]) < bound by {
        if a != i {
            assert(g[a] == s[a]);
        }
    }
}

} // verus!

verus! {

pub proof fn lemma_filter_prefix_step<A>(s: Seq<A>, i: int, p: spec_fn(A) -> bool)
    requires
        0 <= i < s.len(),
    ensures
        s.subrange(0, i + 1).filter(p) == (if p(s[i]) {
            s.subrange(0, i).filter(p).push(s[i])
        } else {
            s.subrange(0, i).filter(p)
        }),
{
    assert(s.subrange(0, i + 1) == s.subrange(0, i).push(s[i]));
    s.subrange(0, i).lemma_filter_push(s[i], p);
}

} // verus!

verus! {

pub proof fn lemma_update_same_key<A, K>(s: Seq<A>, i: int, x: A, key: spec_fn(A) -> K)
    requires
        unique_by(s, key),
        0 <= i < s.len(),
        key(x) == key(s[i]),
    ensures
        unique_by(s.update(i, x), key),
{
    assert forall|j: int| 0 <= j < s.len() && j != i implies #[trigger] key(s[j]) != key(x) by {
        if key(s[j]) == key(x) {
            assert(key(s[j]) == key(s[i]));
        }
    }
    lemma_update_unique_by(s, i, x, key);
}

} // verus!

verus! {

/// Links stay sound where only rows change, and each row at an old position
/// keeps its id and its project.
pub proof fn lemma_links_ok_rows(m: StoreModel, m2: StoreModel)
    requires
        links_ok(m),
        m2.links == m.links,
        m.testimonials.len() <= m2.testimonials.len(),
        forall|i: int|
            0 <= i < m.testimonials.len() ==> (#[trigger] m2.testimonials[i]).id == m.testimonials[i].id
                && m2.testimonials[i].project_id == m.testimonials[i].project_id,
        m.tags.len() <= m2.tags.len(),
        forall|i: int|
            0 <= i < m.tags.len() ==> (#[trigger] m2.tags[i]).id == m.tags[i].id
                && m2.tags[i].project_id == m.tags[i].project_id,
    ensures
        links_ok(m2),
{
    assert forall|k: int| 0 <= k < m2.links.len() implies link_ok(m2, #[trigger] m2.links[k]) by {
        let l = m.links[k];
        assert(link_ok(m, l));
        let p = choose|p: u64|
            testimonial_in(m.testimonials, l.testimonial_id, p) && tag_in(m.tags, l.tag_id, p);
        let i = choose|i: int|
            0 <= i < m.testimonials.len() && (#[trigger] m.testimonials[i]).id == l.testimonial_id
                && m.testimonials[i].project_id == p;
        let j = choose|j: int|
            0 <= j < m.tags.len() && (#[trigger] m.tags[j]).id == l.tag_id && m.tags[j].project_id == p;
        assert(m2.testimonials[i].id == l.testimonial_id);
        assert(m2.tags[j].id == l.tag_id);
        assert(testimonial_in(m2.testimonials, l.testimonial_id, p));
        assert(tag_in(m2.tags, l.tag_id, p));
    }
}

pub proof fn lemma_filter_all_pass<A>(s: Seq<A>, p: spec_fn(A) -> bool)
    requires
        forall|i: int| 0 <= i < s.len() ==> p(#[trigger] s[i]),
    ensures
        s.filter(p) == s,
    decreases s.len(),
{
    reveal(Seq::filter);
    if s.len() > 0 {
        lemma_filter_all_pass(s.drop_last(), p);
        assert(s.drop_last().push(s.last()) == s);
    }
}

/// An entry of `s` that passes `p` has a position in `s.filter(p)`.
pub proof fn lemma_filter_keeps<A>(s: Seq<A>, p: spec_fn(A) -> bool, i: int) -> (k: int)
    requires
        0 <= i < s.len(),
        p(s[i]),
    ensures
        0 <= k < s.filter(p).len(),
        s.filter(p)[k] == s[i],
{
    s.lemma_filter_contains(p, i);
    choose|k: int| 0 <= k < s.filter(p).len() && s.filter(p)[k] == s[i]
}

/// An entry of `s.filter(p)` is an entry of `s` that passes `p`.
pub proof fn lemma_filter_came_from<A>(s: Seq<A>, p: spec_fn(A) -> bool, k: int)
    requires
        0 <= k < s.filter(p).len(),
    ensures
        s.contains(s.filter(p)[k]),
        p(s.filter(p)[k]),
{
    s.lemma_filter_pred(p, k);
    assert(s.filter(p).contains(s.filter(p)[k]));
    s.lemma_filter_contains_rev(p, s.filter(p)[k]);
}

pub proof fn lemma_filter_none_pass<A>(s: Seq<A>, p: spec_fn(A) -> bool)
    requires
        forall|i: int| 0 <= i < s.len() ==> !p(#[trigger] s[i]),
    ensures
        s.filter(p).len() == 0,
    decreases s.len(),
{
    reveal(Seq::filter);
    if s.len() > 0 {
        lemma_filter_none_pass(s.drop_last(), p);
    }
}

} // verus!
