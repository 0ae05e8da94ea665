//! Lookups: the first row that matches, as a store answers a query for one.

use vstd::prelude::*;

use crate::model::{Project, Tag, Testimonial, User};

verus! {

broadcast use vstd::seq_lib::group_seq_properties;

/// `i` is the first position of `s` whose entry satisfies `p`.
pub open spec fn is_first<A>(s: Seq<A>, p: spec_fn(A) -> bool, i: int) -> bool {
    0 <= i < s.len() && p(s[i]) && forall|j: int| 0 <= j < i ==> !p(#[trigger] s[j])
}

/// The first position of `s` whose entry satisfies `p`, as a lookup of a
/// store answers with one row.
pub open spec fn first_index<A>(s: Seq<A>, p: spec_fn(A) -> bool) -> Option<int> {
    if exists|i: int| is_first(s, p, i) {
        Some(choose|i: int| is_first(s, p, i))
    } else {
        None
    }
}

pub proof fn lemma_first_index<A>(s: Seq<A>, p: spec_fn(A) -> bool, i: int)
    requires
        0 <= i <= s.len(),
        forall|j: int| 0 <= j < i ==> !p(#[trigger] s[j]),
        i < s.len() ==> p(s[i]),
    ensures
        first_index(s, p) == (if i < s.len() {
            Some(i)
        } else {
            None::<int>
        }),
{
    if i < s.len() {
        assert(is_first(s, p, i));
        let k = choose|k: int| is_first(s, p, k);
        assert(is_first(s, p, k));
        if k < i {
            assert(!p(s[k]));
        }
        if i < k {
            assert(!p(s[i]));
        }
    } else {
        if exists|k: int| is_first(s, p, k) {
            let k = choose|k: int| is_first(s, p, k);
            assert(!p(s[k]));
        }
    }
}

/// The position that `first_index` gives is the first to satisfy `p`.
pub proof fn lemma_first_index_some<A>(s: Seq<A>, p: spec_fn(A) -> bool)
    ensures
        first_index(s, p) matches Some(i) ==> is_first(s, p, i),
{
}

/// Where no entry is first to satisfy `p`, none satisfies it.
pub proof fn lemma_first_index_none<A>(s: Seq<A>, p: spec_fn(A) -> bool, i: int)
    requires
        0 <= i < s.len(),
        p(s[i]),
    ensures
        first_index(s, p) is Some,
    decreases i,
{
    if exists|j: int| 0 <= j < i && p(#[trigger] s[j]) {
        let j = choose|j: int| 0 <= j < i && p(#[trigger] s[j]);
        lemma_first_index_none(s, p, j);
    } else {
        assert(is_first(s, p, i));
    }
}

/// Where there is no first entry to satisfy `p`, no entry satisfies it.
pub proof fn lemma_first_index_absent<A>(s: Seq<A>, p: spec_fn(A) -> bool)
    requires
        first_index(s, p) is None,
    ensures
        forall|i: int| 0 <= i < s.len() ==> !p(#[trigger] s[i]),
{
    assert forall|i: int| 0 <= i < s.len() implies !p(#[trigger] s[i]) by {
        if p(s[i]) {
            lemma_first_index_none(s, p, i);
        }
    }
}

pub open spec fn user_has_pid(pid: u128) -> spec_fn(User) -> bool {
    |u: User| u.pid == pid
}

pub open spec fn user_has_email(email: Seq<char>) -> spec_fn(User) -> bool {
    |u: User| u.email@ == email
}

pub open spec fn project_has_pid(pid: u128) -> spec_fn(Project) -> bool {
    |p: Project| p.pid == pid
}

pub open spec fn project_has_id(id: u64) -> spec_fn(Project) -> bool {
    |p: Project| p.id == id
}

pub open spec fn testimonial_has_pid(pid: u128) -> spec_fn(Testimonial) -> bool {
    |t: Testimonial| t.pid == pid
}

pub open spec fn tag_has_pid(pid: u128) -> spec_fn(Tag) -> bool {
    |t: Tag| t.pid == pid
}

pub fn find_user_by_pid(v: &Vec<User>, pid: u128) -> (r: Option<usize>)
    ensures
        r matches Some(i) ==> first_index(v@, user_has_pid(pid)) == Some(i as int),
        r is None ==> first_index(v@, user_has_pid(pid)) is None,
{
    let mut i: usize = 0;
    while i < v.len()
        invariant
            i <= v@.len(),
            forall|j: int| 0 <= j < i ==> !user_has_pid(pid)(#[trigger] v@[j]),
        decreases v.len() - i,
    {
        if v[i].pid == pid {
            proof { lemma_first_index(v@, user_has_pid(pid), i as int); }
            return Some(i);
        }
        i += 1;
    }
    proof { lemma_first_index(v@, user_has_pid(pid), i as int); }
    None
}

pub fn find_user_by_email(v: &Vec<User>, email: &String) -> (r: Option<usize>)
    ensures
        r matches Some(i) ==> first_index(v@, user_has_email(email@)) == Some(i as int),
        r is None ==> first_index(v@, user_has_email(email@)) is None,
{
    let mut i: usize = 0;
    while i < v.len()
        invariant
            i <= v@.len(),
            forall|j: int| 0 <= j < i ==> !user_has_email(email@)(#[trigger] v@[j]),
        decreases v.len() - i,
    {
        if v[i].email == *email {
            proof { lemma_first_index(v@, user_has_email(email@), i as int); }
            return Some(i);
        }
        i += 1;
    }
    proof { lemma_first_index(v@, user_has_email(email@), i as int); }
    None
}

pub fn find_project_by_pid(v: &Vec<Project>, pid: u128) -> (r: Option<usize>)
    ensures
        r matches Some(i) ==> first_index(v@, project_has_pid(pid)) == Some(i as int),
        r is None ==> first_index(v@, project_has_pid(pid)) is None,
{
    let mut i: usize = 0;
    while i < v.len()
        invariant
            i <= v@.len(),
            forall|j: int| 0 <= j < i ==> !project_has_pid(pid)(#[trigger] v@[j]),
        decreases v.len() - i,
    {
        if v[i].pid == pid {
            proof { lemma_first_index(v@, project_has_pid(pid), i as int); }
            return Some(i);
        }
        i += 1;
    }
    proof { lemma_first_index(v@, project_has_pid(pid), i as int); }
    None
}

pub fn find_project_by_id(v: &Vec<Project>, id: u64) -> (r: Option<usize>)
    ensures
        r matches Some(i) ==> first_index(v@, project_has_id(id)) == Some(i as int),
        r is None ==> first_index(v@, project_has_id(id)) is None,
{
    let mut i: usize = 0;
    while i < v.len()
        invariant
            i <= v@.len(),
            forall|j: int| 0 <= j < i ==> !project_has_id(id)(#[trigger] v@[j]),
        decreases v.len() - i,
    {
        if v[i].id == id {
            proof { lemma_first_index(v@, project_has_id(id), i as int); }
            return Some(i);
        }
        i += 1;
    }
    proof { lemma_first_index(v@, project_has_id(id), i as int); }
    None
}

pub fn find_testimonial_by_pid(v: &Vec<Testimonial>, pid: u128) -> (r: Option<usize>)
    ensures
        r matches Some(i) ==> first_index(v@, testimonial_has_pid(pid)) == Some(i as int),
        r is None ==> first_index(v@, testimonial_has_pid(pid)) is None,
{
    let mut i: usize = 0;
    while i < v.len()
        invariant
            i <= v@.len(),
            forall|j: int| 0 <= j < i ==> !testimonial_has_pid(pid)(#[trigger] v@[j]),
        decreases v.len() - i,
    {
        if v[i].pid == pid {
            proof { lemma_first_index(v@, testimonial_has_pid(pid), i as int); }
            return Some(i);
        }
        i += 1;
    }
    proof { lemma_first_index(v@, testimonial_has_pid(pid), i as int); }
    None
}

pub fn find_tag_by_pid(v: &Vec<Tag>, pid: u128) -> (r: Option<usize>)
    ensures
        r matches Some(i) ==> first_index(v@, tag_has_pid(pid)) == Some(i as int),
        r is None ==> first_index(v@, tag_has_pid(pid)) is None,
{
    let mut i: usize = 0;
    while i < v.len()
        invariant
            i <= v@.len(),
            forall|j: int| 0 <= j < i ==> !tag_has_pid(pid)(#[trigger] v@[j]),
        decreases v.len() - i,
    {
        if v[i].pid == pid {
            proof { lemma_first_index(v@, tag_has_pid(pid), i as int); }
            return Some(i);
        }
        i += 1;
    }
    proof { lemma_first_index(v@, tag_has_pid(pid), i as int); }
    None
}

} // verus!
