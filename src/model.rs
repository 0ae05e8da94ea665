//! The rows of each relation, the store, and its well-formedness.

use vstd::prelude::*;

verus! {

/// A registered account.
#[derive(Debug)]
pub struct User {
    pub id: u64,
    pub pid: u128,
    pub email: String,
    pub password_hash: Option<String>,
    pub name: Option<String>,
    pub avatar_url: Option<String>,
}

/// A tenant: the unit of ownership under a user.
#[derive(Debug)]
pub struct Project {
    pub id: u64,
    pub pid: u128,
    pub user_id: u64,
    pub name: String,
    pub slug: String,
    pub logo_url: Option<String>,
    pub website_url: Option<String>,
    pub created_at: u64,
    pub updated_at: u64,
}

/// The payload of a testimonial that the rules never look into. A sentiment
/// score is held as the bit pattern of its 32-bit float.
#[derive(Debug)]
pub struct TestimonialDetails {
    pub content: Option<String>,
    pub rating: Option<i16>,
    pub author_email: Option<String>,
    pub author_title: Option<String>,
    pub author_avatar_url: Option<String>,
    pub author_company: Option<String>,
    pub author_url: Option<String>,
    pub video_url: Option<String>,
    pub video_thumbnail_url: Option<String>,
    pub video_duration_seconds: Option<i32>,
    pub transcription: Option<String>,
    pub source: Option<String>,
    pub source_platform: Option<String>,
    pub source_url: Option<String>,
    pub source_id: Option<String>,
    pub sentiment: Option<String>,
    pub sentiment_score_bits: Option<u32>,
    pub language: Option<String>,
}

/// A testimonial collected within a project.
#[derive(Debug)]
pub struct Testimonial {
    pub id: u64,
    pub pid: u128,
    pub project_id: u64,
    pub testimonial_type: String,
    pub author_name: String,
    pub details: TestimonialDetails,
    pub is_approved: bool,
    pub is_featured: bool,
    pub created_at: u64,
    pub updated_at: u64,
}

/// A label, unique by name within its project.
#[derive(Debug)]
pub struct Tag {
    pub id: u64,
    pub pid: u128,
    pub project_id: u64,
    pub name: String,
    pub color: Option<String>,
}

/// The association of a testimonial with a tag.
#[derive(Clone, Copy, Debug, PartialEq, Eq, Structural)]
pub struct TagLink {
    pub testimonial_id: u64,
    pub tag_id: u64,
}

/// The relations that the service keeps, and the next internal id to hand
/// out.
#[derive(Debug)]
pub struct Store {
    pub users: Vec<User>,
    pub projects: Vec<Project>,
    pub testimonials: Vec<Testimonial>,
    pub tags: Vec<Tag>,
    pub links: Vec<TagLink>,
    pub next_id: u64,
}

/// The contents of a `Store`.
pub struct StoreModel {
    pub users: Seq<User>,
    pub projects: Seq<Project>,
    pub testimonials: Seq<Testimonial>,
    pub tags: Seq<Tag>,
    pub links: Seq<TagLink>,
    pub next_id: u64,
}

impl View for Store {
    type V = StoreModel;

    open spec fn view(&self) -> StoreModel {
        StoreModel {
            users: self.users@,
            projects: self.projects@,
            testimonials: self.testimonials@,
            tags: self.tags@,
            links: self.links@,
            next_id: self.next_id,
        }
    }
}

/// No two entries of `s` share a key.
pub open spec fn unique_by<A, K>(s: Seq<A>, key: spec_fn(A) -> K) -> bool {
    forall|i: int, j: int|
        0 <= i < s.len() && 0 <= j < s.len() && #[trigger] key(s[i]) == #[trigger] key(s[j])
            ==> i == j
}

/// Every key of `s` lies below `bound`.
pub open spec fn all_below<A>(s: Seq<A>, key: spec_fn(A) -> u64, bound: u64) -> bool {
    forall|i: int| 0 <= i < s.len() ==> #[trigger] key(s[i]) < bound
}

pub open spec fn user_id() -> spec_fn(User) -> u64 {
    |u: User| u.id
}

pub open spec fn user_pid() -> spec_fn(User) -> u128 {
    |u: User| u.pid
}

pub open spec fn project_pid() -> spec_fn(Project) -> u128 {
    |p: Project| p.pid
}

pub open spec fn testimonial_pid() -> spec_fn(Testimonial) -> u128 {
    |t: Testimonial| t.pid
}

pub open spec fn tag_pid() -> spec_fn(Tag) -> u128 {
    |t: Tag| t.pid
}

pub open spec fn user_email() -> spec_fn(User) -> Seq<char> {
    |u: User| u.email@
}

pub open spec fn project_id() -> spec_fn(Project) -> u64 {
    |p: Project| p.id
}

pub open spec fn project_slug() -> spec_fn(Project) -> Seq<char> {
    |p: Project| p.slug@
}

pub open spec fn testimonial_id() -> spec_fn(Testimonial) -> u64 {
    |t: Testimonial| t.id
}

pub open spec fn tag_id() -> spec_fn(Tag) -> u64 {
    |t: Tag| t.id
}

pub open spec fn tag_scoped_name() -> spec_fn(Tag) -> (u64, Seq<char>) {
    |t: Tag| (t.project_id, t.name@)
}

/// Some testimonial of project `project` has internal id `id`.
pub open spec fn testimonial_in(ts: Seq<Testimonial>, id: u64, project: u64) -> bool {
    exists|k: int| 0 <= k < ts.len() && (#[trigger] ts[k]).id == id && ts[k].project_id == project
}

/// Some tag of project `project` has internal id `id`.
pub open spec fn tag_in(ts: Seq<Tag>, id: u64, project: u64) -> bool {
    exists|k: int| 0 <= k < ts.len() && (#[trigger] ts[k]).id == id && ts[k].project_id == project
}

/// A link joins an existing testimonial to an existing tag of the same
/// project.
pub open spec fn link_ok(m: StoreModel, l: TagLink) -> bool {
    exists|p: u64| testimonial_in(m.testimonials, l.testimonial_id, p) && tag_in(m.tags, l.tag_id, p)
}

pub open spec fn links_ok(m: StoreModel) -> bool {
    forall|k: int| 0 <= k < m.links.len() ==> link_ok(m, #[trigger] m.links[k])
}

impl StoreModel {
    /// Internal ids and external identifiers are unique in each relation, and
    /// internal ids lie below the next id to hand out; emails are unique, slugs are unique over all projects, and
    /// a tag's name is unique within its project; every link joins a
    /// testimonial and a tag of one project.
    pub open spec fn wf(self) -> bool {
        &&& unique_by(self.users, user_id())
        &&& all_below(self.users, user_id(), self.next_id)
        &&& unique_by(self.users, user_pid())
        &&& unique_by(self.users, user_email())
        &&& unique_by(self.projects, project_id())
        &&& all_below(self.projects, project_id(), self.next_id)
        &&& unique_by(self.projects, project_pid())
        &&& unique_by(self.projects, project_slug())
        &&& unique_by(self.testimonials, testimonial_id())
        &&& all_below(self.testimonials, testimonial_id(), self.next_id)
        &&& unique_by(self.testimonials, testimonial_pid())
        &&& unique_by(self.tags, tag_id())
        &&& all_below(self.tags, tag_id(), self.next_id)
        &&& unique_by(self.tags, tag_pid())
        &&& unique_by(self.tags, tag_scoped_name())
        &&& links_ok(self)
    }
}

impl Store {
    /// An empty store.
    pub fn new() -> (r: Store)
        ensures
            r@.wf(),
            r@.users.len() == 0,
            r@.projects.len() == 0,
            r@.testimonials.len() == 0,
            r@.tags.len() == 0,
            r@.links.len() == 0,
            r@.next_id == 1,
    {
        Store {
            users: Vec::new(),
            projects: Vec::new(),
            testimonials: Vec::new(),
            tags: Vec::new(),
            links: Vec::new(),
            next_id: 1,
        }
    }
}

} // verus!

verus! {

pub fn copy_text(o: &Option<String>) -> (r: Option<String>)
    ensures
        r == *o,
{
    match o {
        Some(s) => Some(s.clone()),
        None => None,
    }
}

impl User {
    pub fn copy(&self) -> (r: User)
        ensures
            r == *self,
    {
        User {
            id: self.id,
            pid: self.pid,
            email: self.email.clone(),
            password_hash: copy_text(&self.password_hash),
            name: copy_text(&self.name),
            avatar_url: copy_text(&self.avatar_url),
        }
    }
}

impl Project {
    pub fn copy(&self) -> (r: Project)
        ensures
            r == *self,
    {
        Project {
            id: self.id,
            pid: self.pid,
            user_id: self.user_id,
            name: self.name.clone(),
            slug: self.slug.clone(),
            logo_url: copy_text(&self.logo_url),
            website_url: copy_text(&self.website_url),
            created_at: self.created_at,
            updated_at: self.updated_at,
        }
    }
}

impl TestimonialDetails {
    pub fn copy(&self) -> (r: TestimonialDetails)
        ensures
            r == *self,
    {
        TestimonialDetails {
            content: copy_text(&self.content),
            rating: self.rating,
            author_email: copy_text(&self.author_email),
            author_title: copy_text(&self.author_title),
            author_avatar_url: copy_text(&self.author_avatar_url),
            author_company: copy_text(&self.author_company),
            author_url: copy_text(&self.author_url),
            video_url: copy_text(&self.video_url),
            video_thumbnail_url: copy_text(&self.video_thumbnail_url),
            video_duration_seconds: self.video_duration_seconds,
            transcription: copy_text(&self.transcription),
            source: copy_text(&self.source),
            source_platform: copy_text(&self.source_platform),
            source_url: copy_text(&self.source_url),
            source_id: copy_text(&self.source_id),
            sentiment: copy_text(&self.sentiment),
            sentiment_score_bits: self.sentiment_score_bits,
            language: copy_text(&self.language),
        }
    }
}

impl Testimonial {
    pub fn copy(&self) -> (r: Testimonial)
        ensures
            r == *self,
    {
        Testimonial {
            id: self.id,
            pid: self.pid,
            project_id: self.project_id,
            testimonial_type: self.testimonial_type.clone(),
            author_name: self.author_name.clone(),
            details: self.details.copy(),
            is_approved: self.is_approved,
            is_featured: self.is_featured,
            created_at: self.created_at,
            updated_at: self.updated_at,
        }
    }
}

impl Tag {
    pub fn copy(&self) -> (r: Tag)
        ensures
            r == *self,
    {
        Tag {
            id: self.id,
            pid: self.pid,
            project_id: self.project_id,
            name: self.name.clone(),
            color: copy_text(&self.color),
        }
    }
}

} // verus!

verus! {

impl Default for TestimonialDetails {
    /// A payload with every field absent.
    fn default() -> (r: TestimonialDetails)
        ensures
            r.content is None && r.rating is None && r.author_email is None && r.author_title is None
                && r.author_avatar_url is None && r.author_company is None && r.author_url is None
                && r.video_url is None && r.video_thumbnail_url is None
                && r.video_duration_seconds is None && r.transcription is None && r.source is None
                && r.source_platform is None && r.source_url is None && r.source_id is None
                && r.sentiment is None && r.sentiment_score_bits is None && r.language is None,
    {
        TestimonialDetails {
            content: None,
            rating: None,
            author_email: None,
            author_title: None,
            author_avatar_url: None,
            author_company: None,
            author_url: None,
            video_url: None,
            video_thumbnail_url: None,
            video_duration_seconds: None,
            transcription: None,
            source: None,
            source_platform: None,
            source_url: None,
            source_id: None,
            sentiment: None,
            sentiment_score_bits: None,
            language: None,
        }
    }
}

} // verus!
