//! The outcome classes of a request, and each domain's errors mapped onto
//! them.

use vstd::prelude::*;

verus! {

/// The outcome classes that every request can end in.
#[derive(Clone, Copy, Debug, PartialEq, Eq, Structural)]
pub enum ApiError {
    /// Missing, invalid or expired credential, or one naming no account.
    Unauthenticated,
    /// An identifier that does not resolve.
    NotFound,
    /// The entity exists but the caller does not own its chain.
    Forbidden,
    /// A uniqueness rule would be broken.
    Conflict,
    /// An unexpected failure of the store or of a collaborator.
    Internal,
}

pub open spec fn status_of(e: ApiError) -> u16 {
    match e {
        ApiError::Unauthenticated => 401,
        ApiError::NotFound => 404,
        ApiError::Forbidden => 403,
        ApiError::Conflict => 409,
        ApiError::Internal => 500,
    }
}

impl ApiError {
    /// The HTTP status that this outcome is reported with.
    pub fn status(&self) -> (r: u16)
        ensures
            r == status_of(*self),
    {
        match self {
            ApiError::Unauthenticated => 401,
            ApiError::NotFound => 404,
            ApiError::Forbidden => 403,
            ApiError::Conflict => 409,
            ApiError::Internal => 500,
        }
    }
}

/// What a project request can fail with.
#[derive(Clone, Copy, Debug, PartialEq, Eq, Structural)]
pub enum ProjectError {
    Internal,
    NotFound,
    Forbidden,
    SlugTaken,
}

pub open spec fn projecterror_kind(e: ProjectError) -> ApiError {
    match e {
        ProjectError::Internal => ApiError::Internal,
        ProjectError::NotFound => ApiError::NotFound,
        ProjectError::Forbidden => ApiError::Forbidden,
        ProjectError::SlugTaken => ApiError::Conflict,
    }
}

impl ProjectError {
    /// The outcome class that this error is reported as.
    pub fn into_api_error(self) -> (r: ApiError)
        ensures
            r == projecterror_kind(self),
    {
        match self {
            ProjectError::Internal => ApiError::Internal,
            ProjectError::NotFound => ApiError::NotFound,
            ProjectError::Forbidden => ApiError::Forbidden,
            ProjectError::SlugTaken => ApiError::Conflict,
        }
    }

    /// The text shown to the client; a store failure shows no detail.
    pub fn message(&self) -> (r: &'static str)
        ensures
            *self == ProjectError::Internal ==> r@ == "internal server error"@,
            *self == ProjectError::NotFound ==> r@ == "project not found"@,
            *self == ProjectError::Forbidden ==> r@ == "you do not own this project"@,
            *self == ProjectError::SlugTaken ==> r@ == "slug already taken"@,
    {
        match self {
            ProjectError::Internal => "internal server error",
            ProjectError::NotFound => "project not found",
            ProjectError::Forbidden => "you do not own this project",
            ProjectError::SlugTaken => "slug already taken",
        }
    }
}

/// What a tag request can fail with.
#[derive(Clone, Copy, Debug, PartialEq, Eq, Structural)]
pub enum TagError {
    Internal,
    NotFound,
    Forbidden,
    NameTaken,
}

pub open spec fn tagerror_kind(e: TagError) -> ApiError {
    match e {
        TagError::Internal => ApiError::Internal,
        TagError::NotFound => ApiError::NotFound,
        TagError::Forbidden => ApiError::Forbidden,
        TagError::NameTaken => ApiError::Conflict,
    }
}

impl TagError {
    /// The outcome class that this error is reported as.
    pub fn into_api_error(self) -> (r: ApiError)
        ensures
            r == tagerror_kind(self),
    {
        match self {
            TagError::Internal => ApiError::Internal,
            TagError::NotFound => ApiError::NotFound,
            TagError::Forbidden => ApiError::Forbidden,
            TagError::NameTaken => ApiError::Conflict,
        }
    }

    /// The text shown to the client; a store failure shows no detail.
    pub fn message(&self) -> (r: &'static str)
        ensures
            *self == TagError::Internal ==> r@ == "internal server error"@,
            *self == TagError::NotFound ==> r@ == "tag not found"@,
            *self == TagError::Forbidden ==> r@ == "you do not own this project"@,
            *self == TagError::NameTaken ==> r@ == "a tag with this name already exists in this project"@,
    {
        match self {
            TagError::Internal => "internal server error",
            TagError::NotFound => "tag not found",
            TagError::Forbidden => "you do not own this project",
            TagError::NameTaken => "a tag with this name already exists in this project",
        }
    }
}

/// What a testimonial request can fail with.
#[derive(Clone, Copy, Debug, PartialEq, Eq, Structural)]
pub enum TestimonialError {
    Internal,
    NotFound,
    Forbidden,
}

pub open spec fn testimonialerror_kind(e: TestimonialError) -> ApiError {
    match e {
        TestimonialError::Internal => ApiError::Internal,
        TestimonialError::NotFound => ApiError::NotFound,
        TestimonialError::Forbidden => ApiError::Forbidden,
    }
}

impl TestimonialError {
    /// The outcome class that this error is reported as.
    pub fn into_api_error(self) -> (r: ApiError)
        ensures
            r == testimonialerror_kind(self),
    {
        match self {
            TestimonialError::Internal => ApiError::Internal,
            TestimonialError::NotFound => ApiError::NotFound,
            TestimonialError::Forbidden => ApiError::Forbidden,
        }
    }

    /// The text shown to the client; a store failure shows no detail.
    pub fn message(&self) -> (r: &'static str)
        ensures
            *self == TestimonialError::Internal ==> r@ == "internal server error"@,
            *self == TestimonialError::NotFound ==> r@ == "testimonial not found"@,
            *self == TestimonialError::Forbidden ==> r@ == "you do not own this project"@,
    {
        match self {
            TestimonialError::Internal => "internal server error",
            TestimonialError::NotFound => "testimonial not found",
            TestimonialError::Forbidden => "you do not own this project",
        }
    }
}

/// What a registration or a login can fail with.
#[derive(Clone, Copy, Debug, PartialEq, Eq, Structural)]
pub enum AuthError {
    Internal,
    InvalidCredentials,
    EmailTaken,
    HashError,
}

pub open spec fn autherror_kind(e: AuthError) -> ApiError {
    match e {
        AuthError::Internal => ApiError::Internal,
        AuthError::InvalidCredentials => ApiError::Unauthenticated,
        AuthError::EmailTaken => ApiError::Conflict,
        AuthError::HashError => ApiError::Internal,
    }
}

impl AuthError {
    /// The outcome class that this error is reported as.
    pub fn into_api_error(self) -> (r: ApiError)
        ensures
            r == autherror_kind(self),
    {
        match self {
            AuthError::Internal => ApiError::Internal,
            AuthError::InvalidCredentials => ApiError::Unauthenticated,
            AuthError::EmailTaken => ApiError::Conflict,
            AuthError::HashError => ApiError::Internal,
        }
    }

    /// The text shown to the client; a store failure shows no detail.
    pub fn message(&self) -> (r: &'static str)
        ensures
            *self == AuthError::Internal ==> r@ == "internal server error"@,
            *self == AuthError::InvalidCredentials ==> r@ == "invalid credentials"@,
            *self == AuthError::EmailTaken ==> r@ == "email already registered"@,
            *self == AuthError::HashError ==> r@ == "internal server error"@,
    {
        match self {
            AuthError::Internal => "internal server error",
            AuthError::InvalidCredentials => "invalid credentials",
            AuthError::EmailTaken => "email already registered",
            AuthError::HashError => "internal server error",
        }
    }
}

/// One failure that a family of requests documents: its status, a
/// machine-readable code and a description.
#[derive(Debug)]
pub struct ErrorVariant {
    pub status: u16,
    pub code: &'static str,
    pub description: &'static str,
}

/// `v` documents status `status` under code `code` with `description`.
pub open spec fn documents(v: ErrorVariant, status: u16, code: Seq<char>, description: Seq<char>) -> bool {
    v.status == status && v.code@ == code && v.description@ == description
}

fn variant(status: u16, code: &'static str, description: &'static str) -> (r: ErrorVariant)
    ensures
        documents(r, status, code@, description@),
{
    ErrorVariant { status, code, description }
}

impl ProjectError {
    /// The failures that project requests document.
    pub fn error_variants() -> (r: Vec<ErrorVariant>)
        ensures
            r@.len() == 4,
            documents(r@[0], 404, "NOT_FOUND"@, "Project not found"@),
            documents(r@[1], 403, "FORBIDDEN"@, "User does not own this project"@),
            documents(r@[2], 409, "CONFLICT"@, "Slug already taken"@),
            documents(r@[3], 500, "INTERNAL_ERROR"@, "Internal server error"@),
    {
        let mut r: Vec<ErrorVariant> = Vec::new();
        r.push(variant(404, "NOT_FOUND", "Project not found"));
        r.push(variant(403, "FORBIDDEN", "User does not own this project"));
        r.push(variant(409, "CONFLICT", "Slug already taken"));
        r.push(variant(500, "INTERNAL_ERROR", "Internal server error"));
        r
    }
}

impl TagError {
    /// The failures that tag requests document.
    pub fn error_variants() -> (r: Vec<ErrorVariant>)
        ensures
            r@.len() == 4,
            documents(r@[0], 404, "NOT_FOUND"@, "Tag not found"@),
            documents(r@[1], 403, "FORBIDDEN"@, "User does not own this project"@),
            documents(r@[2], 409, "CONFLICT"@, "Tag name already exists in this project"@),
            documents(r@[3], 500, "INTERNAL_ERROR"@, "Internal server error"@),
    {
        let mut r: Vec<ErrorVariant> = Vec::new();
        r.push(variant(404, "NOT_FOUND", "Tag not found"));
        r.push(variant(403, "FORBIDDEN", "User does not own this project"));
        r.push(variant(409, "CONFLICT", "Tag name already exists in this project"));
        r.push(variant(500, "INTERNAL_ERROR", "Internal server error"));
        r
    }
}

impl TestimonialError {
    /// The failures that testimonial requests document.
    pub fn error_variants() -> (r: Vec<ErrorVariant>)
        ensures
            r@.len() == 3,
            documents(r@[0], 404, "NOT_FOUND"@, "Testimonial not found"@),
            documents(r@[1], 403, "FORBIDDEN"@, "User does not own this project"@),
            documents(r@[2], 500, "INTERNAL_ERROR"@, "Internal server error"@),
    {
        let mut r: Vec<ErrorVariant> = Vec::new();
        r.push(variant(404, "NOT_FOUND", "Testimonial not found"));
        r.push(variant(403, "FORBIDDEN", "User does not own this project"));
        r.push(variant(500, "INTERNAL_ERROR", "Internal server error"));
        r
    }
}

impl AuthError {
    /// The failures that registration and login document.
    pub fn error_variants() -> (r: Vec<ErrorVariant>)
        ensures
            r@.len() == 3,
            documents(r@[0], 401, "UNAUTHORIZED"@, "Invalid email or password"@),
            documents(r@[1], 409, "CONFLICT"@, "Email already registered"@),
            documents(r@[2], 500, "INTERNAL_ERROR"@, "Internal server error"@),
    {
        let mut r: Vec<ErrorVariant> = Vec::new();
        r.push(variant(401, "UNAUTHORIZED", "Invalid email or password"));
        r.push(variant(409, "CONFLICT", "Email already registered"));
        r.push(variant(500, "INTERNAL_ERROR", "Internal server error"));
        r
    }
}

} // verus!
