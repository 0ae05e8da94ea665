use reeverb::auth::{register_with, RegisterRequest};
use reeverb::error::{ApiError, ProjectError};
use reeverb::model::{Store, TestimonialDetails};
use reeverb::projects::{
    create_project, create_project_with_pid, delete_project, get_project, list_projects,
    update_project, CreateProjectRequest, UpdateProjectRequest,
};
use reeverb::tags::{create_tag, list_tags, CreateTagRequest};
use reeverb::testimonials::{create_testimonial, get_testimonial, CreateTestimonialRequest};
use uuid::Uuid;

const NOW: u64 = 1_771_400_000;

fn register_and_get_subject(db: &mut Store) -> String {
    let req = RegisterRequest {
        email: format!("test-{}@example.com", Uuid::new_v4()),
        password: "password123".to_string(),
        name: Some("Test User".to_string()),
    };
    register_with(db, req, Uuid::new_v4().as_u128(), "hash".to_string(), "token".to_string(), 3600)
        .unwrap()
        .user
        .id
}

fn unique_slug() -> String {
    format!("project-{}", Uuid::new_v4())
}

fn new_project(name: &str, slug: &str) -> CreateProjectRequest {
    CreateProjectRequest { name: name.to_string(), slug: slug.to_string(), logo_url: None, website_url: None }
}

fn no_change() -> UpdateProjectRequest {
    UpdateProjectRequest { name: None, slug: None, logo_url: None, website_url: None }
}

#[test]
fn create_project_returns_201() {
    let mut db = Store::new();
    let token = register_and_get_subject(&mut db);
    let slug = unique_slug();
    let req = CreateProjectRequest {
        name: "My Project".to_string(),
        slug: slug.clone(),
        logo_url: None,
        website_url: Some("https://example.com".to_string()),
    };
    let body = create_project(&mut db, &token, req, NOW).unwrap();
    assert_eq!(body.name, "My Project");
    assert_eq!(body.slug, slug);
    assert_eq!(body.website_url, Some("https://example.com".to_string()));
    assert!(Uuid::parse_str(&body.id).is_ok());
    assert_eq!(body.created_at, NOW);
}

#[test]
fn list_projects_returns_only_own() {
    let mut db = Store::new();
    let token_a = register_and_get_subject(&mut db);
    let token_b = register_and_get_subject(&mut db);
    let slug_a = unique_slug();
    let slug_b = unique_slug();
    create_project(&mut db, &token_a, new_project("Project A", &slug_a), NOW).unwrap();
    create_project(&mut db, &token_b, new_project("Project B", &slug_b), NOW).unwrap();
    let body = list_projects(&db, &token_a).unwrap();
    assert!(body.iter().all(|p| p.slug != slug_b));
    assert!(body.iter().any(|p| p.slug == slug_a));
    assert_eq!(body.len(), 1);
}

#[test]
fn get_project_by_pid() {
    let mut db = Store::new();
    let token = register_and_get_subject(&mut db);
    let created = create_project(&mut db, &token, new_project("Get Test", &unique_slug()), NOW).unwrap();
    let body = get_project(&db, &created.id, &token).unwrap();
    assert_eq!(body.id, created.id);
    assert_eq!(body.name, "Get Test");
}

#[test]
fn update_project_partial() {
    let mut db = Store::new();
    let token = register_and_get_subject(&mut db);
    let slug = unique_slug();
    let created = create_project(&mut db, &token, new_project("Before", &slug), NOW).unwrap();
    let req = UpdateProjectRequest { name: Some("After".to_string()), ..no_change() };
    let body = update_project(&mut db, &created.id, &token, req).unwrap();
    assert_eq!(body.name, "After");
    assert_eq!(body.slug, slug);
}

#[test]
fn delete_project_returns_204() {
    let mut db = Store::new();
    let token = register_and_get_subject(&mut db);
    let created = create_project(&mut db, &token, new_project("To Delete", &unique_slug()), NOW).unwrap();
    assert!(delete_project(&mut db, &created.id, &token).is_ok());
    let res = get_project(&db, &created.id, &token);
    assert!(matches!(res, Err(ApiError::NotFound)));
    assert_eq!(res.unwrap_err().status(), 404);
}

#[test]
fn slug_uniqueness_returns_409() {
    let mut db = Store::new();
    let token = register_and_get_subject(&mut db);
    let slug = unique_slug();
    create_project(&mut db, &token, new_project("First", &slug), NOW).unwrap();
    let res = create_project(&mut db, &token, new_project("Second", &slug), NOW);
    assert!(matches!(res, Err(ApiError::Conflict)));
    assert_eq!(res.unwrap_err().status(), 409);
}

#[test]
fn projects_ownership_enforcement_returns_403() {
    let mut db = Store::new();
    let token_owner = register_and_get_subject(&mut db);
    let token_other = register_and_get_subject(&mut db);
    let created = create_project(&mut db, &token_owner, new_project("Private", &unique_slug()), NOW).unwrap();
    let pid = created.id;

    let res = get_project(&db, &pid, &token_other);
    assert!(matches!(res, Err(ApiError::Forbidden)));
    assert_eq!(res.unwrap_err().status(), 403);

    let req = UpdateProjectRequest { name: Some("Hacked".to_string()), ..no_change() };
    assert!(matches!(update_project(&mut db, &pid, &token_other, req), Err(ApiError::Forbidden)));

    assert!(matches!(delete_project(&mut db, &pid, &token_other), Err(ApiError::Forbidden)));
    assert_eq!(get_project(&db, &pid, &token_owner).unwrap().name, "Private");
}

#[test]
fn projects_without_token_returns_401() {
    let db = Store::new();
    let res = list_projects(&db, "");
    assert!(matches!(res, Err(ApiError::Unauthenticated)));
    assert_eq!(res.unwrap_err().status(), 401);
}

#[test]
fn slug_of_another_tenant_is_taken() {
    let mut db = Store::new();
    let a = register_and_get_subject(&mut db);
    let b = register_and_get_subject(&mut db);
    create_project(&mut db, &a, new_project("A", "shared"), NOW).unwrap();
    let res = create_project(&mut db, &b, new_project("B", "shared"), NOW);
    assert!(matches!(res, Err(ApiError::Conflict)));
    assert_eq!(db.projects.len(), 1);
}

#[test]
fn renaming_to_a_used_slug_conflicts() {
    let mut db = Store::new();
    let a = register_and_get_subject(&mut db);
    let b = register_and_get_subject(&mut db);
    create_project(&mut db, &a, new_project("A", "taken"), NOW).unwrap();
    let mine = create_project(&mut db, &b, new_project("B", "mine"), NOW).unwrap();
    let req = UpdateProjectRequest { slug: Some("taken".to_string()), ..no_change() };
    assert!(matches!(update_project(&mut db, &mine.id, &b, req), Err(ApiError::Conflict)));
    assert_eq!(get_project(&db, &mine.id, &b).unwrap().slug, "mine");
    let same = UpdateProjectRequest { slug: Some("mine".to_string()), ..no_change() };
    assert_eq!(update_project(&mut db, &mine.id, &b, same).unwrap().slug, "mine");
}

#[test]
fn update_sets_urls_and_keeps_times() {
    let mut db = Store::new();
    let a = register_and_get_subject(&mut db);
    let p = create_project(&mut db, &a, new_project("A", "urls"), NOW).unwrap();
    let req = UpdateProjectRequest {
        logo_url: Some("https://example.com/logo.png".to_string()),
        website_url: Some("https://example.com".to_string()),
        ..no_change()
    };
    let body = update_project(&mut db, &p.id, &a, req).unwrap();
    assert_eq!(body.logo_url, Some("https://example.com/logo.png".to_string()));
    assert_eq!(body.website_url, Some("https://example.com".to_string()));
    assert_eq!(body.name, "A");
    assert_eq!(body.created_at, NOW);
    assert_eq!(body.updated_at, NOW);
}

#[test]
fn malformed_or_unknown_project_is_not_found() {
    let mut db = Store::new();
    let a = register_and_get_subject(&mut db);
    assert!(matches!(get_project(&db, "not-a-uuid", &a), Err(ApiError::NotFound)));
    let unknown = Uuid::new_v4().to_string();
    assert!(matches!(get_project(&db, &unknown, &a), Err(ApiError::NotFound)));
    assert!(matches!(get_project(&db, "not-a-uuid", "nobody"), Err(ApiError::Unauthenticated)));
}

#[test]
fn deleting_a_project_removes_what_hangs_on_it() {
    let mut db = Store::new();
    let a = register_and_get_subject(&mut db);
    let p = create_project(&mut db, &a, new_project("A", "cascade"), NOW).unwrap();
    let keep = create_project(&mut db, &a, new_project("B", "keep"), NOW).unwrap();
    let t = create_testimonial(
        &mut db,
        &p.id,
        &a,
        CreateTestimonialRequest { author_name: "X".to_string(), testimonial_type: None, details: TestimonialDetails::default() },
        NOW,
    )
    .unwrap();
    create_tag(&mut db, &p.id, &a, CreateTagRequest { name: "bug".to_string(), color: None }).unwrap();
    create_tag(&mut db, &keep.id, &a, CreateTagRequest { name: "bug".to_string(), color: None }).unwrap();
    delete_project(&mut db, &p.id, &a).unwrap();
    assert!(matches!(get_testimonial(&db, &t.id, &a), Err(ApiError::NotFound)));
    assert_eq!(db.tags.len(), 1);
    assert_eq!(list_tags(&db, &keep.id, &a).unwrap().len(), 1);
    assert_eq!(db.projects.len(), 1);
}

#[test]
fn reused_project_identifier_is_internal() {
    let mut db = Store::new();
    let a = register_and_get_subject(&mut db);
    let pid = Uuid::new_v4().as_u128();
    create_project_with_pid(&mut db, &a, new_project("A", "one"), pid, NOW).unwrap();
    let res = create_project_with_pid(&mut db, &a, new_project("B", "two"), pid, NOW);
    assert!(matches!(res, Err(ApiError::Internal)));
    assert_eq!(res.unwrap_err().status(), 500);
    assert_eq!(db.projects.len(), 1);
}

#[test]
fn project_identifier_is_shown_hyphenated() {
    let mut db = Store::new();
    let a = register_and_get_subject(&mut db);
    let pid = 0x0123456789abcdef0123456789abcdefu128;
    let body = create_project_with_pid(&mut db, &a, new_project("A", "hex"), pid, NOW).unwrap();
    assert_eq!(body.id, "01234567-89ab-cdef-0123-456789abcdef");
    assert_eq!(get_project(&db, "01234567-89ab-cdef-0123-456789abcdef", &a).unwrap().name, "A");
}

#[test]
fn project_errors_map_to_statuses() {
    assert_eq!(ProjectError::NotFound.into_api_error(), ApiError::NotFound);
    assert_eq!(ProjectError::Forbidden.into_api_error().status(), 403);
    assert_eq!(ProjectError::SlugTaken.into_api_error().status(), 409);
    assert_eq!(ProjectError::Internal.into_api_error().status(), 500);
    assert_eq!(ProjectError::SlugTaken.message(), "slug already taken");
    assert_eq!(ProjectError::Internal.message(), "internal server error");
    let table = ProjectError::error_variants();
    let statuses: Vec<u16> = table.iter().map(|v| v.status).collect();
    assert_eq!(statuses, vec![404, 403, 409, 500]);
    assert_eq!(table[2].code, "CONFLICT");
    assert_eq!(table[2].description, "Slug already taken");
}
