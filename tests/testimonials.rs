use reeverb::auth::{register_with, RegisterRequest};
use reeverb::error::{ApiError, TestimonialError};
use reeverb::model::{Store, TestimonialDetails};
use reeverb::projects::{create_project, CreateProjectRequest};
use reeverb::testimonials::{
    approve_testimonial, create_testimonial, create_testimonial_with_pid, delete_testimonial,
    feature_testimonial, get_testimonial, list_testimonials, update_testimonial,
    CreateTestimonialRequest, ListTestimonialsQuery, UpdateTestimonialRequest,
};
use uuid::Uuid;

const NOW: u64 = 1_771_400_000;

fn register_and_get_subject(db: &mut Store) -> String {
    let req = RegisterRequest {
        email: format!("test-{}@example.com", Uuid::new_v4()),
        password: "password123".to_string(),
        name: Some("Test User".to_string()),
    };
    register_with(db, req, Uuid::new_v4().as_u128(), "hash".to_string(), "token".to_string(), 3600)
        .unwrap()
        .user
        .id
}

fn create_project_for(db: &mut Store, token: &str) -> String {
    let req = CreateProjectRequest {
        name: "Test Project".to_string(),
        slug: format!("project-{}", Uuid::new_v4()),
        logo_url: None,
        website_url: None,
    };
    create_project(db, token, req, NOW).unwrap().id
}

fn jane() -> CreateTestimonialRequest {
    let details = TestimonialDetails {
        content: Some("Great product!".to_string()),
        rating: Some(5),
        author_email: Some("jane@example.com".to_string()),
        ..TestimonialDetails::default()
    };
    CreateTestimonialRequest { author_name: "Jane Doe".to_string(), testimonial_type: None, details }
}

fn create_test_testimonial(db: &mut Store, token: &str, project_pid: &str) -> String {
    create_testimonial(db, project_pid, token, jane(), NOW).unwrap().id
}

fn no_change() -> UpdateTestimonialRequest {
    UpdateTestimonialRequest {
        testimonial_type: None,
        author_name: None,
        details: TestimonialDetails::default(),
        is_approved: None,
        is_featured: None,
    }
}

fn all() -> ListTestimonialsQuery {
    ListTestimonialsQuery { is_approved: None, is_featured: None }
}

#[test]
fn create_testimonial_returns_201() {
    let mut db = Store::new();
    let token = register_and_get_subject(&mut db);
    let project_pid = create_project_for(&mut db, &token);
    let details = TestimonialDetails {
        content: Some("Amazing service!".to_string()),
        rating: Some(5),
        author_email: Some("jane@example.com".to_string()),
        author_title: Some("CTO".to_string()),
        author_company: Some("Acme Inc".to_string()),
        ..TestimonialDetails::default()
    };
    let req = CreateTestimonialRequest { author_name: "Jane Doe".to_string(), testimonial_type: None, details };
    let body = create_testimonial(&mut db, &project_pid, &token, req, NOW).unwrap();
    assert_eq!(body.author_name, "Jane Doe");
    assert_eq!(body.details.content, Some("Amazing service!".to_string()));
    assert_eq!(body.details.rating, Some(5));
    assert_eq!(body.testimonial_type, "text");
    assert_eq!(body.project_id, project_pid);
    assert!(!body.is_approved);
    assert!(!body.is_featured);
    assert!(Uuid::parse_str(&body.id).is_ok());
    assert_eq!(body.created_at, NOW);
    assert!(body.tags.is_empty());
}

#[test]
fn list_testimonials_for_project() {
    let mut db = Store::new();
    let token = register_and_get_subject(&mut db);
    let project_pid = create_project_for(&mut db, &token);
    create_test_testimonial(&mut db, &token, &project_pid);
    let body = list_testimonials(&db, &project_pid, &all(), &token).unwrap();
    assert!(!body.is_empty());
    assert_eq!(body[0].author_name, "Jane Doe");
}

#[test]
fn list_testimonials_with_approved_filter() {
    let mut db = Store::new();
    let token = register_and_get_subject(&mut db);
    let project_pid = create_project_for(&mut db, &token);
    create_test_testimonial(&mut db, &token, &project_pid);
    let query = ListTestimonialsQuery { is_approved: Some(true), is_featured: None };
    let body = list_testimonials(&db, &project_pid, &query, &token).unwrap();
    assert!(body.is_empty());
}

#[test]
fn get_testimonial_by_pid() {
    let mut db = Store::new();
    let token = register_and_get_subject(&mut db);
    let project_pid = create_project_for(&mut db, &token);
    let testimonial_pid = create_test_testimonial(&mut db, &token, &project_pid);
    let body = get_testimonial(&db, &testimonial_pid, &token).unwrap();
    assert_eq!(body.id, testimonial_pid);
    assert_eq!(body.author_name, "Jane Doe");
    assert_eq!(body.project_id, project_pid);
}

#[test]
fn update_testimonial_partial() {
    let mut db = Store::new();
    let token = register_and_get_subject(&mut db);
    let project_pid = create_project_for(&mut db, &token);
    let testimonial_pid = create_test_testimonial(&mut db, &token, &project_pid);
    let req = UpdateTestimonialRequest { author_name: Some("John Smith".to_string()), ..no_change() };
    let body = update_testimonial(&mut db, &testimonial_pid, &token, req).unwrap();
    assert_eq!(body.author_name, "John Smith");
    assert_eq!(body.details.content, Some("Great product!".to_string()));
}

#[test]
fn delete_testimonial_returns_204() {
    let mut db = Store::new();
    let token = register_and_get_subject(&mut db);
    let project_pid = create_project_for(&mut db, &token);
    let testimonial_pid = create_test_testimonial(&mut db, &token, &project_pid);
    assert!(delete_testimonial(&mut db, &testimonial_pid, &token).is_ok());
    let res = get_testimonial(&db, &testimonial_pid, &token);
    assert!(matches!(res, Err(ApiError::NotFound)));
    assert_eq!(res.unwrap_err().status(), 404);
}

#[test]
fn approve_toggle() {
    let mut db = Store::new();
    let token = register_and_get_subject(&mut db);
    let project_pid = create_project_for(&mut db, &token);
    let testimonial_pid = create_test_testimonial(&mut db, &token, &project_pid);
    let body = approve_testimonial(&mut db, &testimonial_pid, &token).unwrap();
    assert!(body.is_approved);
    let body = approve_testimonial(&mut db, &testimonial_pid, &token).unwrap();
    assert!(!body.is_approved);
}

#[test]
fn feature_toggle() {
    let mut db = Store::new();
    let token = register_and_get_subject(&mut db);
    let project_pid = create_project_for(&mut db, &token);
    let testimonial_pid = create_test_testimonial(&mut db, &token, &project_pid);
    let body = feature_testimonial(&mut db, &testimonial_pid, &token).unwrap();
    assert!(body.is_featured);
    let body = feature_testimonial(&mut db, &testimonial_pid, &token).unwrap();
    assert!(!body.is_featured);
}

#[test]
fn testimonials_ownership_enforcement_returns_403() {
    let mut db = Store::new();
    let token_owner = register_and_get_subject(&mut db);
    let token_other = register_and_get_subject(&mut db);
    let project_pid = create_project_for(&mut db, &token_owner);
    let testimonial_pid = create_test_testimonial(&mut db, &token_owner, &project_pid);

    assert!(matches!(get_testimonial(&db, &testimonial_pid, &token_other), Err(ApiError::Forbidden)));
    let req = UpdateTestimonialRequest { author_name: Some("Hacked".to_string()), ..no_change() };
    assert!(matches!(update_testimonial(&mut db, &testimonial_pid, &token_other, req), Err(ApiError::Forbidden)));
    assert!(matches!(delete_testimonial(&mut db, &testimonial_pid, &token_other), Err(ApiError::Forbidden)));
    assert!(matches!(list_testimonials(&db, &project_pid, &all(), &token_other), Err(ApiError::Forbidden)));
    assert!(matches!(approve_testimonial(&mut db, &testimonial_pid, &token_other), Err(ApiError::Forbidden)));
    assert_eq!(get_testimonial(&db, &testimonial_pid, &token_owner).unwrap().author_name, "Jane Doe");
}

#[test]
fn testimonials_without_token_returns_401() {
    let db = Store::new();
    let res = get_testimonial(&db, "some-id", "");
    assert!(matches!(res, Err(ApiError::Unauthenticated)));
    assert_eq!(res.unwrap_err().status(), 401);
}

#[test]
fn toggles_touch_only_their_flag() {
    let mut db = Store::new();
    let token = register_and_get_subject(&mut db);
    let p = create_project_for(&mut db, &token);
    let t = create_test_testimonial(&mut db, &token, &p);
    let body = feature_testimonial(&mut db, &t, &token).unwrap();
    assert!(body.is_featured && !body.is_approved);
    let body = approve_testimonial(&mut db, &t, &token).unwrap();
    assert!(body.is_featured && body.is_approved);
    assert_eq!(body.author_name, "Jane Doe");
    assert_eq!(body.details.rating, Some(5));
    let body = feature_testimonial(&mut db, &t, &token).unwrap();
    assert!(!body.is_featured && body.is_approved);
}

#[test]
fn update_sets_every_given_field() {
    let mut db = Store::new();
    let token = register_and_get_subject(&mut db);
    let p = create_project_for(&mut db, &token);
    let t = create_test_testimonial(&mut db, &token, &p);
    let score = 0.75f32.to_bits();
    let req = UpdateTestimonialRequest {
        testimonial_type: Some("video".to_string()),
        details: TestimonialDetails {
            video_url: Some("https://example.com/v.mp4".to_string()),
            video_duration_seconds: Some(42),
            sentiment_score_bits: Some(score),
            ..TestimonialDetails::default()
        },
        is_approved: Some(true),
        ..no_change()
    };
    let body = update_testimonial(&mut db, &t, &token, req).unwrap();
    assert_eq!(body.testimonial_type, "video");
    assert_eq!(body.details.video_url, Some("https://example.com/v.mp4".to_string()));
    assert_eq!(body.details.video_duration_seconds, Some(42));
    assert_eq!(body.details.sentiment_score_bits.map(f32::from_bits), Some(0.75));
    assert_eq!(body.details.author_email, Some("jane@example.com".to_string()));
    assert!(body.is_approved && !body.is_featured);
}

#[test]
fn list_filters_on_both_flags() {
    let mut db = Store::new();
    let token = register_and_get_subject(&mut db);
    let p = create_project_for(&mut db, &token);
    let other = create_project_for(&mut db, &token);
    let a = create_test_testimonial(&mut db, &token, &p);
    let b = create_test_testimonial(&mut db, &token, &p);
    create_test_testimonial(&mut db, &token, &other);
    approve_testimonial(&mut db, &a, &token).unwrap();
    approve_testimonial(&mut db, &b, &token).unwrap();
    feature_testimonial(&mut db, &b, &token).unwrap();
    let q = ListTestimonialsQuery { is_approved: Some(true), is_featured: Some(false) };
    let body = list_testimonials(&db, &p, &q, &token).unwrap();
    assert_eq!(body.len(), 1);
    assert_eq!(body[0].id, a);
    assert_eq!(list_testimonials(&db, &p, &all(), &token).unwrap().len(), 2);
}

#[test]
fn explicit_type_is_kept() {
    let mut db = Store::new();
    let token = register_and_get_subject(&mut db);
    let p = create_project_for(&mut db, &token);
    let req = CreateTestimonialRequest { testimonial_type: Some("video".to_string()), ..jane() };
    assert_eq!(create_testimonial(&mut db, &p, &token, req, NOW).unwrap().testimonial_type, "video");
}

#[test]
fn testimonial_in_unknown_project_is_not_found() {
    let mut db = Store::new();
    let token = register_and_get_subject(&mut db);
    let unknown = Uuid::new_v4().to_string();
    assert!(matches!(create_testimonial(&mut db, &unknown, &token, jane(), NOW), Err(ApiError::NotFound)));
    assert!(matches!(create_testimonial(&mut db, "nope", &token, jane(), NOW), Err(ApiError::NotFound)));
}

#[test]
fn reused_testimonial_identifier_is_internal() {
    let mut db = Store::new();
    let token = register_and_get_subject(&mut db);
    let p = create_project_for(&mut db, &token);
    let pid = Uuid::new_v4().as_u128();
    create_testimonial_with_pid(&mut db, &p, &token, jane(), pid, NOW).unwrap();
    let res = create_testimonial_with_pid(&mut db, &p, &token, jane(), pid, NOW);
    assert!(matches!(res, Err(ApiError::Internal)));
    assert_eq!(db.testimonials.len(), 1);
}

#[test]
fn testimonial_errors_map_to_statuses() {
    assert_eq!(TestimonialError::NotFound.into_api_error().status(), 404);
    assert_eq!(TestimonialError::Forbidden.into_api_error().status(), 403);
    assert_eq!(TestimonialError::Internal.into_api_error().status(), 500);
    assert_eq!(TestimonialError::NotFound.message(), "testimonial not found");
    let table = TestimonialError::error_variants();
    let statuses: Vec<u16> = table.iter().map(|v| v.status).collect();
    assert_eq!(statuses, vec![404, 403, 500]);
    assert_eq!(table[1].code, "FORBIDDEN");
}
