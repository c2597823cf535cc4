use blog_backend::admin::{handle_admin_request, AdminRequest, AdminResponse};
use blog_backend::admin_posts::ModifyPostRequest;
use blog_backend::auth::{authenticate, verify_login, verify_login_at, Claims, LoginRequestPayload};
use blog_backend::errors::{STATUS_BAD_REQUEST, STATUS_UNAUTHORIZED};
use blog_backend::store::{Store, User};

fn store_with_user(email: &str, password: &str) -> Store {
    let hash = bcrypt::hash(password, 4).unwrap();
    Store {
        users: vec![User {
            id: 7,
            name: "Ada".to_string(),
            email: email.to_string(),
            password_hash: hash,
            avatar: None,
        }],
        categories: vec![],
        posts: vec![],
        tags: vec![],
        post_tags: vec![],
        next_post_id: 1,
        next_tag_id: 1,
    }
}

fn payload(title: &str, tags: &[&str]) -> ModifyPostRequest {
    ModifyPostRequest {
        title: title.to_string(),
        content: "body".to_string(),
        summary: "sum".to_string(),
        tags: tags.iter().map(|t| t.to_string()).collect(),
        category: 3,
        slug: "slug".to_string(),
        read_time_millis: 60000,
        cover_image: "cover.png".to_string(),
    }
}

#[test]
fn login_wrong_password_is_generic_401() {
    let s = store_with_user("a@x.com", "correct");
    let r = verify_login_at(
        &s,
        Some(LoginRequestPayload {
            email: "a@x.com".to_string(),
            password: "wrong".to_string(),
        }),
        1000,
    );
    let e = r.err().unwrap();
    assert_eq!(e.status, STATUS_UNAUTHORIZED);
    assert_eq!(e.message, "Invalid email or password");
}

#[test]
fn login_unknown_email_matches_wrong_password_exactly() {
    let s = store_with_user("a@x.com", "correct");
    let unknown = verify_login_at(
        &s,
        Some(LoginRequestPayload {
            email: "nobody@x.com".to_string(),
            password: "whatever".to_string(),
        }),
        1000,
    )
    .err()
    .unwrap();
    let wrong = verify_login_at(
        &s,
        Some(LoginRequestPayload {
            email: "a@x.com".to_string(),
            password: "wrong".to_string(),
        }),
        1000,
    )
    .err()
    .unwrap();
    assert_eq!(unknown.status, wrong.status);
    assert_eq!(unknown.message, wrong.message);
    assert_eq!(unknown.status, 401);
}

#[test]
fn login_success_issues_one_hour_claims() {
    let s = store_with_user("a@x.com", "correct");
    let c = verify_login_at(
        &s,
        Some(LoginRequestPayload {
            email: "a@x.com".to_string(),
            password: "correct".to_string(),
        }),
        5000,
    )
    .unwrap();
    assert_eq!(c.sub, 7);
    assert_eq!(c.iat, 5000);
    assert_eq!(c.exp, 5000 + 3600);
}

#[test]
fn login_against_the_clock_issues_one_hour_claims() {
    let s = store_with_user("a@x.com", "correct");
    let c = verify_login(
        &s,
        Some(LoginRequestPayload {
            email: "a@x.com".to_string(),
            password: "correct".to_string(),
        }),
    )
    .unwrap();
    assert_eq!(c.sub, 7);
    assert_eq!(c.exp, c.iat + 3600);
    assert!(c.iat > 0);
}

#[test]
fn login_empty_fields_rejected_with_400() {
    let s = store_with_user("a@x.com", "correct");
    let e = verify_login_at(
        &s,
        Some(LoginRequestPayload {
            email: "".to_string(),
            password: "correct".to_string(),
        }),
        0,
    )
    .err()
    .unwrap();
    assert_eq!(e.status, STATUS_BAD_REQUEST);
    assert_eq!(e.message, "Email and password are required");
}

#[test]
fn login_unreadable_payload_rejected_with_400() {
    let s = store_with_user("a@x.com", "correct");
    let e = verify_login_at(&s, None, 0).err().unwrap();
    assert_eq!(e.status, STATUS_BAD_REQUEST);
    assert_eq!(e.message, "Invalid payload");
}

#[test]
fn authenticate_missing_cookie_is_401() {
    let r = authenticate(None, 100);
    let e = r.err().unwrap();
    assert_eq!(e.status, STATUS_UNAUTHORIZED);
    assert_eq!(e.message, "Unauthorized");
}

#[test]
fn authenticate_expired_token_is_401() {
    let claims = Claims { sub: 7, iat: 0, exp: 100 };
    let e = authenticate(Some(claims), 100).err().unwrap();
    assert_eq!(e.status, STATUS_UNAUTHORIZED);
}

#[test]
fn authenticate_live_token_yields_identity() {
    let claims = Claims { sub: 7, iat: 0, exp: 100 };
    let u = authenticate(Some(claims), 99).unwrap();
    assert_eq!(u.id, 7);
}

#[test]
fn admin_request_without_session_mutates_nothing() {
    let mut s = store_with_user("a@x.com", "correct");
    let r = handle_admin_request(
        &mut s,
        None,
        50,
        AdminRequest::CreatePost { payload: payload("Hi", &["go"]) },
    );
    let e = r.err().unwrap();
    assert_eq!(e.status, STATUS_UNAUTHORIZED);
    assert_eq!(e.message, "Unauthorized");
    assert_eq!(s.posts.len(), 0);
    assert_eq!(s.tags.len(), 0);
    assert_eq!(s.post_tags.len(), 0);
    assert_eq!(s.next_post_id, 1);
    assert_eq!(s.next_tag_id, 1);
}

#[test]
fn admin_request_with_expired_session_mutates_nothing() {
    let mut s = store_with_user("a@x.com", "correct");
    let claims = Claims { sub: 7, iat: 0, exp: 40 };
    let r = handle_admin_request(
        &mut s,
        Some(claims),
        40,
        AdminRequest::UpdatePost { id: 1, payload: payload("Hi", &[]) },
    );
    assert_eq!(r.err().unwrap().status, STATUS_UNAUTHORIZED);
    assert_eq!(s.posts.len(), 0);
    assert_eq!(s.post_tags.len(), 0);
}

#[test]
fn admin_request_with_live_session_reaches_handler() {
    let mut s = store_with_user("a@x.com", "correct");
    let claims = Claims { sub: 7, iat: 0, exp: 1000 };
    let r = handle_admin_request(
        &mut s,
        Some(claims),
        50,
        AdminRequest::CreatePost { payload: payload("Hi", &["go"]) },
    )
    .unwrap();
    match r {
        AdminResponse::Created(p) => {
            assert_eq!(p.author, 7);
            assert_eq!(p.title, "Hi");
        }
        _ => panic!("expected a created post"),
    }
    assert_eq!(s.posts.len(), 1);
    assert_eq!(s.tags.len(), 1);
    assert_eq!(s.post_tags.len(), 1);
}

#[test]
fn me_returns_profile_of_authenticated_user() {
    let mut s = store_with_user("a@x.com", "correct");
    let claims = Claims { sub: 7, iat: 0, exp: 1000 };
    let r = handle_admin_request(&mut s, Some(claims), 50, AdminRequest::GetCurrentUser).unwrap();
    match r {
        AdminResponse::CurrentUser(u) => {
            assert_eq!(u.id, 7);
            assert_eq!(u.name, "Ada");
            assert_eq!(u.email, "a@x.com");
            assert_eq!(u.avatar, None);
        }
        _ => panic!("expected the current user"),
    }
}

#[test]
fn me_for_vanished_user_is_404() {
    let mut s = store_with_user("a@x.com", "correct");
    let claims = Claims { sub: 99, iat: 0, exp: 1000 };
    let e = handle_admin_request(&mut s, Some(claims), 50, AdminRequest::GetCurrentUser)
        .err()
        .unwrap();
    assert_eq!(e.status, 404);
    assert_eq!(e.message, "User not found ");
}
