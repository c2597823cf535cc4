use blog_backend::admin::get_categories;
use blog_backend::auth::{verify_login_at, LoginRequestPayload};
use blog_backend::store::User;
use blog_backend::config::parse_port;
use blog_backend::errors::{map_to_app_error, AppError};
use blog_backend::media::{media_path, new_media_path};
use blog_backend::store::{Category, Store};

#[test]
fn parse_port_reads_plain_decimal() {
    assert_eq!(parse_port(b"8080"), Some(8080));
    assert_eq!(parse_port(b"0"), Some(0));
    assert_eq!(parse_port(b"65535"), Some(65535));
}

#[test]
fn parse_port_accepts_one_leading_plus_sign() {
    assert_eq!(parse_port(b"+80"), Some(80));
    assert_eq!(parse_port(b"+"), None);
    assert_eq!(parse_port(b"++1"), None);
    assert_eq!(parse_port(b"+65536"), None);
}

#[test]
fn parse_port_rejects_out_of_range_and_garbage() {
    assert_eq!(parse_port(b"65536"), None);
    assert_eq!(parse_port(b""), None);
    assert_eq!(parse_port(b"80a0"), None);
    assert_eq!(parse_port(b"-1"), None);
    assert_eq!(parse_port(b"999999999999999999999"), None);
}

#[test]
fn media_path_renders_fixed_width_hex() {
    assert_eq!(
        media_path(0),
        "/media/00000000000000000000000000000000"
    );
    assert_eq!(
        media_path(0x0123_4567_89ab_cdef_0123_4567_89ab_cdef),
        "/media/0123456789abcdef0123456789abcdef"
    );
    assert_eq!(media_path(u128::MAX), "/media/ffffffffffffffffffffffffffffffff");
}

#[test]
fn new_media_path_is_under_media_and_fresh() {
    let a = new_media_path();
    let b = new_media_path();
    assert!(a.starts_with("/media/"));
    assert_eq!(a.len(), "/media/".len() + 32);
    // 128 random bits colliding across two draws would mean the identifier
    // source is broken
    assert_ne!(a, b);
}

#[test]
fn map_to_app_error_is_internal() {
    let e = map_to_app_error("boom".to_string());
    assert_eq!(e.status, 500);
    assert_eq!(e.message, "boom");
}

#[test]
fn app_error_new_keeps_fields() {
    let e = AppError::new(404, "gone".to_string());
    assert_eq!(e.status, 404);
    assert_eq!(e.message, "gone");
}

#[test]
fn categories_listing_returns_every_row() {
    let s = Store {
        users: vec![],
        categories: vec![
            Category { id: 1, name: "os".to_string() },
            Category { id: 2, name: "db".to_string() },
        ],
        posts: vec![],
        tags: vec![],
        post_tags: vec![],
        next_post_id: 1,
        next_tag_id: 1,
    };
    let cs = get_categories(&s);
    assert_eq!(cs.len(), 2);
    assert_eq!(cs[0].id, 1);
    assert_eq!(cs[0].name, "os");
    assert_eq!(cs[1].id, 2);
    assert_eq!(cs[1].name, "db");
}

#[test]
fn bcrypt_round_trip_through_login_depends_on_real_hashing() {
    // a stored hash made by the real bcrypt must accept its own password
    // and reject others
    let hash = bcrypt::hash("s3cret", 4).unwrap();
    let s = Store {
        users: vec![User {
            id: 1,
            name: "Ada".to_string(),
            email: "a@x.com".to_string(),
            password_hash: hash,
            avatar: None,
        }],
        categories: vec![],
        posts: vec![],
        tags: vec![],
        post_tags: vec![],
        next_post_id: 1,
        next_tag_id: 1,
    };
    let ok = verify_login_at(
        &s,
        Some(LoginRequestPayload { email: "a@x.com".to_string(), password: "s3cret".to_string() }),
        0,
    );
    assert!(ok.is_ok());
    let bad = verify_login_at(
        &s,
        Some(LoginRequestPayload { email: "a@x.com".to_string(), password: "s3cret!".to_string() }),
        0,
    );
    assert_eq!(bad.err().unwrap().status, 401);
}
