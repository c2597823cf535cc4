use blog_backend::admin_posts::{create_post, get_post as admin_get_post, update_post, ModifyPostRequest};
use blog_backend::auth::UserInfo;
use blog_backend::errors::STATUS_NOT_FOUND;
use blog_backend::public_posts::{get_post, get_posts};
use blog_backend::store::{Category, Store, Tag, User};
use blog_backend::tags::{reconcile_post_tags, tags_of_post};

fn empty_store() -> Store {
    Store {
        users: vec![User {
            id: 1,
            name: "Ada".to_string(),
            email: "a@x.com".to_string(),
            password_hash: "h".to_string(),
            avatar: None,
        }],
        categories: vec![Category { id: 3, name: "systems".to_string() }],
        posts: vec![],
        tags: vec![],
        post_tags: vec![],
        next_post_id: 1,
        next_tag_id: 1,
    }
}

fn payload(title: &str, tags: &[&str]) -> ModifyPostRequest {
    ModifyPostRequest {
        title: title.to_string(),
        content: "body".to_string(),
        summary: "sum".to_string(),
        tags: tags.iter().map(|t| t.to_string()).collect(),
        category: 3,
        slug: "slug".to_string(),
        read_time_millis: 60000,
        cover_image: "cover.png".to_string(),
    }
}

fn tag_names(s: &Store, post_id: u64) -> Vec<String> {
    let mut names = tags_of_post(s, post_id);
    names.sort();
    names
}

#[test]
fn create_then_query_returns_exactly_the_unique_tags() {
    let mut s = empty_store();
    let p = create_post(&mut s, UserInfo { id: 1 }, &payload("Hi", &["go", "systems", "go"]), 10);
    assert_eq!(tag_names(&s, p.id), vec!["go".to_string(), "systems".to_string()]);
}

#[test]
fn update_to_subset_drops_stale_tag_but_keeps_its_row() {
    let mut s = empty_store();
    let p = create_post(&mut s, UserInfo { id: 1 }, &payload("Hi", &["go", "systems"]), 10);
    let updated = update_post(&mut s, p.id, &payload("Hi2", &["go"]), 20).unwrap();
    assert_eq!(updated.id, p.id);
    assert_eq!(tag_names(&s, p.id), vec!["go".to_string()]);
    // the "systems" tag row survives with zero associations
    let systems: Vec<&Tag> = s.tags.iter().filter(|t| t.name == "systems").collect();
    assert_eq!(systems.len(), 1);
    let orphan = systems[0].id;
    assert!(s.post_tags.iter().all(|pt| pt.tag_id != orphan));
}

#[test]
fn updating_twice_with_same_payload_changes_nothing_more() {
    let mut s = empty_store();
    let p = create_post(&mut s, UserInfo { id: 1 }, &payload("Hi", &["go", "db"]), 10);
    let body = payload("Hi2", &["db", "web"]);
    update_post(&mut s, p.id, &body, 20).unwrap();
    let tags_once = tag_names(&s, p.id);
    let rows_once = s.post_tags.len();
    let tag_table_once = s.tags.len();
    update_post(&mut s, p.id, &body, 30).unwrap();
    assert_eq!(tag_names(&s, p.id), tags_once);
    assert_eq!(s.post_tags.len(), rows_once);
    assert_eq!(s.tags.len(), tag_table_once);
}

#[test]
fn empty_tag_list_removes_all_associations() {
    let mut s = empty_store();
    let p = create_post(&mut s, UserInfo { id: 1 }, &payload("Hi", &["go", "db"]), 10);
    update_post(&mut s, p.id, &payload("Hi", &[]), 20).unwrap();
    assert_eq!(tag_names(&s, p.id), Vec::<String>::new());
    assert_eq!(s.tags.len(), 2);
}

#[test]
fn reconcile_is_idempotent_and_touches_only_its_post() {
    let mut s = empty_store();
    let a = create_post(&mut s, UserInfo { id: 1 }, &payload("A", &["go"]), 10);
    let b = create_post(&mut s, UserInfo { id: 1 }, &payload("B", &["db"]), 11);
    let wanted = vec!["go".to_string(), "rust".to_string()];
    reconcile_post_tags(&mut s, a.id, &wanted);
    let after_first = s.post_tags.len();
    reconcile_post_tags(&mut s, a.id, &wanted);
    assert_eq!(s.post_tags.len(), after_first);
    assert_eq!(tag_names(&s, a.id), vec!["go".to_string(), "rust".to_string()]);
    assert_eq!(tag_names(&s, b.id), vec!["db".to_string()]);
}

#[test]
fn public_get_post_for_missing_id_is_none_not_error() {
    let s = empty_store();
    assert!(get_post(&s, 42).is_none());
}

#[test]
fn admin_get_post_for_missing_id_is_404() {
    let s = empty_store();
    let e = admin_get_post(&s, 42).err().unwrap();
    assert_eq!(e.status, STATUS_NOT_FOUND);
    assert_eq!(e.message, "Post not found");
}

#[test]
fn public_get_post_returns_columns_and_tags() {
    let mut s = empty_store();
    let p = create_post(&mut s, UserInfo { id: 1 }, &payload("Hi", &["go"]), 10);
    let pr = get_post(&s, p.id).unwrap();
    assert_eq!(pr.id, p.id);
    assert_eq!(pr.title, "Hi");
    assert_eq!(pr.content, "body");
    assert_eq!(pr.summary, "sum");
    assert_eq!(pr.updated_at, 10);
    assert_eq!(pr.cover_image, "cover.png");
    assert_eq!(pr.read_time_millis, 60000);
    assert_eq!(pr.tags, vec!["go".to_string()]);
}

#[test]
fn admin_get_post_returns_full_columns() {
    let mut s = empty_store();
    let p = create_post(&mut s, UserInfo { id: 1 }, &payload("Hi", &["go"]), 10);
    let pr = admin_get_post(&s, p.id).unwrap();
    assert_eq!(pr.id, p.id);
    assert_eq!(pr.author, 1);
    assert_eq!(pr.category, 3);
    assert_eq!(pr.slug, "slug");
    assert_eq!(pr.created_at, 10);
    assert_eq!(pr.updated_at, Some(10));
    assert_eq!(pr.draft, None);
    assert_eq!(pr.tags, vec!["go".to_string()]);
}

#[test]
fn get_posts_lists_every_post_with_its_tags() {
    let mut s = empty_store();
    let a = create_post(&mut s, UserInfo { id: 1 }, &payload("A", &["go"]), 10);
    let b = create_post(&mut s, UserInfo { id: 1 }, &payload("B", &["db", "go"]), 11);
    let all = get_posts(&s);
    assert_eq!(all.len(), 2);
    assert_eq!(all[0].id, a.id);
    assert_eq!(all[1].id, b.id);
    assert_eq!(all[0].tags, vec!["go".to_string()]);
    let mut b_tags = all[1].tags.clone();
    b_tags.sort();
    assert_eq!(b_tags, vec!["db".to_string(), "go".to_string()]);
}

#[test]
fn update_overwrites_every_mutable_field_and_keeps_identity() {
    let mut s = empty_store();
    let p = create_post(&mut s, UserInfo { id: 1 }, &payload("Hi", &[]), 10);
    let mut body = payload("New title", &[]);
    body.slug = "new-slug".to_string();
    let updated = update_post(&mut s, p.id, &body, 99).unwrap();
    assert_eq!(updated.title, "New title");
    assert_eq!(updated.slug, "new-slug");
    assert_eq!(updated.author, 1);
    assert_eq!(updated.created_at, 10);
    assert_eq!(updated.updated_at, Some(99));
}

#[test]
fn update_missing_post_leaves_store_untouched() {
    let mut s = empty_store();
    create_post(&mut s, UserInfo { id: 1 }, &payload("Hi", &["go"]), 10);
    let rows = s.post_tags.len();
    let e = update_post(&mut s, 77, &payload("X", &["new"]), 20).err().unwrap();
    assert_eq!(e.status, STATUS_NOT_FOUND);
    assert_eq!(s.tags.len(), 1);
    assert_eq!(s.post_tags.len(), rows);
}
