use crate::auth::UserInfo;
use crate::errors::{AppError, STATUS_NOT_FOUND};
use crate::store::{Post, Store, find_post_index, lemma_post_id_unique};
use crate::tags::{
    lemma_same_assocs, lemma_same_tags, lemma_tags_saturated, names_contain, names_distinct,
    reconcile_post_tags, tags_of_post,
};
use vstd::prelude::*;

verus! {

/// The message a missing post answers with on the authenticated paths.
pub open spec fn post_not_found_msg() -> Seq<char> {
    "Post not found"@
}

/// The body of a create or update request. Identifiers reach the core as
/// plain numbers; the boundary converts the wire format.
pub struct ModifyPostRequest {
    pub title: String,
    pub content: String,
    pub summary: String,
    pub tags: Vec<String>,
    pub category: u64,
    pub slug: String,
    pub read_time_millis: i64,
    pub cover_image: String,
}

/// The full projection of a post for the authenticated read path.
pub struct PostResponse {
    pub id: u64,
    pub title: String,
    pub summary: String,
    pub content: String,
    pub category: u64,
    pub slug: String,
    pub author: u64,
    pub cover_image: String,
    pub draft: Option<bool>,
    pub created_at: u64,
    pub updated_at: Option<u64>,
    pub read_time_millis: i64,
    pub tags: Vec<String>,
}

/// The response reproduces every column of the post, and its tag list
/// carries exactly the post's associated tag names.
pub open spec fn admin_response_matches(s: Store, p: Post, pr: PostResponse) -> bool {
    &&& pr.id == p.id
    &&& pr.title == p.title
    &&& pr.summary == p.summary
    &&& pr.content == p.content
    &&& pr.category == p.category
    &&& pr.slug == p.slug
    &&& pr.author == p.author
    &&& pr.cover_image == p.cover_image
    &&& pr.draft == p.draft
    &&& pr.created_at == p.created_at
    &&& pr.updated_at == p.updated_at
    &&& pr.read_time_millis == p.read_time_millis
    &&& names_distinct(pr.tags@)
    &&& forall|n: Seq<char>| #[trigger]
        names_contain(pr.tags@, n) <==> s.post_tag_names(p.id).contains(n)
}

impl PostResponse {
    /// Project a post row and its resolved tag names for the
    /// authenticated read path.
    pub fn new(post: Post, tags: Vec<String>) -> (r: PostResponse)
        ensures
            r.id == post.id,
            r.title == post.title,
            r.summary == post.summary,
            r.content == post.content,
            r.category == post.category,
            r.slug == post.slug,
            r.author == post.author,
            r.cover_image == post.cover_image,
            r.draft == post.draft,
            r.created_at == post.created_at,
            r.updated_at == post.updated_at,
            r.read_time_millis == post.read_time_millis,
            r.tags == tags,
    {
        PostResponse {
            id: post.id,
            title: post.title,
            summary: post.summary,
            content: post.content,
            category: post.category,
            slug: post.slug,
            author: post.author,
            cover_image: post.cover_image,
            draft: post.draft,
            created_at: post.created_at,
            updated_at: post.updated_at,
            read_time_millis: post.read_time_millis,
            tags,
        }
    }
}

/// The mutable columns a create or an update copies from the payload —
/// every one of them, the slug included.
pub open spec fn payload_applied(p: Post, payload: ModifyPostRequest) -> bool {
    &&& p.title == payload.title
    &&& p.content == payload.content
    &&& p.summary == payload.summary
    &&& p.category == payload.category
    &&& p.slug == payload.slug
    &&& p.read_time_millis == payload.read_time_millis
    &&& p.cover_image == payload.cover_image
}

/// A field-by-field copy of a post row.
fn clone_post(p: &Post) -> (r: Post)
    ensures
        r == *p,
{
    Post {
        id: p.id,
        title: p.title.clone(),
        content: p.content.clone(),
        summary: p.summary.clone(),
        slug: p.slug.clone(),
        category: p.category,
        author: p.author,
        cover_image: p.cover_image.clone(),
        draft: p.draft,
        read_time_millis: p.read_time_millis,
        created_at: p.created_at,
        updated_at: p.updated_at,
    }
}

/// `GET /admin/posts/:id`: the full post with tags, or 404 when absent —
/// on the authenticated path a missing post is an error.
pub fn get_post(s: &Store, id: u64) -> (r: Result<PostResponse, AppError>)
    requires
        s.wf(),
    ensures
        r is Ok <==> s.has_post_id(id),
        r matches Ok(pr) ==> admin_response_matches(*s, s.post_with_id(id), pr),
        r matches Err(e) ==> (e.status == STATUS_NOT_FOUND && e.message@ == post_not_found_msg()),
{
    let i = match find_post_index(s, id) {
        Some(i) => i,
        None => {
            return Err(AppError::new(STATUS_NOT_FOUND, "Post not found".to_owned()));
        },
    };
    let tags = tags_of_post(s, id);
    Ok(PostResponse::new(clone_post(&s.posts[i]), tags))
}

/// What creating a post promises: a fresh row carrying the payload's
/// columns, the caller as author, both timestamps set to `now`, appended
/// to the post table; the tag relation of the new row is exactly the
/// payload's tag list; nothing else changes.
pub open spec fn create_spec(
    pre: Store,
    post_s: Store,
    author: UserInfo,
    payload: ModifyPostRequest,
    now: u64,
    p: Post,
) -> bool {
    &&& post_s.wf()
    &&& p.id == pre.next_post_id
    &&& payload_applied(p, payload)
    &&& p.author == author.id
    &&& p.created_at == now
    &&& p.updated_at == Some(now)
    &&& p.draft is None
    &&& post_s.posts@ == pre.posts@.push(p)
    &&& (forall|t: u64| #[trigger]
        post_s.has_assoc(p.id, t) <==> exists|n: Seq<char>|
            names_contain(payload.tags@, n) && post_s.has_tag(t, n))
    &&& (forall|n: Seq<char>| #[trigger]
        post_s.post_tag_names(p.id).contains(n) <==> names_contain(payload.tags@, n))
    &&& (forall|n: Seq<char>| #[trigger]
        post_s.has_tag_named(n) <==> pre.has_tag_named(n) || names_contain(payload.tags@, n))
    &&& pre.tags@.is_prefix_of(post_s.tags@)
    &&& (forall|p2: u64, t: u64|
        p2 != p.id ==> (#[trigger] post_s.has_assoc(p2, t) <==> pre.has_assoc(p2, t)))
    &&& post_s.users@ == pre.users@
    &&& post_s.categories@ == pre.categories@
    &&& post_s.next_post_id == pre.next_post_id + 1
    &&& pre.next_tag_id <= post_s.next_tag_id <= pre.next_tag_id + payload.tags@.len()
    &&& (pre.posts_have_update_times() ==> post_s.posts_have_update_times())
}

/// `POST /admin/posts`: insert the post row, then reconcile its tags to
/// the payload's list. Returns the created row.
pub fn create_post(s: &mut Store, author: UserInfo, payload: &ModifyPostRequest, now: u64) -> (r:
    Post)
    requires
        old(s).wf(),
        old(s).next_post_id < u64::MAX,
        old(s).next_tag_id + payload.tags@.len() <= u64::MAX,
    ensures
        create_spec(*old(s), *final(s), author, *payload, now, r),
{
    let id = s.next_post_id;
    let post = Post {
        id,
        title: payload.title.clone(),
        content: payload.content.clone(),
        summary: payload.summary.clone(),
        slug: payload.slug.clone(),
        category: payload.category,
        author: author.id,
        cover_image: payload.cover_image.clone(),
        draft: None,
        read_time_millis: payload.read_time_millis,
        created_at: now,
        updated_at: Some(now),
    };
    let stored = clone_post(&post);
    let ghost pre = *s;
    s.posts.push(stored);
    s.next_post_id = id + 1;
    proof {
        assert forall|a: int, b: int| 0 <= a < b < s.posts@.len() implies s.posts@[a].id
            != s.posts@[b].id by {
            if b == s.posts@.len() - 1 {
                assert(s.posts@[a] == pre.posts@[a]);
            } else {
                assert(s.posts@[a] == pre.posts@[a]);
                assert(s.posts@[b] == pre.posts@[b]);
            }
        }
        assert forall|i: int| 0 <= i < s.post_tags@.len() implies s.has_post_id(
            #[trigger] s.post_tags@[i].post_id,
        ) by {
            let w = choose|w: int|
                0 <= w < pre.posts@.len() && pre.posts@[w].id == pre.post_tags@[i].post_id;
            assert(s.posts@[w] == pre.posts@[w]);
        }
        assert forall|w: int| 0 <= w < s.post_tags@.len() implies s.has_tag_id(
            #[trigger] s.post_tags@[w].tag_id,
        ) by {
            let v = choose|v: int|
                0 <= v < pre.tags@.len() && pre.tags@[v].id == pre.post_tags@[w].tag_id;
            assert(s.tags@[v].id == s.post_tags@[w].tag_id);
        }
        assert(s.wf());
        assert(s.posts@[s.posts@.len() - 1].id == id);
        assert(s.has_post_id(id));
    }
    let ghost mid = *s;
    reconcile_post_tags(s, id, &payload.tags);
    proof {
        lemma_same_tags(mid, pre);
        lemma_same_assocs(mid, pre);
        assert(s.posts@ == pre.posts@.push(post));
        assert forall|n: Seq<char>| #[trigger] s.has_tag_named(n) <==> (pre.has_tag_named(n)
            || names_contain(payload.tags@, n)) by {
            assert(s.has_tag_named(n) <==> mid.has_tag_named(n) || names_contain(
                payload.tags@,
                n,
            ));
        }
        assert forall|p2: u64, t: u64| p2 != id implies (#[trigger] s.has_assoc(p2, t)
            <==> pre.has_assoc(p2, t)) by {
            assert(s.has_assoc(p2, t) <==> mid.has_assoc(p2, t));
        }
        assert(pre.tags@.is_prefix_of(s.tags@)) by {
            assert(mid.tags@.is_prefix_of(s.tags@));
            assert(pre.tags@ == mid.tags@);
        }
        if pre.posts_have_update_times() {
            assert forall|j: int| 0 <= j < s.posts@.len() implies s.posts@[j].updated_at
                is Some by {
                if j < pre.posts@.len() {
                    assert(s.posts@[j] == pre.posts@[j]);
                } else {
                    assert(s.posts@[j] == post);
                }
            }
        }
    }
    post
}

/// What updating a post promises: 404 and an untouched store when the id
/// is unknown; otherwise the row keeps its identity columns (author,
/// creation time, draft flag), takes every mutable column from the
/// payload, is stamped with `now`, and its tag relation becomes exactly
/// the payload's tag list; nothing else changes.
pub open spec fn update_spec(
    pre: Store,
    post_s: Store,
    id: u64,
    payload: ModifyPostRequest,
    now: u64,
    r: Result<Post, AppError>,
) -> bool {
    &&& post_s.wf()
    &&& (r is Ok <==> pre.has_post_id(id))
    &&& (!pre.has_post_id(id) ==> post_s == pre)
    &&& (!pre.has_post_id(id) ==> (r matches Err(e) && e.status == STATUS_NOT_FOUND && e.message@
        == post_not_found_msg()))
    &&& (r matches Ok(p) ==> {
        &&& p.id == id
        &&& payload_applied(p, payload)
        &&& p.author == pre.post_with_id(id).author
        &&& p.created_at == pre.post_with_id(id).created_at
        &&& p.draft == pre.post_with_id(id).draft
        &&& p.updated_at == Some(now)
        &&& post_s.posts@.len() == pre.posts@.len()
        &&& post_s.has_post_id(id)
        &&& post_s.post_with_id(id) == p
        &&& (forall|j: int|
            0 <= j < pre.posts@.len() && pre.posts@[j].id != id ==> post_s.posts@[j]
                == pre.posts@[j])
        &&& (forall|t: u64| #[trigger]
            post_s.has_assoc(id, t) <==> exists|n: Seq<char>|
                names_contain(payload.tags@, n) && post_s.has_tag(t, n))
        &&& (forall|n: Seq<char>| #[trigger]
            post_s.post_tag_names(id).contains(n) <==> names_contain(payload.tags@, n))
        &&& (forall|n: Seq<char>| #[trigger]
            post_s.has_tag_named(n) <==> pre.has_tag_named(n) || names_contain(payload.tags@, n))
        &&& pre.tags@.is_prefix_of(post_s.tags@)
        &&& (forall|p2: u64, t: u64|
            p2 != id ==> (#[trigger] post_s.has_assoc(p2, t) <==> pre.has_assoc(p2, t)))
        &&& post_s.users@ == pre.users@
        &&& post_s.categories@ == pre.categories@
        &&& post_s.next_post_id == pre.next_post_id
        &&& pre.next_tag_id <= post_s.next_tag_id <= pre.next_tag_id + payload.tags@.len()
        &&& (pre.posts_have_update_times() ==> post_s.posts_have_update_times())
    })
}

/// `POST /admin/posts/:id`: overwrite the mutable columns from the
/// payload, then reconcile the post's tags to the payload's list.
pub fn update_post(s: &mut Store, id: u64, payload: &ModifyPostRequest, now: u64) -> (r: Result<
    Post,
    AppError,
>)
    requires
        old(s).wf(),
        old(s).next_tag_id + payload.tags@.len() <= u64::MAX,
    ensures
        update_spec(*old(s), *final(s), id, *payload, now, r),
{
    let i = match find_post_index(s, id) {
        Some(i) => i,
        None => {
            return Err(AppError::new(STATUS_NOT_FOUND, "Post not found".to_owned()));
        },
    };
    let updated = Post {
        id,
        title: payload.title.clone(),
        content: payload.content.clone(),
        summary: payload.summary.clone(),
        slug: payload.slug.clone(),
        category: payload.category,
        author: s.posts[i].author,
        cover_image: payload.cover_image.clone(),
        draft: s.posts[i].draft,
        read_time_millis: payload.read_time_millis,
        created_at: s.posts[i].created_at,
        updated_at: Some(now),
    };
    let stored = clone_post(&updated);
    let ghost pre = *s;
    s.posts[i] = stored;
    proof {
        assert forall|a: int, b: int| 0 <= a < b < s.posts@.len() implies s.posts@[a].id
            != s.posts@[b].id by {
            assert(pre.posts@[a].id != pre.posts@[b].id);
            assert(s.posts@[a].id == pre.posts@[a].id);
            assert(s.posts@[b].id == pre.posts@[b].id);
        }
        assert forall|j: int| 0 <= j < s.posts@.len() implies #[trigger] s.posts@[j].id
            < s.next_post_id by {
            assert(s.posts@[j].id == pre.posts@[j].id);
        }
        assert forall|w: int| 0 <= w < s.post_tags@.len() implies s.has_post_id(
            #[trigger] s.post_tags@[w].post_id,
        ) by {
            let v = choose|v: int|
                0 <= v < pre.posts@.len() && pre.posts@[v].id == pre.post_tags@[w].post_id;
            assert(s.posts@[v].id == pre.posts@[v].id);
        }
        assert forall|w: int| 0 <= w < s.post_tags@.len() implies s.has_tag_id(
            #[trigger] s.post_tags@[w].tag_id,
        ) by {
            let v = choose|v: int|
                0 <= v < pre.tags@.len() && pre.tags@[v].id == pre.post_tags@[w].tag_id;
            assert(s.tags@[v].id == s.post_tags@[w].tag_id);
        }
        assert(s.wf());
        assert(s.posts@[i as int].id == id);
        assert(s.has_post_id(id));
    }
    let ghost mid = *s;
    reconcile_post_tags(s, id, &payload.tags);
    proof {
        lemma_same_tags(mid, pre);
        lemma_same_assocs(mid, pre);
        assert(s.posts@ == mid.posts@);
        assert forall|n: Seq<char>| #[trigger] s.has_tag_named(n) <==> (pre.has_tag_named(n)
            || names_contain(payload.tags@, n)) by {
            assert(s.has_tag_named(n) <==> mid.has_tag_named(n) || names_contain(
                payload.tags@,
                n,
            ));
        }
        assert forall|p2: u64, t: u64| p2 != id implies (#[trigger] s.has_assoc(p2, t)
            <==> pre.has_assoc(p2, t)) by {
            assert(s.has_assoc(p2, t) <==> mid.has_assoc(p2, t));
        }
        assert(pre.tags@.is_prefix_of(s.tags@)) by {
            assert(mid.tags@.is_prefix_of(s.tags@));
            assert(pre.tags@ == mid.tags@);
        }
        assert(pre.post_with_id(id) == pre.posts@[i as int]) by {
            let w = choose|w: int| 0 <= w < pre.posts@.len() && pre.posts@[w].id == id;
            lemma_post_id_unique(pre, w, i as int);
        }
        assert(s.has_post_id(id)) by {
            assert(s.posts@[i as int].id == id);
        }
        assert(s.post_with_id(id) == updated) by {
            let w = choose|w: int| 0 <= w < s.posts@.len() && s.posts@[w].id == id;
            lemma_post_id_unique(*s, w, i as int);
        }
        assert forall|j: int| 0 <= j < pre.posts@.len() && pre.posts@[j].id != id implies
            s.posts@[j] == pre.posts@[j] by {
            assert(j != i as int);
        }
        if pre.posts_have_update_times() {
            assert forall|j: int| 0 <= j < s.posts@.len() implies s.posts@[j].updated_at
                is Some by {
                if j != i as int {
                    assert(s.posts@[j] == pre.posts@[j]);
                } else {
                    assert(s.posts@[j] == updated);
                }
            }
        }
    }
    Ok(updated)
}

/// Law: updating a post a second time with the identical payload succeeds
/// and changes nothing more — the tag table and every association row are
/// already in their final state after the first update.
pub proof fn lemma_update_idempotent(
    s0: Store,
    s1: Store,
    s2: Store,
    id: u64,
    payload: ModifyPostRequest,
    now1: u64,
    now2: u64,
    r1: Result<Post, AppError>,
    r2: Result<Post, AppError>,
)
    requires
        update_spec(s0, s1, id, payload, now1, r1),
        update_spec(s1, s2, id, payload, now2, r2),
        r1 is Ok,
    ensures
        r2 is Ok,
        s2.tags@ == s1.tags@,
        forall|p: u64, t: u64|
            #![trigger s2.has_assoc(p, t)]
            #![trigger s1.has_assoc(p, t)]
            s2.has_assoc(p, t) == s1.has_assoc(p, t),
        forall|n: Seq<char>| #[trigger]
            s2.post_tag_names(id).contains(n) == s1.post_tag_names(id).contains(n),
{
    assert(s1.has_post_id(id));
    assert(r2 is Ok);
    assert forall|n: Seq<char>| #[trigger] s2.has_tag_named(n) implies s1.has_tag_named(n) by {
        assert(s2.has_tag_named(n) <==> s1.has_tag_named(n) || names_contain(payload.tags@, n));
        assert(s1.has_tag_named(n) <==> s0.has_tag_named(n) || names_contain(payload.tags@, n));
    }
    lemma_tags_saturated(s1, s2);
    lemma_same_tags(s1, s2);
    assert forall|p: u64, t: u64|
        #![trigger s2.has_assoc(p, t)]
        #![trigger s1.has_assoc(p, t)]
        s2.has_assoc(p, t) == s1.has_assoc(p, t) by {
        if p != id {
            assert(s2.has_assoc(p, t) <==> s1.has_assoc(p, t));
        } else {
            if s2.has_assoc(id, t) {
                let n = choose|n: Seq<char>|
                    names_contain(payload.tags@, n) && s2.has_tag(t, n);
                assert(s1.has_tag(t, n));
            }
            if s1.has_assoc(id, t) {
                let n = choose|n: Seq<char>|
                    names_contain(payload.tags@, n) && s1.has_tag(t, n);
                assert(s2.has_tag(t, n));
            }
        }
    }
    assert forall|n: Seq<char>| #[trigger] s2.post_tag_names(id).contains(n)
        == s1.post_tag_names(id).contains(n) by {
        assert(s2.post_tag_names(id).contains(n) <==> names_contain(payload.tags@, n));
        assert(s1.post_tag_names(id).contains(n) <==> names_contain(payload.tags@, n));
    }
}

/// Law: a post created with one tag list and then updated with a payload
/// whose list is a subset of it succeeds, and ends associated with
/// exactly the subset; every name of the first list keeps its tag row,
/// the dropped ones merely unreferenced by this post.
pub proof fn lemma_create_then_update_subset(
    s0: Store,
    s1: Store,
    s2: Store,
    author: UserInfo,
    p1: ModifyPostRequest,
    p2: ModifyPostRequest,
    now1: u64,
    now2: u64,
    created: Post,
    r2: Result<Post, AppError>,
)
    requires
        create_spec(s0, s1, author, p1, now1, created),
        update_spec(s1, s2, created.id, p2, now2, r2),
        forall|k: int| 0 <= k < p2.tags@.len() ==> names_contain(p1.tags@, #[trigger] p2.tags@[k]@),
    ensures
        r2 is Ok,
        forall|n: Seq<char>| #[trigger]
            s2.post_tag_names(created.id).contains(n) <==> names_contain(p2.tags@, n),
        forall|n: Seq<char>| names_contain(p1.tags@, n) ==> #[trigger] s2.has_tag_named(n),
        forall|n: Seq<char>|
            names_contain(p1.tags@, n) && !names_contain(p2.tags@, n) ==> !(
            #[trigger] s2.post_tag_names(created.id).contains(n)),
{
    assert(s1.has_post_id(created.id)) by {
        assert(s1.posts@[s1.posts@.len() - 1] == created);
    }
    assert(r2 is Ok);
    assert forall|n: Seq<char>| names_contain(p1.tags@, n) implies #[trigger] s2.has_tag_named(
        n,
    ) by {
        assert(s1.has_tag_named(n));
        assert(s2.has_tag_named(n) <==> s1.has_tag_named(n) || names_contain(p2.tags@, n));
    }
}

} // verus!
