use crate::store::{Post, Store, find_post_index};
use crate::tags::{names_contain, names_distinct, tags_of_post};
use vstd::prelude::*;

verus! {

/// The public projection of a post: display columns plus resolved tag
/// names.
pub struct PostResponse {
    pub id: u64,
    pub title: String,
    pub content: String,
    pub summary: String,
    pub updated_at: u64,
    pub tags: Vec<String>,
    pub cover_image: String,
    pub read_time_millis: i64,
}

/// The response reproduces the post's display columns, and its tag list
/// carries exactly the post's associated tag names.
pub open spec fn response_matches(s: Store, p: Post, pr: PostResponse) -> bool {
    &&& pr.id == p.id
    &&& pr.title == p.title
    &&& pr.content == p.content
    &&& pr.summary == p.summary
    &&& pr.updated_at == p.updated_at->Some_0
    &&& pr.cover_image == p.cover_image
    &&& pr.read_time_millis == p.read_time_millis
    &&& names_distinct(pr.tags@)
    &&& forall|n: Seq<char>| #[trigger]
        names_contain(pr.tags@, n) <==> s.post_tag_names(p.id).contains(n)
}

impl PostResponse {
    /// Project a post row and its resolved tag names for public readers.
    /// The update timestamp must be present, as the deployed schema
    /// guarantees for every committed row.
    pub fn new(post: &Post, tags: Vec<String>) -> (r: PostResponse)
        requires
            post.updated_at is Some,
        ensures
            r.id == post.id,
            r.title == post.title,
            r.content == post.content,
            r.summary == post.summary,
            r.updated_at == post.updated_at->Some_0,
            r.tags == tags,
            r.cover_image == post.cover_image,
            r.read_time_millis == post.read_time_millis,
    {
        let updated_at = match post.updated_at {
            Some(t) => t,
            None => unreached(),
        };
        PostResponse {
            id: post.id,
            title: post.title.clone(),
            content: post.content.clone(),
            summary: post.summary.clone(),
            updated_at,
            tags,
            cover_image: post.cover_image.clone(),
            read_time_millis: post.read_time_millis,
        }
    }
}

/// `GET /posts`: every post with its display columns and tag names, in
/// the store's insertion order — ascending id, since the write path
/// appends rows with increasing identifiers.
pub fn get_posts(s: &Store) -> (r: Vec<PostResponse>)
    requires
        s.wf(),
        s.posts_have_update_times(),
    ensures
        r@.len() == s.posts@.len(),
        forall|i: int|
            0 <= i < r@.len() ==> response_matches(*s, s.posts@[i], #[trigger] r@[i]),
{
    let mut r: Vec<PostResponse> = Vec::new();
    let mut i: usize = 0;
    while i < s.posts.len()
        invariant
            s.wf(),
            s.posts_have_update_times(),
            0 <= i <= s.posts@.len(),
            r@.len() == i,
            forall|j: int|
                0 <= j < i ==> response_matches(*s, s.posts@[j], #[trigger] r@[j]),
        decreases s.posts@.len() - i,
    {
        let tags = tags_of_post(s, s.posts[i].id);
        let resp = PostResponse::new(&s.posts[i], tags);
        r.push(resp);
        i += 1;
    }
    r
}

/// `GET /posts/:id`: one post with its tags, or `None` when the id is
/// unknown — for public readers an absent post is an answer, not an error.
pub fn get_post(s: &Store, id: u64) -> (r: Option<PostResponse>)
    requires
        s.wf(),
        s.posts_have_update_times(),
    ensures
        r is Some <==> s.has_post_id(id),
        r matches Some(pr) ==> response_matches(*s, s.post_with_id(id), pr),
{
    let i = match find_post_index(s, id) {
        Some(i) => i,
        None => {
            return None;
        },
    };
    let tags = tags_of_post(s, id);
    Some(PostResponse::new(&s.posts[i], tags))
}

} // verus!
