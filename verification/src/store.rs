use vstd::prelude::*;

verus! {

/// A stored user account. Accounts are created out of band; this backend
/// only ever reads them.
pub struct User {
    pub id: u64,
    pub name: String,
    pub email: String,
    pub password_hash: String,
    pub avatar: Option<String>,
}

/// A post category. Read-only here: the backend only lists categories.
pub struct Category {
    pub id: u64,
    pub name: String,
}

/// A blog post row. Identifiers, timestamps and references are carried as
/// plain integers; the boundary code converts them to whatever the wire or
/// storage format uses.
pub struct Post {
    pub id: u64,
    pub title: String,
    pub content: String,
    pub summary: String,
    pub slug: String,
    pub category: u64,
    pub author: u64,
    pub cover_image: String,
    pub draft: Option<bool>,
    pub read_time_millis: i64,
    pub created_at: u64,
    pub updated_at: Option<u64>,
}

/// A tag row: a unique name with its identifier. Tags are created lazily
/// and never deleted.
pub struct Tag {
    pub id: u64,
    pub name: String,
}

/// One post-to-tag association row; the pair is unique.
pub struct PostTag {
    pub post_id: u64,
    pub tag_id: u64,
}

/// The backing store's state: one field per table, plus the next fresh
/// identifier for the tables this backend inserts into.
pub struct Store {
    pub users: Vec<User>,
    pub categories: Vec<Category>,
    pub posts: Vec<Post>,
    pub tags: Vec<Tag>,
    pub post_tags: Vec<PostTag>,
    pub next_post_id: u64,
    pub next_tag_id: u64,
}

impl Store {
    /// There is a tag row with this id and this name.
    pub open spec fn has_tag(self, id: u64, name: Seq<char>) -> bool {
        exists|i: int|
            0 <= i < self.tags@.len() && self.tags@[i].id == id && self.tags@[i].name@ == name
    }

    /// Some tag row carries this name.
    pub open spec fn has_tag_named(self, name: Seq<char>) -> bool {
        exists|i: int| 0 <= i < self.tags@.len() && self.tags@[i].name@ == name
    }

    /// Some tag row carries this id.
    pub open spec fn has_tag_id(self, id: u64) -> bool {
        exists|i: int| 0 <= i < self.tags@.len() && self.tags@[i].id == id
    }

    /// Some post row carries this id.
    pub open spec fn has_post_id(self, id: u64) -> bool {
        exists|i: int| 0 <= i < self.posts@.len() && self.posts@[i].id == id
    }

    /// The post row with this id (meaningful when `has_post_id` holds,
    /// since post ids are unique).
    pub open spec fn post_with_id(self, id: u64) -> Post {
        self.posts@[choose|i: int| 0 <= i < self.posts@.len() && self.posts@[i].id == id]
    }

    /// Some user row carries this email.
    pub open spec fn has_user_email(self, email: Seq<char>) -> bool {
        exists|i: int| 0 <= i < self.users@.len() && self.users@[i].email@ == email
    }

    /// Some user row carries this id.
    pub open spec fn has_user_id(self, id: u64) -> bool {
        exists|i: int| 0 <= i < self.users@.len() && self.users@[i].id == id
    }

    /// The user row with this email (meaningful when `has_user_email`
    /// holds, since emails are unique).
    pub open spec fn user_with_email(self, email: Seq<char>) -> User {
        self.users@[choose|i: int| 0 <= i < self.users@.len() && self.users@[i].email@ == email]
    }

    /// The user row with this id (meaningful when `has_user_id` holds).
    pub open spec fn user_with_id(self, id: u64) -> User {
        self.users@[choose|i: int| 0 <= i < self.users@.len() && self.users@[i].id == id]
    }

    /// The association row (post_id, tag_id) exists.
    pub open spec fn has_assoc(self, post_id: u64, tag_id: u64) -> bool {
        exists|i: int|
            0 <= i < self.post_tags@.len() && self.post_tags@[i].post_id == post_id
                && self.post_tags@[i].tag_id == tag_id
    }

    /// The set of tag names currently associated with a post: exactly what
    /// a tag-join on its association rows returns.
    pub open spec fn post_tag_names(self, post_id: u64) -> Set<Seq<char>> {
        Set::new(|n: Seq<char>| exists|t: u64| self.has_assoc(post_id, t) && self.has_tag(t, n))
    }

    /// Well-formedness of the store: uniqueness of every key the schema
    /// declares unique, referential integrity of the association table,
    /// and freshness of the id counters.
    pub open spec fn wf(self) -> bool {
        &&& forall|i: int, j: int|
            0 <= i < j < self.tags@.len() ==> self.tags@[i].id != self.tags@[j].id
                && self.tags@[i].name@ != self.tags@[j].name@
        &&& forall|i: int| 0 <= i < self.tags@.len() ==> self.tags@[i].id < self.next_tag_id
        &&& forall|i: int, j: int|
            0 <= i < j < self.posts@.len() ==> self.posts@[i].id != self.posts@[j].id
        &&& forall|i: int| 0 <= i < self.posts@.len() ==> self.posts@[i].id < self.next_post_id
        &&& forall|i: int, j: int|
            0 <= i < j < self.post_tags@.len() ==> !(self.post_tags@[i].post_id
                == self.post_tags@[j].post_id && self.post_tags@[i].tag_id
                == self.post_tags@[j].tag_id)
        &&& forall|i: int|
            0 <= i < self.post_tags@.len() ==> self.has_tag_id(#[trigger] self.post_tags@[i].tag_id)
        &&& forall|i: int|
            0 <= i < self.post_tags@.len() ==> self.has_post_id(
                #[trigger] self.post_tags@[i].post_id,
            )
        &&& forall|i: int, j: int|
            0 <= i < j < self.users@.len() ==> self.users@[i].id != self.users@[j].id
                && self.users@[i].email@ != self.users@[j].email@
    }

    /// Every post row has its update timestamp set. The deployed schema
    /// fills it on insert, so read paths may rely on it.
    pub open spec fn posts_have_update_times(self) -> bool {
        forall|i: int| 0 <= i < self.posts@.len() ==> self.posts@[i].updated_at is Some
    }
}

/// Two tag rows with the same name are the same row.
pub proof fn lemma_tag_name_unique(s: Store, i: int, j: int)
    requires
        s.wf(),
        0 <= i < s.tags@.len(),
        0 <= j < s.tags@.len(),
        s.tags@[i].name@ == s.tags@[j].name@,
    ensures
        i == j,
{
    if i < j {
        assert(s.tags@[i].name@ != s.tags@[j].name@);
    } else if j < i {
        assert(s.tags@[j].name@ != s.tags@[i].name@);
    }
}

/// Two tag rows with the same id are the same row.
pub proof fn lemma_tag_id_unique(s: Store, i: int, j: int)
    requires
        s.wf(),
        0 <= i < s.tags@.len(),
        0 <= j < s.tags@.len(),
        s.tags@[i].id == s.tags@[j].id,
    ensures
        i == j,
{
    if i < j {
        assert(s.tags@[i].id != s.tags@[j].id);
    } else if j < i {
        assert(s.tags@[j].id != s.tags@[i].id);
    }
}

/// Two post rows with the same id are the same row.
pub proof fn lemma_post_id_unique(s: Store, i: int, j: int)
    requires
        s.wf(),
        0 <= i < s.posts@.len(),
        0 <= j < s.posts@.len(),
        s.posts@[i].id == s.posts@[j].id,
    ensures
        i == j,
{
    if i < j {
        assert(s.posts@[i].id != s.posts@[j].id);
    } else if j < i {
        assert(s.posts@[j].id != s.posts@[i].id);
    }
}

/// Two user rows with the same email are the same row.
pub proof fn lemma_user_email_unique(s: Store, i: int, j: int)
    requires
        s.wf(),
        0 <= i < s.users@.len(),
        0 <= j < s.users@.len(),
        s.users@[i].email@ == s.users@[j].email@,
    ensures
        i == j,
{
    if i < j {
        assert(s.users@[i].email@ != s.users@[j].email@);
    } else if j < i {
        assert(s.users@[j].email@ != s.users@[i].email@);
    }
}

/// Two user rows with the same id are the same row.
pub proof fn lemma_user_id_unique(s: Store, i: int, j: int)
    requires
        s.wf(),
        0 <= i < s.users@.len(),
        0 <= j < s.users@.len(),
        s.users@[i].id == s.users@[j].id,
    ensures
        i == j,
{
    if i < j {
        assert(s.users@[i].id != s.users@[j].id);
    } else if j < i {
        assert(s.users@[j].id != s.users@[i].id);
    }
}

/// Index of the tag row carrying `name`, if any.
pub fn find_tag_by_name(s: &Store, name: &String) -> (r: Option<u64>)
    ensures
        match r {
            Some(id) => s.has_tag(id, name@),
            None => !s.has_tag_named(name@),
        },
{
    let mut i: usize = 0;
    while i < s.tags.len()
        invariant
            0 <= i <= s.tags@.len(),
            forall|j: int| 0 <= j < i ==> s.tags@[j].name@ != name@,
        decreases s.tags@.len() - i,
    {
        if s.tags[i].name == *name {
            return Some(s.tags[i].id);
        }
        i += 1;
    }
    None
}

/// Index of the post row with this id, if any.
pub fn find_post_index(s: &Store, id: u64) -> (r: Option<usize>)
    requires
        s.wf(),
    ensures
        match r {
            Some(i) => i < s.posts@.len() && s.posts@[i as int].id == id && s.has_post_id(id)
                && s.post_with_id(id) == s.posts@[i as int],
            None => !s.has_post_id(id),
        },
{
    let mut i: usize = 0;
    while i < s.posts.len()
        invariant
            s.wf(),
            0 <= i <= s.posts@.len(),
            forall|j: int| 0 <= j < i ==> s.posts@[j].id != id,
        decreases s.posts@.len() - i,
    {
        if s.posts[i].id == id {
            proof {
                assert(s.has_post_id(id));
                let w = choose|k: int| 0 <= k < s.posts@.len() && s.posts@[k].id == id;
                lemma_post_id_unique(*s, w, i as int);
            }
            return Some(i);
        }
        i += 1;
    }
    None
}

/// Index of the user row with this email, if any.
pub fn find_user_by_email(s: &Store, email: &String) -> (r: Option<usize>)
    requires
        s.wf(),
    ensures
        match r {
            Some(i) => i < s.users@.len() && s.users@[i as int].email@ == email@
                && s.has_user_email(email@) && s.user_with_email(email@) == s.users@[i as int],
            None => !s.has_user_email(email@),
        },
{
    let mut i: usize = 0;
    while i < s.users.len()
        invariant
            s.wf(),
            0 <= i <= s.users@.len(),
            forall|j: int| 0 <= j < i ==> s.users@[j].email@ != email@,
        decreases s.users@.len() - i,
    {
        if s.users[i].email == *email {
            proof {
                assert(s.has_user_email(email@));
                let w = choose|k: int| 0 <= k < s.users@.len() && s.users@[k].email@ == email@;
                lemma_user_email_unique(*s, w, i as int);
            }
            return Some(i);
        }
        i += 1;
    }
    None
}

/// Index of the user row with this id, if any.
pub fn find_user_by_id(s: &Store, id: u64) -> (r: Option<usize>)
    requires
        s.wf(),
    ensures
        match r {
            Some(i) => i < s.users@.len() && s.users@[i as int].id == id && s.has_user_id(id)
                && s.user_with_id(id) == s.users@[i as int],
            None => !s.has_user_id(id),
        },
{
    let mut i: usize = 0;
    while i < s.users.len()
        invariant
            s.wf(),
            0 <= i <= s.users@.len(),
            forall|j: int| 0 <= j < i ==> s.users@[j].id != id,
        decreases s.users@.len() - i,
    {
        if s.users[i].id == id {
            proof {
                assert(s.has_user_id(id));
                let w = choose|k: int| 0 <= k < s.users@.len() && s.users@[k].id == id;
                lemma_user_id_unique(*s, w, i as int);
            }
            return Some(i);
        }
        i += 1;
    }
    None
}

/// The association row (post_id, tag_id) exists.
pub fn assoc_exists(s: &Store, post_id: u64, tag_id: u64) -> (r: bool)
    ensures
        r == s.has_assoc(post_id, tag_id),
{
    let mut i: usize = 0;
    while i < s.post_tags.len()
        invariant
            0 <= i <= s.post_tags@.len(),
            forall|j: int|
                0 <= j < i ==> !(s.post_tags@[j].post_id == post_id && s.post_tags@[j].tag_id
                    == tag_id),
        decreases s.post_tags@.len() - i,
    {
        if s.post_tags[i].post_id == post_id && s.post_tags[i].tag_id == tag_id {
            return true;
        }
        i += 1;
    }
    false
}

} // verus!
