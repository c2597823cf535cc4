use crate::store::{PostTag, Store, Tag, assoc_exists, find_tag_by_name, lemma_tag_id_unique, lemma_tag_name_unique};
use vstd::prelude::*;

verus! {

/// The desired-name list contains `n`.
pub open spec fn names_contain(names: Seq<String>, n: Seq<char>) -> bool {
    exists|k: int| 0 <= k < names.len() && names[k]@ == n
}

/// The name list carries no two strings with the same characters.
pub open spec fn names_distinct(names: Seq<String>) -> bool {
    forall|a: int, b: int| 0 <= a < b < names.len() ==> names[a]@ != names[b]@
}

/// The association rows contain the pair (p, t).
pub open spec fn rows_contain(rows: Seq<PostTag>, p: u64, t: u64) -> bool {
    exists|j: int| 0 <= j < rows.len() && rows[j].post_id == p && rows[j].tag_id == t
}

/// What one reconciliation call promises, relating the store before (`pre`)
/// and after (`post`) synchronising `post_id`'s associations to `names`:
/// the tag table grows by exactly the missing names and keeps every old row;
/// the post's association set becomes exactly the ids of the named tags,
/// hence its tag names become exactly the (deduplicated) names of the list;
/// every other post's associations, and every other table, are untouched.
pub open spec fn reconcile_spec(pre: Store, post: Store, post_id: u64, names: Seq<String>) -> bool {
    &&& post.wf()
    &&& (forall|n: Seq<char>| #[trigger]
        post.has_tag_named(n) <==> pre.has_tag_named(n) || names_contain(names, n))
    &&& pre.tags@.is_prefix_of(post.tags@)
    &&& (forall|t: u64| #[trigger]
        post.has_assoc(post_id, t) <==> exists|n: Seq<char>|
            names_contain(names, n) && post.has_tag(t, n))
    &&& (forall|n: Seq<char>| #[trigger]
        post.post_tag_names(post_id).contains(n) <==> names_contain(names, n))
    &&& (forall|p: u64, t: u64|
        p != post_id ==> (#[trigger] post.has_assoc(p, t) <==> pre.has_assoc(p, t)))
    &&& post.users@ == pre.users@
    &&& post.categories@ == pre.categories@
    &&& post.posts@ == pre.posts@
    &&& post.next_post_id == pre.next_post_id
    &&& pre.next_tag_id <= post.next_tag_id <= pre.next_tag_id + names.len()
}

/// The list holds some string whose characters equal `name`'s.
pub fn contains_name(names: &Vec<String>, name: &String) -> (r: bool)
    ensures
        r == names_contain(names@, name@),
{
    let mut k: usize = 0;
    while k < names.len()
        invariant
            0 <= k <= names@.len(),
            forall|j: int| 0 <= j < k ==> names@[j]@ != name@,
        decreases names@.len() - k,
    {
        if names[k] == *name {
            return true;
        }
        k += 1;
    }
    false
}

/// The id list holds `t`.
fn ids_contain(ids: &Vec<u64>, t: u64) -> (r: bool)
    ensures
        r == ids@.contains(t),
{
    let mut k: usize = 0;
    while k < ids.len()
        invariant
            0 <= k <= ids@.len(),
            forall|j: int| 0 <= j < k ==> ids@[j] != t,
        decreases ids@.len() - k,
    {
        if ids[k] == t {
            return true;
        }
        k += 1;
    }
    false
}

/// Upsert phase: insert one tag row per name not yet present; a name that
/// already has a row is skipped, so the call is idempotent.
pub fn insert_tags(s: &mut Store, names: &Vec<String>)
    requires
        old(s).wf(),
        old(s).next_tag_id + names@.len() <= u64::MAX,
    ensures
        final(s).wf(),
        forall|n: Seq<char>| #[trigger]
            final(s).has_tag_named(n) <==> old(s).has_tag_named(n) || names_contain(names@, n),
        old(s).tags@.is_prefix_of(final(s).tags@),
        final(s).users@ == old(s).users@,
        final(s).categories@ == old(s).categories@,
        final(s).posts@ == old(s).posts@,
        final(s).post_tags@ == old(s).post_tags@,
        final(s).next_post_id == old(s).next_post_id,
        old(s).next_tag_id <= final(s).next_tag_id <= old(s).next_tag_id + names@.len(),
{
    let mut k: usize = 0;
    while k < names.len()
        invariant
            s.wf(),
            0 <= k <= names@.len(),
            s.next_tag_id + (names@.len() - k) <= u64::MAX,
            forall|n: Seq<char>| #[trigger]
                s.has_tag_named(n) <==> old(s).has_tag_named(n) || exists|j: int|
                    0 <= j < k && names@[j]@ == n,
            old(s).tags@.is_prefix_of(s.tags@),
            s.users@ == old(s).users@,
            s.categories@ == old(s).categories@,
            s.posts@ == old(s).posts@,
            s.post_tags@ == old(s).post_tags@,
            s.next_post_id == old(s).next_post_id,
            old(s).next_tag_id <= s.next_tag_id <= old(s).next_tag_id + k,
        decreases names@.len() - k,
    {
        let name = &names[k];
        if find_tag_by_name(s, name).is_none() {
            let id = s.next_tag_id;
            let ghost pre = *s;
            s.tags.push(Tag { id, name: name.clone() });
            s.next_tag_id = s.next_tag_id + 1;
            proof {
                assert forall|a: int, b: int| 0 <= a < b < s.tags@.len() implies s.tags@[a].id
                    != s.tags@[b].id && s.tags@[a].name@ != s.tags@[b].name@ by {
                    if b == s.tags@.len() - 1 {
                        assert(s.tags@[a] == pre.tags@[a]);
                        if s.tags@[a].name@ == name@ {
                            assert(pre.has_tag_named(name@));
                        }
                    } else {
                        assert(s.tags@[a] == pre.tags@[a]);
                        assert(s.tags@[b] == pre.tags@[b]);
                    }
                }
                assert forall|i: int| 0 <= i < s.post_tags@.len() implies s.has_tag_id(
                    #[trigger] s.post_tags@[i].tag_id,
                ) by {
                    let w = choose|w: int|
                        0 <= w < pre.tags@.len() && pre.tags@[w].id == pre.post_tags@[i].tag_id;
                    assert(s.tags@[w] == pre.tags@[w]);
                }
                assert forall|n: Seq<char>| #[trigger] s.has_tag_named(n) implies (
                old(s).has_tag_named(n) || exists|j: int| 0 <= j < k + 1 && names@[j]@ == n) by {
                    let w = choose|w: int| 0 <= w < s.tags@.len() && s.tags@[w].name@ == n;
                    if w < pre.tags@.len() {
                        assert(pre.tags@[w] == s.tags@[w]);
                        assert(pre.has_tag_named(n));
                    } else {
                        assert(names@[k as int]@ == n);
                    }
                }
                assert forall|n: Seq<char>| (old(s).has_tag_named(n) || exists|j: int|
                    0 <= j < k + 1 && names@[j]@ == n) implies #[trigger] s.has_tag_named(n) by {
                    if old(s).has_tag_named(n) || (exists|j: int| 0 <= j < k && names@[j]@ == n) {
                        assert(pre.has_tag_named(n));
                        let w = choose|w: int|
                            0 <= w < pre.tags@.len() && pre.tags@[w].name@ == n;
                        assert(s.tags@[w] == pre.tags@[w]);
                    } else {
                        assert(s.tags@[s.tags@.len() - 1].name@ == name@);
                    }
                }
            }
        } else {
            proof {
                assert forall|n: Seq<char>| #[trigger] s.has_tag_named(n) <==> (
                old(s).has_tag_named(n) || exists|j: int| 0 <= j < k + 1 && names@[j]@ == n) by {
                    if !s.has_tag_named(n) && (exists|j: int| 0 <= j < k + 1 && names@[j]@ == n) {
                        let j = choose|j: int| 0 <= j < k + 1 && names@[j]@ == n;
                        assert(j == k || (0 <= j < k && names@[j]@ == n));
                    }
                }
            }
        }
        k += 1;
    }
}

/// Resolve phase: the ids of all tag rows whose name is in the desired
/// list. The result has no duplicate ids.
pub fn resolve_tag_ids(s: &Store, names: &Vec<String>) -> (ids: Vec<u64>)
    requires
        s.wf(),
    ensures
        forall|t: u64| #[trigger]
            ids@.contains(t) <==> exists|n: Seq<char>| names_contain(names@, n) && s.has_tag(t, n),
        forall|i: int, j: int| 0 <= i < j < ids@.len() ==> ids@[i] != ids@[j],
        forall|i: int| 0 <= i < ids@.len() ==> s.has_tag_id(#[trigger] ids@[i]),
{
    let mut ids: Vec<u64> = Vec::new();
    let mut i: usize = 0;
    while i < s.tags.len()
        invariant
            s.wf(),
            0 <= i <= s.tags@.len(),
            forall|t: u64| #[trigger]
                ids@.contains(t) <==> exists|j: int|
                    0 <= j < i && s.tags@[j].id == t && names_contain(names@, s.tags@[j].name@),
            forall|a: int, b: int| 0 <= a < b < ids@.len() ==> ids@[a] != ids@[b],
            forall|a: int| 0 <= a < ids@.len() ==> s.has_tag_id(#[trigger] ids@[a]),
        decreases s.tags@.len() - i,
    {
        if contains_name(names, &s.tags[i].name) {
            proof {
                if ids@.contains(s.tags@[i as int].id) {
                    let j = choose|j: int|
                        0 <= j < i && s.tags@[j].id == s.tags@[i as int].id && names_contain(
                            names@,
                            s.tags@[j].name@,
                        );
                    lemma_tag_id_unique(*s, j, i as int);
                }
            }
            let ghost pre_ids = ids@;
            ids.push(s.tags[i].id);
            proof {
                assert forall|t: u64| #[trigger] ids@.contains(t) <==> (exists|j: int|
                    0 <= j < i + 1 && s.tags@[j].id == t && names_contain(
                        names@,
                        s.tags@[j].name@,
                    )) by {
                    if ids@.contains(t) {
                        let a = choose|a: int| 0 <= a < ids@.len() && ids@[a] == t;
                        if a < pre_ids.len() {
                            assert(pre_ids.contains(t));
                        } else {
                            assert(t == s.tags@[i as int].id);
                        }
                    }
                    if exists|j: int|
                        0 <= j < i + 1 && s.tags@[j].id == t && names_contain(
                            names@,
                            s.tags@[j].name@,
                        ) {
                        let j = choose|j: int|
                            0 <= j < i + 1 && s.tags@[j].id == t && names_contain(
                                names@,
                                s.tags@[j].name@,
                            );
                        if j < i {
                            assert(pre_ids.contains(t));
                            let a = choose|a: int| 0 <= a < pre_ids.len() && pre_ids[a] == t;
                            assert(ids@[a] == t);
                        } else {
                            assert(ids@[ids@.len() - 1] == t);
                        }
                    }
                }
            }
        } else {
            proof {
                assert forall|t: u64| #[trigger] ids@.contains(t) <==> (exists|j: int|
                    0 <= j < i + 1 && s.tags@[j].id == t && names_contain(
                        names@,
                        s.tags@[j].name@,
                    )) by {
                    if !ids@.contains(t) && (exists|j: int|
                        0 <= j < i + 1 && s.tags@[j].id == t && names_contain(
                            names@,
                            s.tags@[j].name@,
                        )) {
                        let j = choose|j: int|
                            0 <= j < i + 1 && s.tags@[j].id == t && names_contain(
                                names@,
                                s.tags@[j].name@,
                            );
                        assert(0 <= j < i);
                    }
                }
            }
        }
        i += 1;
    }
    proof {
        assert forall|t: u64| #[trigger] ids@.contains(t) <==> (exists|n: Seq<char>|
            names_contain(names@, n) && s.has_tag(t, n)) by {
            if ids@.contains(t) {
                let j = choose|j: int|
                    0 <= j < s.tags@.len() && s.tags@[j].id == t && names_contain(
                        names@,
                        s.tags@[j].name@,
                    );
                assert(names_contain(names@, s.tags@[j].name@) && s.has_tag(t, s.tags@[j].name@));
            }
            if exists|n: Seq<char>| names_contain(names@, n) && s.has_tag(t, n) {
                let n = choose|n: Seq<char>| names_contain(names@, n) && s.has_tag(t, n);
                let j = choose|j: int|
                    0 <= j < s.tags@.len() && s.tags@[j].id == t && s.tags@[j].name@ == n;
                assert(0 <= j < s.tags@.len() && s.tags@[j].id == t && names_contain(
                    names@,
                    s.tags@[j].name@,
                ));
            }
        }
    }
    ids
}

/// Delete-then-insert phase: make the association rows of `post_id`
/// exactly one row per id in `ids`, touching no other post's rows.
pub fn associate_tags_with_post(s: &mut Store, post_id: u64, ids: &Vec<u64>)
    requires
        old(s).wf(),
        old(s).has_post_id(post_id),
        forall|i: int| 0 <= i < ids@.len() ==> old(s).has_tag_id(#[trigger] ids@[i]),
        forall|i: int, j: int| 0 <= i < j < ids@.len() ==> ids@[i] != ids@[j],
    ensures
        final(s).wf(),
        forall|t: u64| #[trigger] final(s).has_assoc(post_id, t) <==> ids@.contains(t),
        forall|p: u64, t: u64|
            p != post_id ==> (#[trigger] final(s).has_assoc(p, t) <==> old(s).has_assoc(p, t)),
        final(s).users@ == old(s).users@,
        final(s).categories@ == old(s).categories@,
        final(s).posts@ == old(s).posts@,
        final(s).tags@ == old(s).tags@,
        final(s).next_post_id == old(s).next_post_id,
        final(s).next_tag_id == old(s).next_tag_id,
{
    // Delete phase: keep a row unless it belongs to this post and its tag
    // is no longer desired.
    let mut kept: Vec<PostTag> = Vec::new();
    let mut i: usize = 0;
    while i < s.post_tags.len()
        invariant
            *s == *old(s),
            s.wf(),
            0 <= i <= s.post_tags@.len(),
            forall|p: u64, t: u64| #[trigger]
                rows_contain(kept@, p, t) <==> exists|j: int|
                    0 <= j < i && s.post_tags@[j].post_id == p && s.post_tags@[j].tag_id == t && (p
                        != post_id || ids@.contains(t)),
            forall|a: int, b: int|
                0 <= a < b < kept@.len() ==> !(kept@[a].post_id == kept@[b].post_id
                    && kept@[a].tag_id == kept@[b].tag_id),
            forall|a: int| 0 <= a < kept@.len() ==> s.has_tag_id(#[trigger] kept@[a].tag_id),
            forall|a: int| 0 <= a < kept@.len() ==> s.has_post_id(#[trigger] kept@[a].post_id),
        decreases s.post_tags@.len() - i,
    {
        let row_post = s.post_tags[i].post_id;
        let row_tag = s.post_tags[i].tag_id;
        if row_post != post_id || ids_contain(ids, row_tag) {
            proof {
                if rows_contain(kept@, row_post, row_tag) {
                    let j = choose|j: int|
                        0 <= j < i && s.post_tags@[j].post_id == row_post && s.post_tags@[j].tag_id
                            == row_tag && (row_post != post_id || ids@.contains(row_tag));
                    assert(!(s.post_tags@[j].post_id == s.post_tags@[i as int].post_id
                        && s.post_tags@[j].tag_id == s.post_tags@[i as int].tag_id));
                }
            }
            let ghost pre_kept = kept@;
            kept.push(PostTag { post_id: row_post, tag_id: row_tag });
            proof {
                assert(s.has_tag_id(s.post_tags@[i as int].tag_id));
                assert(s.has_post_id(s.post_tags@[i as int].post_id));
                assert forall|a: int| 0 <= a < kept@.len() implies s.has_tag_id(
                    #[trigger] kept@[a].tag_id,
                ) by {
                    if a < pre_kept.len() {
                        assert(kept@[a] == pre_kept[a]);
                        assert(s.has_tag_id(pre_kept[a].tag_id));
                    } else {
                        assert(kept@[a].tag_id == row_tag);
                        assert(s.has_tag_id(row_tag));
                    }
                }
                assert forall|a: int| 0 <= a < kept@.len() implies s.has_post_id(
                    #[trigger] kept@[a].post_id,
                ) by {
                    if a < pre_kept.len() {
                        assert(kept@[a] == pre_kept[a]);
                        assert(s.has_post_id(pre_kept[a].post_id));
                    } else {
                        assert(kept@[a].post_id == row_post);
                        assert(s.has_post_id(row_post));
                    }
                }
                assert forall|p: u64, t: u64| #[trigger] rows_contain(kept@, p, t) <==> (exists|
                    j: int,
                |
                    0 <= j < i + 1 && s.post_tags@[j].post_id == p && s.post_tags@[j].tag_id == t
                        && (p != post_id || ids@.contains(t))) by {
                    if rows_contain(kept@, p, t) {
                        let a = choose|a: int|
                            0 <= a < kept@.len() && kept@[a].post_id == p && kept@[a].tag_id == t;
                        if a < pre_kept.len() {
                            assert(rows_contain(pre_kept, p, t));
                        } else {
                            assert(s.post_tags@[i as int].post_id == p && s.post_tags@[i as int].tag_id
                                == t);
                        }
                    }
                    if exists|j: int|
                        0 <= j < i + 1 && s.post_tags@[j].post_id == p && s.post_tags@[j].tag_id
                            == t && (p != post_id || ids@.contains(t)) {
                        let j = choose|j: int|
                            0 <= j < i + 1 && s.post_tags@[j].post_id == p && s.post_tags@[j].tag_id
                                == t && (p != post_id || ids@.contains(t));
                        if j < i {
                            assert(rows_contain(pre_kept, p, t));
                            let a = choose|a: int|
                                0 <= a < pre_kept.len() && pre_kept[a].post_id == p
                                    && pre_kept[a].tag_id == t;
                            assert(kept@[a].post_id == p && kept@[a].tag_id == t);
                        } else {
                            assert(kept@[kept@.len() - 1].post_id == p && kept@[kept@.len()
                                - 1].tag_id == t);
                        }
                    }
                }
            }
        } else {
            proof {
                assert forall|p: u64, t: u64| #[trigger] rows_contain(kept@, p, t) <==> (exists|
                    j: int,
                |
                    0 <= j < i + 1 && s.post_tags@[j].post_id == p && s.post_tags@[j].tag_id == t
                        && (p != post_id || ids@.contains(t))) by {
                    if !rows_contain(kept@, p, t) && (exists|j: int|
                        0 <= j < i + 1 && s.post_tags@[j].post_id == p && s.post_tags@[j].tag_id
                            == t && (p != post_id || ids@.contains(t))) {
                        let j = choose|j: int|
                            0 <= j < i + 1 && s.post_tags@[j].post_id == p && s.post_tags@[j].tag_id
                                == t && (p != post_id || ids@.contains(t));
                        assert(0 <= j < i);
                    }
                }
            }
        }
        i += 1;
    }
    s.post_tags = kept;
    proof {
        assert(s.tags@ == old(s).tags@);
        assert(s.posts@ == old(s).posts@);
        assert(s.post_tags@ == kept@);
        assert forall|a: int| 0 <= a < s.post_tags@.len() implies s.has_tag_id(
            #[trigger] s.post_tags@[a].tag_id,
        ) by {
            assert(s.post_tags@[a] == kept@[a]);
            assert(old(s).has_tag_id(kept@[a].tag_id));
            assert(s.has_tag_id(kept@[a].tag_id));
        }
        assert forall|a: int| 0 <= a < s.post_tags@.len() implies s.has_post_id(
            #[trigger] s.post_tags@[a].post_id,
        ) by {
            assert(s.post_tags@[a] == kept@[a]);
            assert(old(s).has_post_id(kept@[a].post_id));
            assert(s.has_post_id(kept@[a].post_id));
        }
        assert forall|a: int, b: int| 0 <= a < b < s.post_tags@.len() implies !(
        s.post_tags@[a].post_id == s.post_tags@[b].post_id && s.post_tags@[a].tag_id
            == s.post_tags@[b].tag_id) by {
            assert(s.post_tags@[a] == kept@[a]);
            assert(s.post_tags@[b] == kept@[b]);
        }
        assert forall|i2: int| 0 <= i2 < ids@.len() implies s.has_tag_id(#[trigger] ids@[i2]) by {
            assert(old(s).has_tag_id(ids@[i2]));
        }
        assert(s.wf());
        assert(s.has_post_id(post_id));
        assert forall|t: u64| #[trigger] s.has_assoc(post_id, t) implies ids@.contains(t) by {
            assert(rows_contain(s.post_tags@, post_id, t));
        }
        assert forall|p: u64, t: u64| p != post_id implies (#[trigger] s.has_assoc(p, t)
            <==> old(s).has_assoc(p, t)) by {
            assert(s.has_assoc(p, t) == rows_contain(s.post_tags@, p, t));
            if old(s).has_assoc(p, t) {
                let j = choose|j: int|
                    0 <= j < old(s).post_tags@.len() && old(s).post_tags@[j].post_id == p && old(
                        s,
                    ).post_tags@[j].tag_id == t;
                assert(rows_contain(s.post_tags@, p, t));
            }
        }
    }
    // Insert phase: add the missing desired pairs; an existing pair stays.
    let mut k: usize = 0;
    while k < ids.len()
        invariant
            s.wf(),
            0 <= k <= ids@.len(),
            s.users@ == old(s).users@,
            s.categories@ == old(s).categories@,
            s.posts@ == old(s).posts@,
            s.tags@ == old(s).tags@,
            s.next_post_id == old(s).next_post_id,
            s.next_tag_id == old(s).next_tag_id,
            forall|i2: int| 0 <= i2 < ids@.len() ==> s.has_tag_id(#[trigger] ids@[i2]),
            s.has_post_id(post_id),
            forall|t: u64| #[trigger] s.has_assoc(post_id, t) ==> ids@.contains(t),
            forall|j: int| 0 <= j < k ==> s.has_assoc(post_id, #[trigger] ids@[j]),
            forall|p: u64, t: u64|
                p != post_id ==> (#[trigger] s.has_assoc(p, t) <==> old(s).has_assoc(p, t)),
        decreases ids@.len() - k,
    {
        let t = ids[k];
        if !assoc_exists(s, post_id, t) {
            let ghost pre = *s;
            s.post_tags.push(PostTag { post_id, tag_id: t });
            proof {
                assert(s.tags@ == pre.tags@);
                assert(s.posts@ == pre.posts@);
                assert forall|i2: int| 0 <= i2 < ids@.len() implies s.has_tag_id(
                    #[trigger] ids@[i2],
                ) by {
                    assert(pre.has_tag_id(ids@[i2]));
                }
                assert forall|a: int, b: int| 0 <= a < b < s.post_tags@.len() implies !(
                s.post_tags@[a].post_id == s.post_tags@[b].post_id && s.post_tags@[a].tag_id
                    == s.post_tags@[b].tag_id) by {
                    if b == s.post_tags@.len() - 1 {
                        assert(s.post_tags@[a] == pre.post_tags@[a]);
                        if s.post_tags@[a].post_id == post_id && s.post_tags@[a].tag_id == t {
                            assert(pre.has_assoc(post_id, t));
                        }
                    } else {
                        assert(s.post_tags@[a] == pre.post_tags@[a]);
                        assert(s.post_tags@[b] == pre.post_tags@[b]);
                    }
                }
                assert forall|p: u64, t2: u64| #[trigger] s.has_assoc(p, t2) implies (pre.has_assoc(
                    p,
                    t2,
                ) || (p == post_id && t2 == t)) by {
                    let j = choose|j: int|
                        0 <= j < s.post_tags@.len() && s.post_tags@[j].post_id == p
                            && s.post_tags@[j].tag_id == t2;
                    if j < pre.post_tags@.len() {
                        assert(pre.post_tags@[j] == s.post_tags@[j]);
                        assert(pre.has_assoc(p, t2));
                    }
                }
                assert forall|p: u64, t2: u64| pre.has_assoc(p, t2) implies #[trigger] s.has_assoc(
                    p,
                    t2,
                ) by {
                    let j = choose|j: int|
                        0 <= j < pre.post_tags@.len() && pre.post_tags@[j].post_id == p
                            && pre.post_tags@[j].tag_id == t2;
                    assert(s.post_tags@[j] == pre.post_tags@[j]);
                }
                assert(s.post_tags@[s.post_tags@.len() - 1].post_id == post_id
                    && s.post_tags@[s.post_tags@.len() - 1].tag_id == t);
                assert(s.has_assoc(post_id, t));
                assert(ids@.contains(t)) by {
                    assert(ids@[k as int] == t);
                }
                assert forall|a: int| 0 <= a < s.post_tags@.len() implies s.has_tag_id(
                    #[trigger] s.post_tags@[a].tag_id,
                ) && s.has_post_id(s.post_tags@[a].post_id) by {
                    if a < pre.post_tags@.len() {
                        assert(s.post_tags@[a] == pre.post_tags@[a]);
                        assert(pre.has_tag_id(pre.post_tags@[a].tag_id));
                        assert(pre.has_post_id(pre.post_tags@[a].post_id));
                    } else {
                        assert(s.has_tag_id(ids@[k as int]));
                    }
                }
            }
        }
        k += 1;
    }
    proof {
        assert forall|t: u64| ids@.contains(t) implies #[trigger] s.has_assoc(post_id, t) by {
            let j = choose|j: int| 0 <= j < ids@.len() && ids@[j] == t;
            assert(s.has_assoc(post_id, ids@[j]));
        }
    }
}


/// Stores with the same tag rows agree on every tag query.
pub proof fn lemma_same_tags(a: Store, b: Store)
    requires
        a.tags@ == b.tags@,
    ensures
        forall|t: u64, n: Seq<char>|
            #![trigger a.has_tag(t, n)]
            #![trigger b.has_tag(t, n)]
            a.has_tag(t, n) == b.has_tag(t, n),
        forall|n: Seq<char>|
            #![trigger a.has_tag_named(n)]
            #![trigger b.has_tag_named(n)]
            a.has_tag_named(n) == b.has_tag_named(n),
        forall|t: u64|
            #![trigger a.has_tag_id(t)]
            #![trigger b.has_tag_id(t)]
            a.has_tag_id(t) == b.has_tag_id(t),
{
    assert forall|t: u64, n: Seq<char>|
        #![trigger a.has_tag(t, n)]
        #![trigger b.has_tag(t, n)]
        a.has_tag(t, n) == b.has_tag(t, n) by {
        if a.has_tag(t, n) {
            let i = choose|i: int|
                0 <= i < a.tags@.len() && a.tags@[i].id == t && a.tags@[i].name@ == n;
            assert(b.tags@[i].id == t && b.tags@[i].name@ == n);
        }
        if b.has_tag(t, n) {
            let i = choose|i: int|
                0 <= i < b.tags@.len() && b.tags@[i].id == t && b.tags@[i].name@ == n;
            assert(a.tags@[i].id == t && a.tags@[i].name@ == n);
        }
    }
    assert forall|n: Seq<char>|
        #![trigger a.has_tag_named(n)]
        #![trigger b.has_tag_named(n)]
        a.has_tag_named(n) == b.has_tag_named(n) by {
        if a.has_tag_named(n) {
            let i = choose|i: int| 0 <= i < a.tags@.len() && a.tags@[i].name@ == n;
            assert(b.tags@[i].name@ == n);
        }
        if b.has_tag_named(n) {
            let i = choose|i: int| 0 <= i < b.tags@.len() && b.tags@[i].name@ == n;
            assert(a.tags@[i].name@ == n);
        }
    }
    assert forall|t: u64|
        #![trigger a.has_tag_id(t)]
        #![trigger b.has_tag_id(t)]
        a.has_tag_id(t) == b.has_tag_id(t) by {
        if a.has_tag_id(t) {
            let i = choose|i: int| 0 <= i < a.tags@.len() && a.tags@[i].id == t;
            assert(b.tags@[i].id == t);
        }
        if b.has_tag_id(t) {
            let i = choose|i: int| 0 <= i < b.tags@.len() && b.tags@[i].id == t;
            assert(a.tags@[i].id == t);
        }
    }
}

/// Stores with the same association rows agree on every association query.
pub proof fn lemma_same_assocs(a: Store, b: Store)
    requires
        a.post_tags@ == b.post_tags@,
    ensures
        forall|p: u64, t: u64|
            #![trigger a.has_assoc(p, t)]
            #![trigger b.has_assoc(p, t)]
            a.has_assoc(p, t) == b.has_assoc(p, t),
{
    assert forall|p: u64, t: u64|
        #![trigger a.has_assoc(p, t)]
        #![trigger b.has_assoc(p, t)]
        a.has_assoc(p, t) == b.has_assoc(p, t) by {
        if a.has_assoc(p, t) {
            let i = choose|i: int|
                0 <= i < a.post_tags@.len() && a.post_tags@[i].post_id == p
                    && a.post_tags@[i].tag_id == t;
            assert(b.post_tags@[i].post_id == p && b.post_tags@[i].tag_id == t);
        }
        if b.has_assoc(p, t) {
            let i = choose|i: int|
                0 <= i < b.post_tags@.len() && b.post_tags@[i].post_id == p
                    && b.post_tags@[i].tag_id == t;
            assert(a.post_tags@[i].post_id == p && a.post_tags@[i].tag_id == t);
        }
    }
}

/// The Tag Reconciler: upsert the missing tag rows, resolve the desired
/// ids, delete stale association rows, insert missing ones. One call makes
/// the post's tag relation exactly match the desired name list.
pub fn reconcile_post_tags(s: &mut Store, post_id: u64, names: &Vec<String>)
    requires
        old(s).wf(),
        old(s).has_post_id(post_id),
        old(s).next_tag_id + names@.len() <= u64::MAX,
    ensures
        reconcile_spec(*old(s), *final(s), post_id, names@),
{
    insert_tags(s, names);
    proof {
        assert(s.has_post_id(post_id)) by {
            let w = choose|w: int|
                0 <= w < old(s).posts@.len() && old(s).posts@[w].id == post_id;
            assert(s.posts@[w].id == post_id);
        }
    }
    let ghost s1 = *s;
    let ids = resolve_tag_ids(s, names);
    associate_tags_with_post(s, post_id, &ids);
    proof {
        assert(s.tags@ == s1.tags@);
        lemma_same_tags(*s, s1);
        assert(s1.post_tags@ == old(s).post_tags@);
        lemma_same_assocs(s1, *old(s));
        assert forall|t: u64| #[trigger] s.has_assoc(post_id, t) <==> (exists|n: Seq<char>|
            names_contain(names@, n) && s.has_tag(t, n)) by {
            if s.has_assoc(post_id, t) {
                assert(ids@.contains(t));
                let n = choose|n: Seq<char>| names_contain(names@, n) && s1.has_tag(t, n);
                assert(s.has_tag(t, n));
            }
            if exists|n: Seq<char>| names_contain(names@, n) && s.has_tag(t, n) {
                let n = choose|n: Seq<char>| names_contain(names@, n) && s.has_tag(t, n);
                assert(s1.has_tag(t, n));
                assert(ids@.contains(t));
            }
        }
        assert forall|n: Seq<char>| #[trigger] s.post_tag_names(post_id).contains(n)
            <==> names_contain(names@, n) by {
            if s.post_tag_names(post_id).contains(n) {
                let t = choose|t: u64| s.has_assoc(post_id, t) && s.has_tag(t, n);
                assert(s.has_assoc(post_id, t));
                let n2 = choose|n2: Seq<char>| names_contain(names@, n2) && s.has_tag(t, n2);
                let i1 = choose|i: int|
                    0 <= i < s.tags@.len() && s.tags@[i].id == t && s.tags@[i].name@ == n;
                let i2 = choose|i: int|
                    0 <= i < s.tags@.len() && s.tags@[i].id == t && s.tags@[i].name@ == n2;
                lemma_tag_id_unique(*s, i1, i2);
                assert(n == n2);
            }
            if names_contain(names@, n) {
                assert(s1.has_tag_named(n));
                assert(s.has_tag_named(n));
                let i = choose|i: int| 0 <= i < s.tags@.len() && s.tags@[i].name@ == n;
                let t = s.tags@[i].id;
                assert(s.has_tag(t, n));
                assert(s1.has_tag(t, n));
                assert(ids@.contains(t));
                assert(s.has_assoc(post_id, t));
                assert(s.post_tag_names(post_id).contains(n));
            }
        }
        assert forall|n: Seq<char>| #[trigger] s.has_tag_named(n) <==> (old(s).has_tag_named(n)
            || names_contain(names@, n)) by {
            assert(s1.has_tag_named(n) <==> old(s).has_tag_named(n) || names_contain(names@, n));
            assert(s.has_tag_named(n) == s1.has_tag_named(n));
        }
        assert forall|p: u64, t: u64| p != post_id implies (#[trigger] s.has_assoc(p, t)
            <==> old(s).has_assoc(p, t)) by {
            assert(s.has_assoc(p, t) <==> s1.has_assoc(p, t));
            assert(s1.has_assoc(p, t) <==> old(s).has_assoc(p, t));
        }
        assert(old(s).tags@.is_prefix_of(s.tags@)) by {
            assert(old(s).tags@.is_prefix_of(s1.tags@));
        }
    }
}

/// If a well-formed store's tag table extends another's and carries no
/// name beyond it, the two tables are identical.
pub proof fn lemma_tags_saturated(a: Store, b: Store)
    requires
        b.wf(),
        a.tags@.is_prefix_of(b.tags@),
        forall|n: Seq<char>| #[trigger] b.has_tag_named(n) ==> a.has_tag_named(n),
    ensures
        a.tags@ == b.tags@,
{
    if a.tags@.len() < b.tags@.len() {
        let i = a.tags@.len() as int;
        let n = b.tags@[i].name@;
        assert(b.has_tag_named(n));
        assert(a.has_tag_named(n));
        let j = choose|j: int| 0 <= j < a.tags@.len() && a.tags@[j].name@ == n;
        assert(a.tags@[j] == b.tags@[j]);
        assert(b.tags@[j].name@ == n);
        lemma_tag_name_unique(b, j, i);
        assert(false);
    }
    assert(a.tags@ =~= b.tags@);
}

/// Law: one reconciliation leaves the post associated with exactly the
/// deduplicated names of the desired list — no stale entries, no
/// duplicates, nothing missing.
pub proof fn lemma_reconcile_exact_names(
    pre: Store,
    post: Store,
    post_id: u64,
    names: Seq<String>,
)
    requires
        reconcile_spec(pre, post, post_id, names),
    ensures
        forall|n: Seq<char>| #[trigger]
            post.post_tag_names(post_id).contains(n) <==> names_contain(names, n),
{
}

/// Law: reconciling a post twice with the same name list changes nothing
/// the second time — the tag table and every association are already in
/// their final state after the first call.
pub proof fn lemma_reconcile_idempotent(
    s0: Store,
    s1: Store,
    s2: Store,
    post_id: u64,
    names: Seq<String>,
)
    requires
        s0.wf(),
        reconcile_spec(s0, s1, post_id, names),
        reconcile_spec(s1, s2, post_id, names),
    ensures
        s2.tags@ == s1.tags@,
        forall|p: u64, t: u64|
            #![trigger s2.has_assoc(p, t)]
            #![trigger s1.has_assoc(p, t)]
            s2.has_assoc(p, t) == s1.has_assoc(p, t),
        forall|n: Seq<char>| #[trigger]
            s2.post_tag_names(post_id).contains(n) == s1.post_tag_names(post_id).contains(n),
{
    assert forall|n: Seq<char>| #[trigger] s2.has_tag_named(n) implies s1.has_tag_named(n) by {
        assert(s2.has_tag_named(n) <==> s1.has_tag_named(n) || names_contain(names, n));
        assert(s1.has_tag_named(n) <==> s0.has_tag_named(n) || names_contain(names, n));
    }
    lemma_tags_saturated(s1, s2);
    lemma_same_tags(s1, s2);
    assert forall|p: u64, t: u64|
        #![trigger s2.has_assoc(p, t)]
        #![trigger s1.has_assoc(p, t)]
        s2.has_assoc(p, t) == s1.has_assoc(p, t) by {
        if p != post_id {
            assert(s2.has_assoc(p, t) <==> s1.has_assoc(p, t));
        } else {
            if s2.has_assoc(post_id, t) {
                let n = choose|n: Seq<char>| names_contain(names, n) && s2.has_tag(t, n);
                assert(s1.has_tag(t, n));
            }
            if s1.has_assoc(post_id, t) {
                let n = choose|n: Seq<char>| names_contain(names, n) && s1.has_tag(t, n);
                assert(s2.has_tag(t, n));
            }
        }
    }
    assert forall|n: Seq<char>| #[trigger] s2.post_tag_names(post_id).contains(n)
        == s1.post_tag_names(post_id).contains(n) by {
        assert(s2.post_tag_names(post_id).contains(n) <==> names_contain(names, n));
        assert(s1.post_tag_names(post_id).contains(n) <==> names_contain(names, n));
    }
}

/// Law: after a second reconciliation whose name list is a subset of the
/// first's, exactly the subset stays associated; the names dropped by the
/// second list lose their association but keep their tag rows.
pub proof fn lemma_reconcile_subset(
    s0: Store,
    s1: Store,
    s2: Store,
    post_id: u64,
    names1: Seq<String>,
    names2: Seq<String>,
)
    requires
        s0.wf(),
        reconcile_spec(s0, s1, post_id, names1),
        reconcile_spec(s1, s2, post_id, names2),
        forall|k: int| 0 <= k < names2.len() ==> names_contain(names1, #[trigger] names2[k]@),
    ensures
        forall|n: Seq<char>| #[trigger]
            s2.post_tag_names(post_id).contains(n) <==> names_contain(names2, n),
        forall|n: Seq<char>|
            names_contain(names1, n) && !names_contain(names2, n) ==> !(
            #[trigger] s2.post_tag_names(post_id).contains(n)),
        forall|n: Seq<char>| names_contain(names1, n) ==> #[trigger] s2.has_tag_named(n),
{
    assert forall|n: Seq<char>| names_contain(names1, n) implies #[trigger] s2.has_tag_named(
        n,
    ) by {
        assert(s1.has_tag_named(n));
        assert(s2.has_tag_named(n) <==> s1.has_tag_named(n) || names_contain(names2, n));
    }
}

/// The tag-join a read path performs: the names of all tags associated
/// with a post, one entry per tag row, in tag-table order, no duplicates.
pub fn tags_of_post(s: &Store, post_id: u64) -> (r: Vec<String>)
    requires
        s.wf(),
    ensures
        forall|n: Seq<char>| #[trigger]
            s.post_tag_names(post_id).contains(n) <==> names_contain(r@, n),
        names_distinct(r@),
{
    let mut r: Vec<String> = Vec::new();
    let ghost mut src: Seq<int> = Seq::empty();
    let mut i: usize = 0;
    while i < s.tags.len()
        invariant
            s.wf(),
            0 <= i <= s.tags@.len(),
            r@.len() == src.len(),
            forall|k: int|
                0 <= k < src.len() ==> 0 <= #[trigger] src[k] < i && s.tags@[src[k]].name@
                    == r@[k]@ && s.has_assoc(post_id, s.tags@[src[k]].id),
            forall|j: int|
                0 <= j < i && s.has_assoc(post_id, #[trigger] s.tags@[j].id) ==> names_contain(
                    r@,
                    s.tags@[j].name@,
                ),
            forall|a: int, b: int| 0 <= a < b < r@.len() ==> r@[a]@ != r@[b]@,
        decreases s.tags@.len() - i,
    {
        if assoc_exists(s, post_id, s.tags[i].id) {
            proof {
                if names_contain(r@, s.tags@[i as int].name@) {
                    let k = choose|k: int|
                        0 <= k < r@.len() && r@[k]@ == s.tags@[i as int].name@;
                    lemma_tag_name_unique(*s, src[k], i as int);
                }
            }
            let ghost pre = r@;
            r.push(s.tags[i].name.clone());
            proof {
                src = src.push(i as int);
                assert(r@[r@.len() - 1]@ == s.tags@[i as int].name@);
                assert forall|k: int| 0 <= k < src.len() implies 0 <= #[trigger] src[k] < i + 1
                    && s.tags@[src[k]].name@ == r@[k]@ && s.has_assoc(
                    post_id,
                    s.tags@[src[k]].id,
                ) by {
                    if k < pre.len() {
                        assert(r@[k] == pre[k]);
                    }
                }
                assert forall|j: int| 0 <= j < i + 1 && s.has_assoc(
                    post_id,
                    #[trigger] s.tags@[j].id,
                ) implies names_contain(r@, s.tags@[j].name@) by {
                    if j < i {
                        assert(names_contain(pre, s.tags@[j].name@));
                        let k = choose|k: int| 0 <= k < pre.len() && pre[k]@ == s.tags@[j].name@;
                        assert(r@[k]@ == s.tags@[j].name@);
                    } else {
                        assert(r@[r@.len() - 1]@ == s.tags@[j].name@);
                    }
                }
                assert forall|a: int, b: int| 0 <= a < b < r@.len() implies r@[a]@ != r@[b]@ by {
                    if b < pre.len() {
                        assert(r@[a] == pre[a]);
                        assert(r@[b] == pre[b]);
                    } else {
                        assert(r@[a] == pre[a]);
                        assert(!names_contain(pre, s.tags@[i as int].name@));
                    }
                }
            }
        } else {
            proof {
                assert forall|j: int| 0 <= j < i + 1 && s.has_assoc(
                    post_id,
                    #[trigger] s.tags@[j].id,
                ) implies names_contain(r@, s.tags@[j].name@) by {
                    assert(j < i || !s.has_assoc(post_id, s.tags@[j].id));
                }
            }
        }
        i += 1;
    }
    proof {
        assert forall|n: Seq<char>| #[trigger] s.post_tag_names(post_id).contains(n) implies
            names_contain(r@, n) by {
            let t = choose|t: u64| s.has_assoc(post_id, t) && s.has_tag(t, n);
            let j = choose|j: int|
                0 <= j < s.tags@.len() && s.tags@[j].id == t && s.tags@[j].name@ == n;
            assert(s.has_assoc(post_id, s.tags@[j].id));
        }
        assert forall|n: Seq<char>| names_contain(r@, n) implies #[trigger] s.post_tag_names(
            post_id,
        ).contains(n) by {
            let k = choose|k: int| 0 <= k < r@.len() && r@[k]@ == n;
            let j = src[k];
            assert(s.has_assoc(post_id, s.tags@[j].id) && s.has_tag(s.tags@[j].id, n));
        }
    }
    r
}

} // verus!
