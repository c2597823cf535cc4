use crate::admin_posts::{
    ModifyPostRequest, PostResponse, admin_response_matches, create_post, create_spec, get_post,
    post_not_found_msg, update_post, update_spec,
};
use crate::auth::{Claims, UserInfo, authenticate, session_valid, unauthorized_msg};
use crate::errors::{AppError, STATUS_NOT_FOUND, STATUS_UNAUTHORIZED};
use crate::store::{Category, Post, Store, User, find_user_by_id};
use vstd::prelude::*;

verus! {

/// The message a missing user answers with.
pub open spec fn user_not_found_msg() -> Seq<char> {
    "User not found "@
}

/// The profile columns `/me` answers with.
pub struct CurrentUserResponse {
    pub id: u64,
    pub name: String,
    pub email: String,
    pub avatar: Option<String>,
}

impl From<User> for CurrentUserResponse {
    fn from(user: User) -> (ret: Self) {
        CurrentUserResponse { id: user.id, name: user.name, email: user.email, avatar: user.avatar }
    }
}

impl vstd::std_specs::convert::FromSpecImpl<User> for CurrentUserResponse {
    open spec fn obeys_from_spec() -> bool {
        true
    }

    open spec fn from_spec(user: User) -> Self {
        CurrentUserResponse { id: user.id, name: user.name, email: user.email, avatar: user.avatar }
    }
}

/// The response carries exactly the profile columns of the user with this
/// id.
pub open spec fn current_user_matches(s: Store, id: u64, u: CurrentUserResponse) -> bool {
    &&& u.id == s.user_with_id(id).id
    &&& u.name == s.user_with_id(id).name
    &&& u.email == s.user_with_id(id).email
    &&& u.avatar == s.user_with_id(id).avatar
}

/// A field-by-field copy of a user row.
fn clone_user(u: &User) -> (r: User)
    ensures
        r == *u,
{
    User {
        id: u.id,
        name: u.name.clone(),
        email: u.email.clone(),
        password_hash: u.password_hash.clone(),
        avatar: match &u.avatar {
            Some(a) => Some(a.clone()),
            None => None,
        },
    }
}

/// `GET /admin/categories`: every category row.
pub fn get_categories(s: &Store) -> (r: Vec<Category>)
    ensures
        r@ == s.categories@,
{
    let mut r: Vec<Category> = Vec::new();
    let mut i: usize = 0;
    while i < s.categories.len()
        invariant
            0 <= i <= s.categories@.len(),
            r@.len() == i,
            forall|j: int| 0 <= j < i ==> #[trigger] r@[j] == s.categories@[j],
        decreases s.categories@.len() - i,
    {
        r.push(Category { id: s.categories[i].id, name: s.categories[i].name.clone() });
        i += 1;
    }
    proof {
        assert(r@ =~= s.categories@);
    }
    r
}

/// `GET /me`: the profile of the authenticated user, or 404 when its row
/// is gone.
pub fn get_current_user_info(s: &Store, user_info: UserInfo) -> (r: Result<
    CurrentUserResponse,
    AppError,
>)
    requires
        s.wf(),
    ensures
        r is Ok <==> s.has_user_id(user_info.id),
        r matches Ok(u) ==> current_user_matches(*s, user_info.id, u),
        r matches Err(e) ==> (e.status == STATUS_NOT_FOUND && e.message@ == user_not_found_msg()),
{
    let i = match find_user_by_id(s, user_info.id) {
        Some(i) => i,
        None => {
            return Err(AppError::new(STATUS_NOT_FOUND, "User not found ".to_owned()));
        },
    };
    let user = clone_user(&s.users[i]);
    Ok(CurrentUserResponse::from(user))
}

/// One request to an `/admin`-prefixed route (or `/me`), as the router
/// hands it past the session gate.
pub enum AdminRequest {
    GetPost { id: u64 },
    CreatePost { payload: ModifyPostRequest },
    UpdatePost { id: u64, payload: ModifyPostRequest },
    GetCategories,
    GetCurrentUser,
}

/// What a handled admin request answers with.
pub enum AdminResponse {
    Fetched(PostResponse),
    Created(Post),
    Updated(Post),
    Categories(Vec<Category>),
    CurrentUser(CurrentUserResponse),
}

/// The machine bounds a request must respect so that freshly allocated
/// identifiers cannot overflow.
pub open spec fn admin_request_fits(s: Store, req: AdminRequest) -> bool {
    match req {
        AdminRequest::CreatePost { payload } => s.next_post_id < u64::MAX && s.next_tag_id
            + payload.tags@.len() <= u64::MAX,
        AdminRequest::UpdatePost { id: _, payload } => s.next_tag_id + payload.tags@.len()
            <= u64::MAX,
        _ => true,
    }
}

/// What each admin request does once the session gate has admitted it,
/// with `sub` the authenticated subject.
pub open spec fn admin_spec(
    pre: Store,
    post: Store,
    sub: u64,
    now: u64,
    req: AdminRequest,
    r: Result<AdminResponse, AppError>,
) -> bool {
    match req {
        AdminRequest::GetPost { id } => {
            &&& post == pre
            &&& (r is Ok <==> pre.has_post_id(id))
            &&& (r matches Ok(resp) ==> (resp matches AdminResponse::Fetched(pr)
                && admin_response_matches(pre, pre.post_with_id(id), pr)))
            &&& (r matches Err(e) ==> (e.status == STATUS_NOT_FOUND && e.message@
                == post_not_found_msg()))
        },
        AdminRequest::CreatePost { payload } => {
            &&& (r matches Ok(resp) && resp matches AdminResponse::Created(p) && create_spec(
                pre,
                post,
                UserInfo { id: sub },
                payload,
                now,
                p,
            ))
        },
        AdminRequest::UpdatePost { id, payload } => {
            &&& (r is Ok <==> pre.has_post_id(id))
            &&& (!pre.has_post_id(id) ==> post == pre)
            &&& (r matches Err(e) ==> (e.status == STATUS_NOT_FOUND && e.message@
                == post_not_found_msg()))
            &&& (r matches Ok(resp) ==> (resp matches AdminResponse::Updated(p) && update_spec(
                pre,
                post,
                id,
                payload,
                now,
                Ok(p),
            )))
        },
        AdminRequest::GetCategories => {
            &&& post == pre
            &&& (r matches Ok(resp) && resp matches AdminResponse::Categories(cs) && cs@
                == pre.categories@)
        },
        AdminRequest::GetCurrentUser => {
            &&& post == pre
            &&& (r is Ok <==> pre.has_user_id(sub))
            &&& (r matches Ok(resp) ==> (resp matches AdminResponse::CurrentUser(u)
                && current_user_matches(pre, sub, u)))
            &&& (r matches Err(e) ==> (e.status == STATUS_NOT_FOUND && e.message@
                == user_not_found_msg()))
        },
    }
}

/// The authenticated pipeline for every admin route: the session gate
/// first, then the handler. Without a live session the request is turned
/// away with the generic rejection and the store is untouched — no
/// handler runs.
pub fn handle_admin_request(
    s: &mut Store,
    claims: Option<Claims>,
    now: u64,
    req: AdminRequest,
) -> (r: Result<AdminResponse, AppError>)
    requires
        old(s).wf(),
        admin_request_fits(*old(s), req),
    ensures
        final(s).wf(),
        !session_valid(claims, now) ==> *final(s) == *old(s),
        !session_valid(claims, now) ==> (r matches Err(e) && e.status == STATUS_UNAUTHORIZED
            && e.message@ == unauthorized_msg()),
        session_valid(claims, now) ==> admin_spec(
            *old(s),
            *final(s),
            claims->Some_0.sub,
            now,
            req,
            r,
        ),
{
    let user = match authenticate(claims, now) {
        Ok(u) => u,
        Err(e) => {
            return Err(e);
        },
    };
    match req {
        AdminRequest::GetPost { id } => {
            match get_post(s, id) {
                Ok(pr) => Ok(AdminResponse::Fetched(pr)),
                Err(e) => Err(e),
            }
        },
        AdminRequest::CreatePost { payload } => {
            let p = create_post(s, user, &payload, now);
            Ok(AdminResponse::Created(p))
        },
        AdminRequest::UpdatePost { id, payload } => {
            match update_post(s, id, &payload, now) {
                Ok(p) => Ok(AdminResponse::Updated(p)),
                Err(e) => Err(e),
            }
        },
        AdminRequest::GetCategories => Ok(AdminResponse::Categories(get_categories(s))),
        AdminRequest::GetCurrentUser => {
            match get_current_user_info(s, user) {
                Ok(u) => Ok(AdminResponse::CurrentUser(u)),
                Err(e) => Err(e),
            }
        },
    }
}

} // verus!
