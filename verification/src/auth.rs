use crate::errors::{AppError, STATUS_BAD_REQUEST, STATUS_UNAUTHORIZED};
use crate::store::{Store, find_user_by_email, lemma_user_email_unique};
use vstd::prelude::*;

verus! {

/// How long a session lives, in seconds: one hour.
pub const SESSION_LIFETIME_SECS: u64 = 3600;

/// The body of a login request.
pub struct LoginRequestPayload {
    pub email: String,
    pub password: String,
}

/// The profile columns a successful login reads.
pub struct LoginResponse {
    pub id: u64,
    pub name: String,
    pub email: String,
    pub avatar: Option<String>,
}

/// The claims carried inside a signed session token: subject (user id),
/// expiry and issue time as unix seconds.
#[derive(Clone, Copy)]
pub struct Claims {
    pub sub: u64,
    pub exp: u64,
    pub iat: u64,
}

/// The authenticated identity the session gate injects for handlers.
#[derive(Clone, Copy)]
pub struct UserInfo {
    pub id: u64,
}

/// What bcrypt's check of a password against a stored hash returns: the
/// salt and cost are read back out of the hash, so the outcome depends on
/// the two arguments alone. `None` stands for a malformed stored hash.
pub uninterp spec fn bcrypt_verify_of(password: Seq<char>, hash: Seq<char>) -> Option<bool>;

/// Relies on bcrypt::verify: it re-hashes `password` with the salt and
/// cost parsed from `hash` and compares; it errs only when the stored
/// hash cannot be used (malformed, or its cost out of range).
#[verifier::external_body]
fn bcrypt_verify(password: &str, hash: &str) -> (r: Option<bool>)
    ensures
        r == bcrypt_verify_of(password@, hash@),
{
    bcrypt::verify(password, hash).ok()
}

/// Relies on chrono::Utc::now: the current unix time in seconds. The
/// value depends on the clock; chrono's bounded date range (years within
/// about plus or minus 262000) keeps the magnitude of the timestamp far
/// inside i64's positive range.
#[verifier::external_body]
fn now_unix() -> (r: u64)
    ensures
        r <= i64::MAX as u64,
{
    chrono::Utc::now().timestamp().unsigned_abs()
}

/// The supplied credentials match a stored user: a row carries exactly
/// this email and bcrypt accepts the password against its stored hash.
pub open spec fn credentials_ok(s: Store, email: Seq<char>, password: Seq<char>) -> bool {
    exists|i: int|
        0 <= i < s.users@.len() && s.users@[i].email@ == email && bcrypt_verify_of(
            password,
            s.users@[i].password_hash@,
        ) == Some(true)
}

/// The one message every credential failure carries, so that a caller
/// cannot tell an unknown email from a wrong password.
pub open spec fn invalid_credentials_msg() -> Seq<char> {
    "Invalid email or password"@
}

/// The message for a request whose body could not be read as a login
/// payload.
pub open spec fn invalid_payload_msg() -> Seq<char> {
    "Invalid payload"@
}

/// The message for a login payload with an empty email or password.
pub open spec fn missing_credentials_msg() -> Seq<char> {
    "Email and password are required"@
}

/// The message the session gate answers with.
pub open spec fn unauthorized_msg() -> Seq<char> {
    "Unauthorized"@
}

/// The whole contract of a login attempt at time `now`: success exactly on
/// matching credentials, with pinned claims; each failure with its pinned
/// status and message.
pub open spec fn login_spec(
    s: Store,
    payload: Option<LoginRequestPayload>,
    now: u64,
    r: Result<Claims, AppError>,
) -> bool {
    &&& (r is Ok <==> (payload matches Some(p) && p.email@.len() > 0 && p.password@.len() > 0
        && credentials_ok(s, p.email@, p.password@)))
    &&& (r matches Ok(c) ==> (c.sub == s.user_with_email(payload->Some_0.email@).id && c.iat
        == now && c.exp == now + SESSION_LIFETIME_SECS))
    &&& (payload is None ==> (r matches Err(e) && e.status == STATUS_BAD_REQUEST && e.message@
        == invalid_payload_msg()))
    &&& (payload matches Some(p) && (p.email@.len() == 0 || p.password@.len() == 0) ==> (
    r matches Err(e) && e.status == STATUS_BAD_REQUEST && e.message@ == missing_credentials_msg()))
    &&& (payload matches Some(p) && p.email@.len() > 0 && p.password@.len() > 0
        && !credentials_ok(s, p.email@, p.password@) ==> (r matches Err(e) && e.status
        == STATUS_UNAUTHORIZED && e.message@ == invalid_credentials_msg()))
}

/// The Credential Verifier at an explicit time: reject an unreadable or
/// incomplete payload, look the email up, check the password against the
/// stored hash, and on success issue claims valid for one hour from `now`.
pub fn verify_login_at(s: &Store, payload_r: Option<LoginRequestPayload>, now: u64) -> (r: Result<
    Claims,
    AppError,
>)
    requires
        s.wf(),
        now + SESSION_LIFETIME_SECS <= u64::MAX,
    ensures
        login_spec(*s, payload_r, now, r),
{
    let payload = match payload_r {
        Some(p) => p,
        None => {
            return Err(AppError::new(STATUS_BAD_REQUEST, "Invalid payload".to_owned()));
        },
    };
    if payload.email.as_str().is_empty() || payload.password.as_str().is_empty() {
        return Err(
            AppError::new(STATUS_BAD_REQUEST, "Email and password are required".to_owned()),
        );
    }
    let user_index = match find_user_by_email(s, &payload.email) {
        Some(i) => i,
        None => {
            proof {
                if credentials_ok(*s, payload.email@, payload.password@) {
                    let w = choose|w: int|
                        0 <= w < s.users@.len() && s.users@[w].email@ == payload.email@
                            && bcrypt_verify_of(payload.password@, s.users@[w].password_hash@)
                            == Some(true);
                    assert(s.has_user_email(payload.email@));
                }
            }
            return Err(
                AppError::new(STATUS_UNAUTHORIZED, "Invalid email or password".to_owned()),
            );
        },
    };
    let matched = bcrypt_verify(payload.password.as_str(), s.users[user_index].password_hash.as_str());
    let ok = match matched {
        Some(m) => m,
        None => false,
    };
    if !ok {
        proof {
            if credentials_ok(*s, payload.email@, payload.password@) {
                let w = choose|w: int|
                    0 <= w < s.users@.len() && s.users@[w].email@ == payload.email@
                        && bcrypt_verify_of(payload.password@, s.users@[w].password_hash@) == Some(
                        true,
                    );
                lemma_user_email_unique(*s, w, user_index as int);
            }
        }
        return Err(AppError::new(STATUS_UNAUTHORIZED, "Invalid email or password".to_owned()));
    }
    proof {
        assert(credentials_ok(*s, payload.email@, payload.password@)) by {
            assert(s.users@[user_index as int].email@ == payload.email@ && bcrypt_verify_of(
                payload.password@,
                s.users@[user_index as int].password_hash@,
            ) == Some(true));
        }
    }
    Ok(Claims { sub: s.users[user_index].id, exp: now + SESSION_LIFETIME_SECS, iat: now })
}

/// The Credential Verifier against the system clock: what `/login` decides.
/// The claims' issue time comes from the clock; everything else is pinned.
pub fn verify_login(s: &Store, payload_r: Option<LoginRequestPayload>) -> (r: Result<
    Claims,
    AppError,
>)
    requires
        s.wf(),
    ensures
        r is Ok <==> (payload_r matches Some(p) && p.email@.len() > 0 && p.password@.len() > 0
            && credentials_ok(*s, p.email@, p.password@)),
        r matches Ok(c) ==> (c.sub == s.user_with_email(payload_r->Some_0.email@).id && c.exp
            == c.iat + SESSION_LIFETIME_SECS),
        payload_r is None ==> (r matches Err(e) && e.status == STATUS_BAD_REQUEST && e.message@
            == invalid_payload_msg()),
        payload_r matches Some(p) && (p.email@.len() == 0 || p.password@.len() == 0) ==> (
        r matches Err(e) && e.status == STATUS_BAD_REQUEST && e.message@
            == missing_credentials_msg()),
        payload_r matches Some(p) && p.email@.len() > 0 && p.password@.len() > 0
            && !credentials_ok(*s, p.email@, p.password@) ==> (r matches Err(e) && e.status
            == STATUS_UNAUTHORIZED && e.message@ == invalid_credentials_msg()),
{
    let now = now_unix();
    verify_login_at(s, payload_r, now)
}

/// The session cookie's decoded claims prove a live session at time `now`.
pub open spec fn session_valid(claims: Option<Claims>, now: u64) -> bool {
    match claims {
        Some(c) => now < c.exp,
        None => false,
    }
}

/// The Session Middleware's decision: `claims` is what token decoding made
/// of the request's cookie (`None`: cookie absent, bad signature, or
/// unreadable claims). A live session yields the caller's identity; any
/// other outcome is the one generic rejection.
pub fn authenticate(claims: Option<Claims>, now: u64) -> (r: Result<UserInfo, AppError>)
    ensures
        r is Ok <==> session_valid(claims, now),
        r matches Ok(u) ==> (u.id == claims->Some_0.sub),
        r matches Err(e) ==> (e.status == STATUS_UNAUTHORIZED && e.message@ == unauthorized_msg()),
{
    match claims {
        Some(c) => {
            if now < c.exp {
                Ok(UserInfo { id: c.sub })
            } else {
                Err(AppError::new(STATUS_UNAUTHORIZED, "Unauthorized".to_owned()))
            }
        },
        None => Err(AppError::new(STATUS_UNAUTHORIZED, "Unauthorized".to_owned())),
    }
}

/// Law: a failed login leaks nothing about which users exist. For any two
/// well-formed attempts whose credentials match no stored user — unknown
/// email or wrong password alike — the responses carry the same status and
/// the very same message.
pub proof fn lemma_login_no_enumeration(
    s: Store,
    p1: LoginRequestPayload,
    p2: LoginRequestPayload,
    now1: u64,
    now2: u64,
    r1: Result<Claims, AppError>,
    r2: Result<Claims, AppError>,
)
    requires
        login_spec(s, Some(p1), now1, r1),
        login_spec(s, Some(p2), now2, r2),
        p1.email@.len() > 0 && p1.password@.len() > 0,
        p2.email@.len() > 0 && p2.password@.len() > 0,
        !credentials_ok(s, p1.email@, p1.password@),
        !credentials_ok(s, p2.email@, p2.password@),
    ensures
        r1 is Err && r2 is Err,
        r1->Err_0.status == STATUS_UNAUTHORIZED,
        r1->Err_0.status == r2->Err_0.status,
        r1->Err_0.message@ == r2->Err_0.message@,
{
}

} // verus!
