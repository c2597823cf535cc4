use vstd::prelude::*;

verus! {

/// HTTP status carried by every error the backend produces.
pub const STATUS_BAD_REQUEST: u16 = 400;

pub const STATUS_UNAUTHORIZED: u16 = 401;

pub const STATUS_NOT_FOUND: u16 = 404;

pub const STATUS_INTERNAL_SERVER_ERROR: u16 = 500;

/// An error as it is reported to an HTTP client: a transport status code
/// and a human-readable message.
#[derive(Debug)]
pub struct AppError {
    pub status: u16,
    pub message: String,
}

impl AppError {
    pub fn new(status: u16, message: String) -> (r: AppError)
        ensures
            r.status == status,
            r.message == message,
    {
        AppError { status, message }
    }
}

/// Wrap a lower-level failure's description as the internal error a
/// handler answers with.
pub fn map_to_app_error(message: String) -> (r: AppError)
    ensures
        r.status == STATUS_INTERNAL_SERVER_ERROR,
        r.message == message,
{
    AppError { status: STATUS_INTERNAL_SERVER_ERROR, message }
}

} // verus!
