//! The server's error: an HTTP status and the plain-text reason sent back.

use vstd::prelude::*;

verus! {

/// HTTP 400.
pub const BAD_REQUEST: u16 = 400;

/// HTTP 401.
pub const UNAUTHORIZED: u16 = 401;

/// HTTP 403.
pub const FORBIDDEN: u16 = 403;

/// HTTP 500.
pub const INTERNAL_SERVER_ERROR: u16 = 500;

/// A request refused with `status` and the reason `message`.
pub struct AppError {
    pub status: u16,
    pub message: String,
}

impl AppError {
    /// A refusal with `status` and `message`.
    pub fn new(status: u16, message: &str) -> (e: Self)
        ensures
            e.status == status,
            e.message@ == message@,
    {
        AppError { status, message: message.to_string() }
    }

    /// 400 Bad Request.
    pub fn bad_request(message: &str) -> (e: Self)
        ensures
            e.status == BAD_REQUEST,
            e.message@ == message@,
    {
        Self::new(BAD_REQUEST, message)
    }

    /// 401 Unauthorized.
    pub fn unauthorized(message: &str) -> (e: Self)
        ensures
            e.status == UNAUTHORIZED,
            e.message@ == message@,
    {
        Self::new(UNAUTHORIZED, message)
    }

    /// 403 Forbidden.
    pub fn forbidden(message: &str) -> (e: Self)
        ensures
            e.status == FORBIDDEN,
            e.message@ == message@,
    {
        Self::new(FORBIDDEN, message)
    }
}

} // verus!
