use vstd::prelude::*;

verus! {

/// Status carried in the body of every API response.
#[derive(Clone, Copy, Debug, PartialEq, Eq, Hash, Structural)]
pub enum RestStatus {
    Success,
    Unknown,
    BadRequest,
}

impl RestStatus {
    /// The HTTP status code a response with this status is sent with: 500 for
    /// `Unknown`, 200 otherwise (a bad request is reported in the body).
    pub fn http_status(&self) -> (r: u16)
        ensures
            *self == RestStatus::Unknown ==> r == 500,
            *self != RestStatus::Unknown ==> r == 200,
    {
        match self {
            RestStatus::Unknown => 500,
            _ => 200,
        }
    }

    pub fn is_ok(&self) -> (r: bool)
        ensures
            r == (*self == RestStatus::Success),
    {
        match self {
            RestStatus::Success => true,
            _ => false,
        }
    }
}

/// A request to the authentication API.
#[derive(Clone, Debug, PartialEq, Eq, Hash)]
pub enum AuthRequest {
    Login { username: String, password: String },
    RefreshToken { token: String },
}

/// Error type of conversions that cannot fail; no value of it is ever made.
pub struct NeverError {
    _mark: core::marker::PhantomData<()>,
}

impl NeverError {
    /// The text this error displays as.
    pub fn message(&self) -> (r: String)
        ensures
            r@ == "NeverError"@,
    {
        "NeverError".to_owned()
    }
}

} // verus!
