//! The statistics endpoint's fixed responses.
//!
//! The routing and serialization live outside the library; what is stated
//! here is the content of the fixed responses the endpoint serves.

use vstd::prelude::*;

verus! {

/// The body of an error response.
#[derive(Clone, Debug)]
pub struct ErrorMessage {
    pub message: String,
}

/// The root greeting.
pub fn index() -> (r: &'static str)
    ensures
        r@ == "Hello, world!"@,
{
    "Hello, world!"
}

/// The not-found response body.
pub fn not_found() -> (r: ErrorMessage)
    ensures
        r.message@ == "The resource you were looking for doesn't exist"@,
{
    ErrorMessage {
        message: String::from_str("The resource you were looking for doesn't exist"),
    }
}

} // verus!
