//! Client-side logic for a school information system: the PKCE login
//! hand-shake, the requests to its REST resources, and what is made of the
//! replies. Nothing here touches the network; requests and replies are values.

use vstd::prelude::*;

pub mod date;
pub mod grades;
pub mod http;
pub mod redirect;
pub mod text;
pub mod tools;
pub mod types;

verus! {

/// Why an operation failed. Nothing is retried and nothing partial is
/// returned: the first failure ends the operation.
#[derive(Clone, Debug, PartialEq, Eq)]
pub enum Error {
    /// The token exchange was turned down, or its reply lacked a field.
    Auth,
    /// A resource call failed: no reply came (`status` is `None`), the status
    /// was outside 200 to 299, or the body was not of the expected shape.
    Api { endpoint: http::Endpoint, status: Option<u16> },
    /// A reply broke a rule the service is held to: the number of students or
    /// of their links, or a grade for a subject that was never listed.
    UnexpectedShape,
}

pub type Res<T> = Result<T, Error>;

} // verus!
