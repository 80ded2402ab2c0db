//! What to make of an address that the login page tries to open.

use crate::tools::{occurs_at, spec_between, starts_with, try_between};
use vstd::prelude::*;

verus! {

/// The scheme that the identity provider redirects to once the login is done.
pub const REDIRECT_SCHEME: &'static str = "somtodayleerling://";

/// What the shell that shows the login page does with an address.
#[derive(Clone, Debug, PartialEq, Eq)]
pub enum Navigation {
    /// An ordinary address: let the page load it.
    Proceed,
    /// The redirect, with the authorization code it carries: do not load
    /// it, the login is done.
    Code(String),
    /// The redirect, but no code can be read from it.
    NoCode,
}

/// Decides on an address: anything outside the redirect scheme loads; the
/// redirect yields the text between the first `code=` and the first `&`
/// after it.
pub fn on_navigation(uri: &str) -> (navigation: Navigation)
    ensures
        match navigation {
            Navigation::Proceed => !occurs_at(uri@, REDIRECT_SCHEME@, 0),
            Navigation::Code(code) => {
                &&& occurs_at(uri@, REDIRECT_SCHEME@, 0)
                &&& spec_between(uri@, "code="@, "&"@) == Some(code@)
            },
            Navigation::NoCode => {
                &&& occurs_at(uri@, REDIRECT_SCHEME@, 0)
                &&& spec_between(uri@, "code="@, "&"@) is None
            },
        },
{
    if !starts_with(uri, REDIRECT_SCHEME) {
        return Navigation::Proceed;
    }
    match try_between(uri, "code=", "&") {
        Some(code) => Navigation::Code(code),
        None => Navigation::NoCode,
    }
}

} // verus!
