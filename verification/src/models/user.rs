//! Account records.

use vstd::prelude::*;

verus! {

/// The body of a sign-up request.
#[derive(Debug, Clone)]
pub struct CreateUser {
    pub username: String,
    pub password: String,
}

} // verus!
