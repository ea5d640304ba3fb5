//! User-related queries.

use vstd::prelude::*;

verus! {

/// The user query surface.
#[derive(Debug)]
pub struct UsersQueries;

impl Default for UsersQueries {
    fn default() -> (r: UsersQueries) {
        UsersQueries {}
    }
}

impl UsersQueries {
    /// A placeholder field, so that the query surface is never empty.
    pub fn dummy(&self) -> (r: &'static str)
        ensures
            r@ == "Dummy"@,
    {
        "Dummy"
    }
}

} // verus!
