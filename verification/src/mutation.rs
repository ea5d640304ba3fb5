//! Mutations main entry point.

use vstd::prelude::*;

pub mod lobby;
pub mod users;

verus! {

/// The root of the mutation surface.
#[derive(Debug)]
pub struct Mutation {
    users: users::UsersMutations,
    lobby: lobby::LobbyMutations,
}

impl Default for Mutation {
    fn default() -> (r: Mutation) {
        Mutation { users: users::UsersMutations {}, lobby: lobby::LobbyMutations {} }
    }
}

impl Mutation {
    /// A fresh mutation root.
    pub fn new() -> (r: Mutation) {
        Mutation { users: users::UsersMutations {}, lobby: lobby::LobbyMutations {} }
    }

    /// The user-related mutations.
    pub fn users(&self) -> (r: &users::UsersMutations) {
        &self.users
    }

    /// The lobby-related mutations.
    pub fn lobby(&self) -> (r: &lobby::LobbyMutations) {
        &self.lobby
    }
}

} // verus!
