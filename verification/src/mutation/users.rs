//! User-related mutations.

use vstd::prelude::*;

use crate::model::auth::{adhoc_outcome_for_parts, AdHocToken, Error};
use crate::model::tables::AdHocData;
use crate::model::users::User;
use crate::model::users::UserId;
use crate::model::Model;
use crate::util::contains_char;

verus! {

/// What the ad-hoc user creation returns: the fresh user and the credential
/// that authenticates as that user.
#[derive(Debug, Clone)]
pub struct CreatedAdHocUser {
    /// Created user id.
    pub user: UserId,
    /// Authorization token for this user.
    pub token: AdHocToken,
}

/// The user mutation surface.
#[derive(Debug)]
pub struct UsersMutations;

impl Default for UsersMutations {
    fn default() -> (r: UsersMutations) {
        UsersMutations {}
    }
}

impl UsersMutations {
    /// Creates a short-living user authorized with a token.
    ///
    /// Ad-hoc users carry no privileges of their own; the returned
    /// credential is exchanged for a session by the request middleware.
    /// Nicknames are not unique: repeating one mints a distinct user. On
    /// success the token verifies, against the updated store, exactly as the
    /// fresh user; sessions are untouched either way.
    pub fn create_adhoc(&self, db: &mut Model, nickname: String) -> (r: Result<
        CreatedAdHocUser,
        Error,
    >)
        requires
            old(db).wf(),
        ensures
            final(db).wf(),
            final(db)@.sessions == old(db)@.sessions,
            final(db)@.lobby == old(db)@.lobby,
            final(db)@.games == old(db)@.games,
            r matches Ok(c) ==> {
                &&& c.user.valid()
                &&& !old(db)@.users.dom().contains(c.user@)
                &&& final(db)@.users == old(db)@.users.insert(c.user@, nickname@)
                &&& contains_char(c.token@, '.')
                &&& forall|l: Seq<char>, rest: Seq<char>|
                    c.token@ == l + seq!['.'] + rest && !contains_char(l, '.')
                        ==> adhoc_outcome_for_parts(final(db)@, l, rest) == Ok::<int, Error>(
                        c.user@,
                    )
                &&& exists|tid: Seq<u8>, data: AdHocData|
                    {
                        &&& !old(db)@.adhoc.dom().contains(tid)
                        &&& data.user_id == c.user@
                        &&& final(db)@.adhoc == #[trigger] old(db)@.adhoc.insert(tid, data)
                    }
            },
            r matches Err(e) ==> (e == Error::StoreError || e == Error::TokenIdCollision),
            r is Err ==> (final(db)@ == old(db)@ || exists|uid: int|
                {
                    &&& !old(db)@.users.dom().contains(uid)
                    &&& final(db)@ == old(db)@.with_users(
                        #[trigger] old(db)@.users.insert(uid, nickname@),
                    )
                }),
            (old(db)@.users.dom().len() < i64::MAX - 1 && r is Err) ==> r == Err::<
                CreatedAdHocUser,
                Error,
            >(Error::TokenIdCollision),
    {
        let user = User::new(nickname.as_str());
        let user_id = match user.create(db) {
            Err(_) => {
                return Err(Error::StoreError);
            },
            Ok(u) => u,
        };
        let ghost mid = db@;
        match AdHocToken::create(db, user_id) {
            Err(e) => Err(e),
            Ok(token) => {
                proof {
                    let (tid, data): (Seq<u8>, AdHocData) = choose|tid: Seq<u8>, data: AdHocData|
                        {
                            &&& !mid.adhoc.dom().contains(tid)
                            &&& data.user_id == user_id@
                            &&& db@ == mid.with_adhoc(#[trigger] mid.adhoc.insert(tid, data))
                        };
                    assert(db@.adhoc == old(db)@.adhoc.insert(tid, data));
                }
                Ok(CreatedAdHocUser { user: user_id, token })
            },
        }
    }
}

} // verus!
