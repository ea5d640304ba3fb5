//! The request-facing service operations that carry logic of their own: the
//! per-request authorization step and the session-expiry endpoint. The HTTP
//! plumbing around them lives outside the library.

use vstd::prelude::*;

pub mod session;

use crate::model::auth::{Error, Session};
use crate::model::Model;
use crate::paseto::footer_kid_of;

verus! {

/// Closes the current session, if the request carried one; removing an
/// already-absent session row is not an error, so the endpoint is
/// idempotent.
pub fn expire_session(db: &mut Model, session: Option<Session>) -> (r: Result<(), Error>)
    requires
        old(db).wf(),
    ensures
        final(db).wf(),
        final(db)@.users == old(db)@.users,
        final(db)@.adhoc == old(db)@.adhoc,
        final(db)@.lobby == old(db)@.lobby,
        final(db)@.games == old(db)@.games,
        session is None ==> r == Ok::<(), Error>(()) && final(db)@ == old(db)@,
        session matches Some(s) ==> {
            &&& footer_kid_of(s.token@) matches Some(Some(kid)) ==> (r == Ok::<(), Error>(())
                && final(db)@ == old(db)@.with_sessions(old(db)@.sessions.remove(kid)))
            &&& (r is Err ==> final(db)@ == old(db)@)
        },
{
    match session {
        None => Ok(()),
        Some(s) => s.expire(db),
    }
}

} // verus!
