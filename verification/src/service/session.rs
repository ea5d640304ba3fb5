//! The per-request authorization step.
//!
//! It runs once around every request, against the store, inside what the
//! hosting service treats as one transaction: on any failure the store is
//! left exactly as it was and the request is rejected; on success the
//! resulting session is attached to the request, and a freshly minted or
//! refreshed token is surfaced so the response can carry it in the
//! `X-Session-Token` header.

use vstd::prelude::*;

use crate::model::auth::{
    adhoc_outcome_for_parts, session_grants, Authorization, Error, Session, SessionToken,
};
use crate::model::tables::SessionKeyData;
use crate::model::{Model, ModelView};
use crate::paseto::{footer_kid_of, paserk_kid_of};
use crate::util::contains_char;

verus! {

/// How many seconds before expiry a session is refreshed transparently.
pub open spec fn refresh_window() -> int {
    600
}

/// The session table after one key row was added under `kid`, replacing the
/// row `prev` when one is named (the refresh transition).
pub open spec fn sessions_after_step(
    before: Map<Seq<char>, SessionKeyData>,
    kid: Seq<char>,
    data: SessionKeyData,
    prev: Option<Seq<char>>,
) -> Map<Seq<char>, SessionKeyData> {
    match prev {
        Some(p) => before.remove(p).insert(kid, data),
        None => before.insert(kid, data),
    }
}

/// The store's session table moved by exactly one step: one fresh key row
/// was inserted, possibly replacing one old row (the refresh transition).
pub open spec fn sessions_step(
    before: Map<Seq<char>, SessionKeyData>,
    after: Map<Seq<char>, SessionKeyData>,
) -> bool {
    exists|kid: Seq<char>, data: SessionKeyData, prev: Option<Seq<char>>|
        after == #[trigger] sessions_after_step(before, kid, data, prev)
}


/// What one request with an `AdHoc` header owes, `tok` being the header's
/// token part: the credential's verification outcome against the incoming
/// store decides. A failing credential is rejected with its own error; a
/// successful one can only ever yield a session for the credential's owner,
/// with a surfaced token whose key id is fresh (so distinct uses mint
/// distinct tokens).
pub open spec fn adhoc_request_obligations(
    m0: ModelView,
    tok: Seq<char>,
    r: Result<AuthOutcome, Error>,
) -> bool {
    &&& (!contains_char(tok, '.') ==> r == Err::<AuthOutcome, Error>(Error::InvalidTokenFormat))
    &&& forall|l: Seq<char>, rest: Seq<char>|
        tok == l + seq!['.'] + rest && !contains_char(l, '.') ==> {
            &&& (adhoc_outcome_for_parts(m0, l, rest) matches Err(e) ==> r == Err::<
                AuthOutcome,
                Error,
            >(e))
            &&& (adhoc_outcome_for_parts(m0, l, rest) matches Ok(u) ==> (r matches Ok(o) ==> {
                &&& o.session matches Some(s) && s.user_id@ == u
                &&& o.new_token matches Some(t) && (footer_kid_of(t@) matches Some(Some(kid))
                    && !m0.sessions.dom().contains(kid))
            }))
        }
}

/// What one request with a `Session` header owes, `tok` being the header's
/// token part. The footer, key-id and store errors are forced; a session far
/// from expiry passes through untouched with no new token; a near-expiry one
/// can only be refreshed, and any surfaced token replaced exactly the
/// presented token's key row — so the old token stops verifying.
pub open spec fn session_request_obligations(
    m0: ModelView,
    m1: ModelView,
    tok: Seq<char>,
    now: i64,
    r: Result<AuthOutcome, Error>,
) -> bool {
    &&& (footer_kid_of(tok) is None ==> r == Err::<AuthOutcome, Error>(Error::InvalidTokenFormat))
    &&& (footer_kid_of(tok) == Some(None::<Seq<char>>) ==> r == Err::<AuthOutcome, Error>(
        Error::MissingTokenId,
    ))
    &&& (footer_kid_of(tok) matches Some(Some(kid)) ==> {
        &&& (!m0.sessions.dom().contains(kid) ==> r == Err::<AuthOutcome, Error>(
            Error::NonExistingToken,
        ))
        &&& (r matches Ok(o) ==> (o.session matches Some(s) && {
            &&& (o.new_token is None ==> s.token@ == tok)
            &&& (o.new_token matches Some(t) ==> exists|new_kid: Seq<char>, data: SessionKeyData|
                {
                    &&& footer_kid_of(t@) == Some(Some(new_kid))
                    &&& m1.sessions == #[trigger] m0.sessions.remove(kid).insert(new_kid, data)
                })
        }))
    })
    &&& forall|u: int, e: int|
        0 <= u && #[trigger] session_grants(m0, tok, u, e) ==> {
            &&& (e >= now + refresh_window() ==> (r matches Ok(o) ==> {
                &&& o.new_token is None
                &&& m1 == m0
                &&& (o.session matches Some(s) ==> s.user_id@ == u && s.expires_at == e
                    && s.token@ == tok)
            }))
            &&& (e < now + refresh_window() ==> (r matches Ok(o) ==> o.new_token is Some))
        }
}

/// What the authorization step hands the rest of the request.
#[derive(Debug)]
pub struct AuthOutcome {
    /// The authenticated session, when the request carried credentials.
    pub session: Option<Session>,
    /// A fresh token to surface in the response header, when one was minted
    /// (ad-hoc upgrade) or the session was refreshed.
    pub new_token: Option<SessionToken>,
}

/// Authorizes one request from its `Authorization` header.
///
/// Without a header the request proceeds unauthenticated and the store is
/// untouched. An `AdHoc` credential is verified and upgraded to a brand-new
/// session, whose token is surfaced. A `Session` token is verified; when it
/// expires within the refresh window it is refreshed in place and the new
/// token surfaced, otherwise it passes through with no new header. Any
/// failure leaves the store unchanged, as a rolled-back request transaction
/// would.
pub fn middleware(db: &mut Model, auth_header: Option<&str>, now: i64) -> (r: Result<
    AuthOutcome,
    Error,
>)
    requires
        old(db).wf(),
        now <= i64::MAX - refresh_window(),
    ensures
        final(db).wf(),
        final(db)@.users == old(db)@.users,
        final(db)@.adhoc == old(db)@.adhoc,
        final(db)@.lobby == old(db)@.lobby,
        final(db)@.games == old(db)@.games,
        r is Err ==> final(db)@ == old(db)@,
        auth_header is None ==> (r matches Ok(o) && o.session is None && o.new_token is None
            && final(db)@ == old(db)@),
        auth_header matches Some(h) ==> {
            &&& !contains_char(h@, ' ') ==> r == Err::<AuthOutcome, Error>(
                Error::InvalidAuthorization,
            )
            &&& forall|scheme: Seq<char>, tok: Seq<char>|
                h@ == scheme + seq![' '] + tok && !contains_char(scheme, ' ') ==> {
                    &&& (scheme != "AdHoc"@ && scheme != "Session"@) ==> r == Err::<
                        AuthOutcome,
                        Error,
                    >(Error::InvalidAuthorizationScheme)
                    &&& scheme == "AdHoc"@ ==> adhoc_request_obligations(old(db)@, tok, r)
                    &&& scheme == "Session"@ ==> session_request_obligations(
                        old(db)@,
                        final(db)@,
                        tok,
                        now,
                        r,
                    )
                }
        },
        r matches Ok(o) ==> {
            &&& auth_header is Some ==> o.session is Some
            &&& o.session matches Some(s) ==> s.user_id.valid()
            &&& o.new_token matches Some(t) ==> (o.session matches Some(s) && s.token@ == t@
                && session_grants(final(db)@, t@, s.user_id@, s.expires_at as int)
                && sessions_step(old(db)@.sessions, final(db)@.sessions))
            &&& o.session matches Some(s) ==> (o.new_token is None ==> (final(db)@ == old(db)@
                && session_grants(old(db)@, s.token@, s.user_id@, s.expires_at as int)
                && s.expires_at >= now + refresh_window()))
        },
{
    let header = match auth_header {
        None => {
            return Ok(AuthOutcome { session: None, new_token: None });
        },
        Some(h) => h,
    };
    let token = match Authorization::from_str(header) {
        Err(e) => {
            return Err(e);
        },
        Ok(t) => t,
    };
    match token {
        Authorization::AdHoc(token) => {
            let user_id = match token.authenticate(db) {
                Err(e) => {
                    return Err(e);
                },
                Ok(u) => u,
            };
            let session = match Session::create(db, user_id) {
                Err(e) => {
                    return Err(e);
                },
                Ok(s) => s,
            };
            proof {
                let (kid, pk): (Seq<char>, Seq<char>) = choose|kid: Seq<char>, pk: Seq<char>|
                    {
                        &&& footer_kid_of(session.token@) == Some(Some(kid))
                        &&& !old(db)@.sessions.dom().contains(kid)
                        &&& kid == paserk_kid_of(pk)
                        &&& db@ == old(db)@.with_sessions(
                            #[trigger] old(db)@.sessions.insert(
                                kid,
                                (SessionKeyData {
                                    public_key: pk,
                                    expires_at: session.expires_at as int,
                                }),
                            ),
                        )
                    };
                assert(db@.sessions == sessions_after_step(
                    old(db)@.sessions,
                    kid,
                    (SessionKeyData { public_key: pk, expires_at: session.expires_at as int }),
                    None,
                ));
                assert(sessions_step(old(db)@.sessions, db@.sessions));
            }
            let new_token = session.token.duplicate();
            Ok(AuthOutcome { session: Some(session), new_token: Some(new_token) })
        },
        Authorization::Session(token) => {
            let ghost tokv = token@;
            let session = match token.authenticate(db) {
                Err(e) => {
                    return Err(e);
                },
                Ok(s) => s,
            };
            let ghost su = session.user_id@;
            let ghost se = session.expires_at as int;
            proof {
                assert forall|u: int, e: int|
                    0 <= u && #[trigger] session_grants(old(db)@, tokv, u, e) implies u == su && e
                    == se by {
                    crate::model::auth::lemma_session_grants_unique(old(db)@, tokv, u, e, su, se);
                }
            }
            if session.expires_at < now + 600 {
                let refreshed = match session.refresh(db) {
                    Err(e) => {
                        return Err(e);
                    },
                    Ok(s) => s,
                };
                proof {
                    let (old_kid, new_kid, pk): (Seq<char>, Seq<char>, Seq<char>) = choose|
                        old_kid: Seq<char>,
                        new_kid: Seq<char>,
                        pk: Seq<char>,
                    |
                        {
                            &&& footer_kid_of(session.token@) == Some(Some(old_kid))
                            &&& footer_kid_of(refreshed.token@) == Some(Some(new_kid))
                            &&& new_kid == paserk_kid_of(pk)
                            &&& db@ == old(db)@.with_sessions(
                                #[trigger] old(db)@.sessions.remove(old_kid).insert(
                                    new_kid,
                                    (SessionKeyData {
                                        public_key: pk,
                                        expires_at: refreshed.expires_at as int,
                                    }),
                                ),
                            )
                        };
                    assert(db@.sessions == sessions_after_step(
                        old(db)@.sessions,
                        new_kid,
                        (SessionKeyData {
                            public_key: pk,
                            expires_at: refreshed.expires_at as int,
                        }),
                        Some(old_kid),
                    ));
                    assert(sessions_step(old(db)@.sessions, db@.sessions));
                }
                let new_token = refreshed.token.duplicate();
                Ok(AuthOutcome { session: Some(refreshed), new_token: Some(new_token) })
            } else {
                Ok(AuthOutcome { session: Some(session), new_token: None })
            }
        },
    }
}

} // verus!
