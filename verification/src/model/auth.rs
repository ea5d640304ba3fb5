//! Authorization data: ad-hoc credentials and PASETO-backed sessions.

use vstd::prelude::*;

use crate::codec::{
    b64_decodable, b64_decode, b64_encode, b64_of, b64_preimage, random_id_bytes, sha3_256,
    sha3_256_of,
};
use crate::model::tables::{AdHocData, AdHocRecord};
use crate::model::users::UserId;
use crate::model::{Model, ModelView};
use crate::clock::{parse_rfc3339_ts, rfc3339_ts_of};
use crate::model::tables::SessionKeyData;
use crate::numstr::dec_str;
use crate::paseto::{
    footer_kid_of, mint_session, paserk_kid_of, paseto_verify_session, session_claims_of,
    token_footer_kid, FooterKid,
};
use crate::util::{bytes_eq, contains_char, lemma_split_at_char_unique, split_once_char};
use vstd::string::StringSliceAdditionalSpecFns;

verus! {

/// Errors of the authorization component.
#[derive(Debug, Clone, Copy, PartialEq, Eq, Structural)]
pub enum Error {
    /// A token string does not split or decode.
    InvalidTokenFormat,
    /// The credential or session row is absent at verify time.
    NonExistingToken,
    /// The session payload carries no `iss` claim.
    MissingUserId,
    /// The token footer carries no `kid` claim.
    MissingTokenId,
    /// The verified session payload carries no claims at all.
    MissingClaims,
    /// The stored ad-hoc signature has the wrong length.
    InvalidSignatureStored,
    /// The `exp` claim is missing or does not parse.
    InvalidSessionClaim,
    /// The `iss` claim does not parse as a user id.
    InvalidUserId,
    /// Fresh token ids kept colliding; the retry budget ran out.
    TokenIdCollision,
    /// The `Authorization` header does not split into scheme and token.
    InvalidAuthorization,
    /// The `Authorization` scheme is neither `AdHoc` nor `Session`.
    InvalidAuthorizationScheme,
    /// The recomputed ad-hoc signature differs from the stored one.
    SignatureMismatch,
    /// PASETO signature verification failed.
    InvalidSignature,
    /// The store refused the operation.
    StoreError,
}

/// Key mixed into ad-hoc signatures. A stand-in constant; a deployment would
/// feed a secret at build time.
pub open spec fn user_token_app_secret() -> Seq<char> {
    "AsyncDeckbuilderAppTokenSecret"@
}

fn user_token_app_secret_str() -> (r: &'static str)
    ensures
        r@ == user_token_app_secret(),
{
    "AsyncDeckbuilderAppTokenSecret"
}

/// The data whose SHA3-256 digest is stored as an ad-hoc signature: the app
/// key, the user id, the stored secret and the client-held token, dot-joined.
pub open spec fn signature_input(user_id: int, secret_b64: Seq<char>, token_b64: Seq<char>)
    -> Seq<char> {
    user_token_app_secret() + seq!['.'] + dec_str(user_id) + seq!['.'] + secret_b64 + seq!['.']
        + token_b64
}

/// The ad-hoc signature over a stored secret and the base64 form of the
/// client-held token.
pub open spec fn adhoc_signature(user_id: int, secret: Seq<u8>, token_b64: Seq<char>) -> Seq<u8> {
    sha3_256_of(signature_input(user_id, b64_of(secret), token_b64))
}

/// The short-living user token data.
///
/// The client-held token itself is never stored: the row keeps `secret`,
/// `user_id` and the signature, which is a digest over data from three
/// separate sources (the application key, the stored secret and the
/// client-held token), so that the leak of a single component is not enough
/// to forge a credential.
struct UserToken {
    /// Authorized user identifier.
    user_id: UserId,
    /// Secret to build the signing input.
    secret: Vec<u8>,
    /// Expected hash.
    signature: Vec<u8>,
}

/// Builds the dot-joined signature input string.
fn build_signature_input(user_id: UserId, secret_b64: &str, token_b64: &str) -> (r: String)
    requires
        user_id.valid(),
    ensures
        r@ == signature_input(user_id@, secret_b64@, token_b64@),
{
    let mut data = user_token_app_secret_str().to_owned();
    data.append(".");
    data.append(user_id.to_string().as_str());
    data.append(".");
    data.append(secret_b64);
    data.append(".");
    data.append(token_b64);
    proof {
        reveal_strlit(".");
        assert(data@ =~= signature_input(user_id@, secret_b64@, token_b64@));
    }
    data
}

impl UserToken {
    /// Generates a new token for the given user.
    ///
    /// Returns the generated `UserToken` and the base64 `token` part that the
    /// client must present for verification.
    fn generate(user_id: UserId) -> (r: (UserToken, String))
        requires
            user_id.valid(),
        ensures
            r.0.user_id == user_id,
            r.0.secret@.len() == 16,
            r.0.signature@ == adhoc_signature(user_id@, r.0.secret@, r.1@),
            r.0.signature@.len() == 32,
            exists|t: Seq<u8>| t.len() == 16 && r.1@ == b64_of(t),
            !contains_char(r.1@, '.'),
    {
        let secret = random_id_bytes();
        let token_bytes = random_id_bytes();
        let token_b64 = b64_encode(&token_bytes);
        let secret_b64 = b64_encode(&secret);
        let data = build_signature_input(user_id, secret_b64.as_str(), token_b64.as_str());
        let signature = sha3_256(data.as_str());
        let user_token = UserToken { user_id, secret, signature };
        proof {
            assert(!contains_char(token_b64@, '.'));
        }
        (user_token, token_b64)
    }

    /// Verifies the user token, returning the user id on success: exactly
    /// when the recomputed signature equals the stored one.
    fn verify(&self, token_b64: &str) -> (r: Result<UserId, Error>)
        requires
            self.user_id.valid(),
        ensures
            r matches Ok(u) ==> u == self.user_id && adhoc_signature(
                self.user_id@,
                self.secret@,
                token_b64@,
            ) == self.signature@,
            r matches Err(e) ==> e == Error::SignatureMismatch && adhoc_signature(
                self.user_id@,
                self.secret@,
                token_b64@,
            ) != self.signature@,
    {
        let secret_b64 = b64_encode(&self.secret);
        let data = build_signature_input(self.user_id, secret_b64.as_str(), token_b64);
        let signature = sha3_256(data.as_str());
        if bytes_eq(&signature, &self.signature) {
            Ok(self.user_id)
        } else {
            Err(Error::SignatureMismatch)
        }
    }
}

/// Newtype for the ad-hoc token string.
#[derive(Debug, Clone)]
pub struct AdHocToken(String);

impl View for AdHocToken {
    type V = Seq<char>;

    closed spec fn view(&self) -> Seq<char> {
        self.0@
    }
}

/// What verifying an ad-hoc token whose string splits into `id_b64` and
/// `token_b64` yields against the store contents `m`.
pub open spec fn adhoc_outcome_for_parts(m: ModelView, id_b64: Seq<char>, token_b64: Seq<char>)
    -> Result<int, Error> {
    if !b64_decodable(id_b64) {
        Err(Error::InvalidTokenFormat)
    } else {
        let id = b64_preimage(id_b64);
        if id.len() != 16 {
            Err(Error::InvalidTokenFormat)
        } else if !m.adhoc.dom().contains(id) {
            Err(Error::NonExistingToken)
        } else {
            let row = m.adhoc[id];
            if row.signature.len() != 32 {
                Err(Error::InvalidSignatureStored)
            } else if row.signature == adhoc_signature(row.user_id, row.secret, token_b64) {
                Ok(row.user_id)
            } else {
                Err(Error::SignatureMismatch)
            }
        }
    }
}

/// Whether the verified result `r` agrees with the specified outcome `o`.
pub open spec fn outcome_matches(r: Result<UserId, Error>, o: Result<int, Error>) -> bool {
    match r {
        Ok(u) => o == Ok::<int, Error>(u@),
        Err(e) => o == Err::<int, Error>(e),
    }
}

impl AdHocToken {
    /// Wraps a raw token string (as a client would present it).
    pub fn new(token: String) -> (r: AdHocToken)
        ensures
            r@ == token@,
    {
        AdHocToken(token)
    }

    /// The external string form.
    pub fn as_str(&self) -> (r: &str)
        ensures
            r@ == self@,
    {
        self.0.as_str()
    }

    /// Creates a new authorization token for a user, storing it.
    ///
    /// The returned token is the credential for `Authorization: AdHoc
    /// [token]`; verifying it against the updated store authenticates
    /// `user_id`. Fresh random ids are drawn, and an id collision is retried
    /// a bounded number of times before giving up; on failure the store is
    /// unchanged.
    pub fn create(db: &mut Model, user_id: UserId) -> (r: Result<AdHocToken, Error>)
        requires
            old(db).wf(),
            user_id.valid(),
        ensures
            final(db).wf(),
            final(db)@.users == old(db)@.users,
            final(db)@.sessions == old(db)@.sessions,
            final(db)@.lobby == old(db)@.lobby,
            final(db)@.games == old(db)@.games,
            r matches Ok(tok) ==> {
                &&& contains_char(tok@, '.')
                &&& exists|tid: Seq<u8>, tb: Seq<u8>|
                    #![trigger b64_of(tid), b64_of(tb)]
                    {
                        &&& tid.len() == 16
                        &&& tb.len() == 16
                        &&& tok@ == b64_of(tid) + seq!['.'] + b64_of(tb)
                    }
                &&& forall|l: Seq<char>, rest: Seq<char>|
                    tok@ == l + seq!['.'] + rest && !contains_char(l, '.')
                        ==> adhoc_outcome_for_parts(final(db)@, l, rest) == Ok::<int, Error>(
                        user_id@,
                    )
                &&& exists|tid: Seq<u8>, data: AdHocData|
                    {
                        &&& !old(db)@.adhoc.dom().contains(tid)
                        &&& data.user_id == user_id@
                        &&& final(db)@ == old(db)@.with_adhoc(
                            #[trigger] old(db)@.adhoc.insert(tid, data),
                        )
                    }
            },
            r matches Err(e) ==> e == Error::TokenIdCollision && final(db)@ == old(db)@,
    {
        let (user_token, token_b64) = UserToken::generate(user_id);
        let ghost token_bytes: Seq<u8> = choose|t: Seq<u8>| t.len() == 16 && token_b64@ == b64_of(
            t,
        );
        let mut attempts: usize = 0;
        while attempts < 3
            invariant
                db.wf(),
                db@ == old(db)@,
                user_id.valid(),
                user_token.user_id == user_id,
                user_token.secret@.len() == 16,
                user_token.signature@ == adhoc_signature(user_id@, user_token.secret@, token_b64@),
                user_token.signature@.len() == 32,
                !contains_char(token_b64@, '.'),
                token_bytes.len() == 16 && token_b64@ == b64_of(token_bytes),
            decreases 3 - attempts,
        {
            let token_id = random_id_bytes();
            let id_b64 = b64_encode(&token_id);
            let ghost tid = token_id@;
            let rec = AdHocRecord {
                user_id: user_token.user_id.raw(),
                secret: crate::util::clone_bytes(&user_token.secret),
                signature: crate::util::clone_bytes(&user_token.signature),
            };
            let ghost rec_view = crate::model::tables::adhoc_data_of(&rec);
            if db.adhoc_try_insert(token_id, rec) {
                let mut token = id_b64;
                token.append(".");
                token.append(token_b64.as_str());
                proof {
                    reveal_strlit(".");
                    assert(token@ =~= b64_of(tid) + seq!['.'] + token_b64@);
                    assert(contains_char(token@, '.')) by {
                        assert(token@[b64_of(tid).len() as int] == '.');
                    }
                    assert(tid.len() == 16 && token_bytes.len() == 16 && token@ == b64_of(tid)
                        + seq!['.'] + b64_of(token_bytes));
                    assert forall|l: Seq<char>, rest: Seq<char>|
                        token@ == l + seq!['.'] + rest && !contains_char(l, '.')
                            implies adhoc_outcome_for_parts(db@, l, rest) == Ok::<int, Error>(
                        user_id@,
                    ) by {
                        lemma_split_at_char_unique(l, rest, b64_of(tid), token_b64@, '.');
                        assert(l == b64_of(tid) && rest == token_b64@);
                        assert(b64_decodable(l));
                        assert(b64_preimage(l) == tid);
                        assert(db@.adhoc.dom().contains(tid));
                        assert(db@.adhoc[tid] == rec_view);
                        assert(rec_view.signature.len() == 32);
                        assert(rec_view.signature == adhoc_signature(
                            rec_view.user_id,
                            rec_view.secret,
                            rest,
                        ));
                    }
                }
                return Ok(AdHocToken(token));
            }
            attempts = attempts + 1;
        }
        Err(Error::TokenIdCollision)
    }

    /// Verifies a user token, returning the authenticated user id on
    /// success.
    ///
    /// The token splits at its first `.` into the id and the client-held
    /// token part; the stated outcome follows the stored row keyed by the
    /// decoded id.
    pub fn authenticate(&self, db: &Model) -> (r: Result<UserId, Error>)
        requires
            db.wf(),
        ensures
            !contains_char(self@, '.') ==> r == Err::<UserId, Error>(Error::InvalidTokenFormat),
            forall|l: Seq<char>, rest: Seq<char>|
                self@ == l + seq!['.'] + rest && !contains_char(l, '.') ==> outcome_matches(
                    r,
                    adhoc_outcome_for_parts(db@, l, rest),
                ),
            r matches Ok(u) ==> u.valid(),
    {
        let parts = match split_once_char(self.0.as_str(), '.') {
            Some(p) => p,
            None => {
                proof {
                    assert forall|l: Seq<char>, rest: Seq<char>|
                        self@ == l + seq!['.'] + rest && !contains_char(l, '.') implies
                        outcome_matches(
                        Err::<UserId, Error>(Error::InvalidTokenFormat),
                        adhoc_outcome_for_parts(db@, l, rest),
                    ) by {
                        assert(self@[l.len() as int] == '.');
                        assert(contains_char(self@, '.'));
                    }
                }
                return Err(Error::InvalidTokenFormat);
            },
        };
        let (id_str, token_part) = parts;
        let ghost l0 = id_str@;
        let ghost r0 = token_part@;
        proof {
            assert(contains_char(self@, '.')) by {
                assert(self@[l0.len() as int] == '.');
            }
        }
        let outcome: Result<UserId, Error> = match b64_decode(id_str) {
            None => Err(Error::InvalidTokenFormat),
            Some(id) => {
                if id.len() != 16 {
                    Err(Error::InvalidTokenFormat)
                } else {
                    match db.adhoc_get(&id) {
                        None => Err(Error::NonExistingToken),
                        Some(rec) => {
                            if rec.signature.len() != 32 {
                                Err(Error::InvalidSignatureStored)
                            } else {
                                let user_token = UserToken {
                                    user_id: UserId::from_raw(rec.user_id),
                                    secret: crate::util::clone_bytes(&rec.secret),
                                    signature: crate::util::clone_bytes(&rec.signature),
                                };
                                user_token.verify(token_part)
                            }
                        },
                    }
                }
            },
        };
        proof {
            assert(outcome_matches(outcome, adhoc_outcome_for_parts(db@, l0, r0)));
            assert forall|l: Seq<char>, rest: Seq<char>|
                self@ == l + seq!['.'] + rest && !contains_char(l, '.') implies outcome_matches(
                outcome,
                adhoc_outcome_for_parts(db@, l, rest),
            ) by {
                lemma_split_at_char_unique(l, rest, l0, r0, '.');
            }
        }
        outcome
    }
}

/// Verification never authenticates anyone but the owner of the stored row
/// the token names: issuing credentials for one user can never enable
/// authentication as a different user.
pub proof fn lemma_adhoc_authenticates_owner(m: ModelView, id_b64: Seq<char>, token_b64: Seq<char>, w: int)
    requires
        adhoc_outcome_for_parts(m, id_b64, token_b64) == Ok::<int, Error>(w),
    ensures
        b64_decodable(id_b64),
        m.adhoc.dom().contains(b64_preimage(id_b64)),
        m.adhoc[b64_preimage(id_b64)].user_id == w,
        forall|v: int| v != w ==> adhoc_outcome_for_parts(m, id_b64, token_b64) != Ok::<int, Error>(v),
{
}


/// PASETO implicit assertion for session tokens.
pub open spec fn session_implicit() -> Seq<u8> {
    "AsyncDeckbuilderAppSessionTokenSecret".spec_bytes()
}

fn session_implicit_bytes() -> (r: &'static [u8])
    ensures
        r@ == session_implicit(),
{
    "AsyncDeckbuilderAppSessionTokenSecret".as_bytes()
}

/// Session data attached to a PASETO session token.
///
/// A session token is what actually grants privileges; every authorization
/// method exists only to obtain one.
#[derive(Debug, Clone)]
pub struct SessionData {
    /// User authorized by this token.
    pub user_id: UserId,
}

impl SessionData {
    /// Builds session data from the `iss` claim of a verified payload.
    fn from_iss(iss: &Option<String>) -> (r: Result<SessionData, Error>)
        ensures
            r matches Ok(sd) ==> (iss matches Some(s) && s@ == dec_str(sd.user_id@)
                && sd.user_id.valid()),
            (r == Err::<SessionData, Error>(Error::MissingUserId)) <==> iss is None,
            r matches Err(e) ==> (e == Error::MissingUserId || e == Error::InvalidUserId),
    {
        match iss {
            None => Err(Error::MissingUserId),
            Some(s) => match UserId::from_str(s.as_str()) {
                Ok(user_id) => Ok(SessionData { user_id }),
                Err(_) => Err(Error::InvalidUserId),
            },
        }
    }
}

/// Newtype for the session token string.
#[derive(Debug, Clone)]
pub struct SessionToken(String);

impl View for SessionToken {
    type V = Seq<char>;

    closed spec fn view(&self) -> Seq<char> {
        self.0@
    }
}

impl PartialEq for SessionToken {
    fn eq(&self, other: &SessionToken) -> (r: bool) {
        self.0 == other.0
    }
}

impl vstd::std_specs::cmp::PartialEqSpecImpl for SessionToken {
    open spec fn obeys_eq_spec() -> bool {
        true
    }

    open spec fn eq_spec(&self, other: &SessionToken) -> bool {
        self@ == other@
    }
}

impl SessionToken {
    /// Wraps a raw token string (as a client would present it).
    pub fn new(token: String) -> (r: SessionToken)
        ensures
            r@ == token@,
    {
        SessionToken(token)
    }

    /// The external string form.
    pub fn as_str(&self) -> (r: &str)
        ensures
            r@ == self@,
    {
        self.0.as_str()
    }

    /// Authenticates the token, returning the session it backs.
    pub fn authenticate(self, db: &Model) -> (r: Result<Session, Error>)
        requires
            db.wf(),
        ensures
            footer_kid_of(self@) is None ==> r == Err::<Session, Error>(Error::InvalidTokenFormat),
            footer_kid_of(self@) == Some(None::<Seq<char>>) ==> r == Err::<Session, Error>(
                Error::MissingTokenId,
            ),
            footer_kid_of(self@) matches Some(Some(kid)) ==> (!db@.sessions.dom().contains(kid)
                ==> r == Err::<Session, Error>(Error::NonExistingToken)),
            r matches Ok(s) ==> s.token@ == self@ && s.user_id.valid() && session_grants(
                db@,
                self@,
                s.user_id@,
                s.expires_at as int,
            ),
    {
        Session::authenticate(db, self)
    }
}

/// Session data.
#[derive(Debug, Clone)]
pub struct Session {
    /// User ID for this session.
    pub user_id: UserId,
    /// Session token.
    pub token: SessionToken,
    /// Session expiration time (unix seconds).
    pub expires_at: i64,
}

impl PartialEq for Session {
    fn eq(&self, other: &Session) -> (r: bool) {
        proof {
            crate::model::users::lemma_user_id_eq(self.user_id, other.user_id);
        }
        self.user_id == other.user_id && self.token == other.token && self.expires_at
            == other.expires_at
    }
}

impl vstd::std_specs::cmp::PartialEqSpecImpl for Session {
    open spec fn obeys_eq_spec() -> bool {
        true
    }

    open spec fn eq_spec(&self, other: &Session) -> bool {
        self.user_id@ == other.user_id@ && self.token@ == other.token@ && self.expires_at
            == other.expires_at
    }
}

/// The store `m` backs token `t` as a session for `user_id` expiring at
/// `expires_at`: the token's footer names a stored key id whose public key
/// verifies the token, and the embedded claims carry exactly this user and
/// expiry.
pub open spec fn session_grants(m: ModelView, t: Seq<char>, user_id: int, expires_at: int) -> bool {
    exists|kid: Seq<char>, e: Seq<char>|
        {
            &&& footer_kid_of(t) == Some(Some(kid))
            &&& #[trigger] m.sessions.dom().contains(kid)
            &&& session_claims_of(m.sessions[kid].public_key, t, session_implicit()) == Some(
                (Some(dec_str(user_id)), Some(e)),
            )
            &&& #[trigger] rfc3339_ts_of(e) == Some(expires_at)
        }
}

/// Mints a fresh session for a user: a new keypair, a signed token whose
/// footer carries the key id, and the key data to persist. The private key
/// never leaves the signing call.
fn fresh_session(user_id: UserId) -> (r: Result<(Session, String, String), Error>)
    requires
        user_id.valid(),
    ensures
        r matches Ok(out) ==> {
            &&& out.0.user_id == user_id
            &&& out.1@ == paserk_kid_of(out.2@)
            &&& footer_kid_of(out.0.token@) == Some(Some(out.1@))
            &&& exists|e: Seq<char>|
                session_claims_of(out.2@, out.0.token@, session_implicit()) == Some(
                    (Some(dec_str(user_id@)), Some(e)),
                ) && #[trigger] rfc3339_ts_of(e) == Some(out.0.expires_at as int)
        },
        r matches Err(e) ==> (e == Error::StoreError || e == Error::InvalidSessionClaim),
{
    let uid_str = user_id.to_string();
    let minted = match mint_session(uid_str.as_str(), 86400, session_implicit_bytes()) {
        None => {
            return Err(Error::StoreError);
        },
        Some(m) => m,
    };
    let expires_at = match parse_rfc3339_ts(minted.expires.as_str()) {
        None => {
            return Err(Error::InvalidSessionClaim);
        },
        Some(t) => t,
    };
    let session = Session { user_id, token: SessionToken(minted.token), expires_at };
    Ok((session, minted.kid, minted.public_key))
}

impl Session {
    /// Creates a new session for the given user, storing its verifying key.
    pub fn create(db: &mut Model, user_id: UserId) -> (r: Result<Session, Error>)
        requires
            old(db).wf(),
            user_id.valid(),
        ensures
            final(db).wf(),
            final(db)@.users == old(db)@.users,
            final(db)@.adhoc == old(db)@.adhoc,
            final(db)@.lobby == old(db)@.lobby,
            final(db)@.games == old(db)@.games,
            r matches Ok(s) ==> {
                &&& s.user_id == user_id
                &&& exists|kid: Seq<char>, pk: Seq<char>|
                    {
                        &&& footer_kid_of(s.token@) == Some(Some(kid))
                        &&& !old(db)@.sessions.dom().contains(kid)
                        &&& kid == paserk_kid_of(pk)
                        &&& final(db)@ == old(db)@.with_sessions(
                            #[trigger] old(db)@.sessions.insert(
                                kid,
                                (SessionKeyData {
                                    public_key: pk,
                                    expires_at: s.expires_at as int,
                                }),
                            ),
                        )
                    }
                &&& session_grants(final(db)@, s.token@, user_id@, s.expires_at as int)
            },
            r is Err ==> final(db)@ == old(db)@,
    {
        let (session, kid, public_key) = match fresh_session(user_id) {
            Err(e) => {
                return Err(e);
            },
            Ok(t) => t,
        };
        let ghost kid_v = kid@;
        let ghost pk_v = public_key@;
        if db.session_insert_new(kid, public_key, session.expires_at) {
            proof {
                assert(db@.sessions.dom().contains(kid_v));
                assert(db@.sessions[kid_v].public_key == pk_v);
                assert(session_grants(db@, session.token@, user_id@, session.expires_at as int));
            }
            Ok(session)
        } else {
            Err(Error::StoreError)
        }
    }

    /// Verifies a session token against the stored key its footer names.
    ///
    /// When the footer does not parse, names no key id, or names one with no
    /// stored row, the stated error comes back; a returned session always
    /// carries the user and expiry embedded in the verified claims.
    pub fn authenticate(db: &Model, session_token: SessionToken) -> (r: Result<Session, Error>)
        requires
            db.wf(),
        ensures
            footer_kid_of(session_token@) is None ==> r == Err::<Session, Error>(
                Error::InvalidTokenFormat,
            ),
            footer_kid_of(session_token@) == Some(None::<Seq<char>>) ==> r == Err::<Session, Error>(
                Error::MissingTokenId,
            ),
            footer_kid_of(session_token@) matches Some(Some(kid)) ==> (!db@.sessions.dom().contains(
                kid,
            ) ==> r == Err::<Session, Error>(Error::NonExistingToken)),
            r matches Ok(s) ==> s.token@ == session_token@ && s.user_id.valid() && session_grants(
                db@,
                session_token@,
                s.user_id@,
                s.expires_at as int,
            ),
    {
        let kid = match token_footer_kid(session_token.as_str()) {
            FooterKid::BadFormat => {
                return Err(Error::InvalidTokenFormat);
            },
            FooterKid::NoKid => {
                return Err(Error::MissingTokenId);
            },
            FooterKid::Kid(k) => k,
        };
        let row = match db.session_get(kid.as_str()) {
            None => {
                return Err(Error::NonExistingToken);
            },
            Some(row) => row,
        };
        let public_key = row.0;
        match paseto_verify_session(
            public_key.as_str(),
            session_token.as_str(),
            session_implicit_bytes(),
        ) {
            None => Err(Error::InvalidSignature),
            Some((iss, exp)) => {
                let session_data = match SessionData::from_iss(&iss) {
                    Err(e) => {
                        return Err(e);
                    },
                    Ok(sd) => sd,
                };
                let exp_str = match exp {
                    None => {
                        return Err(Error::InvalidSessionClaim);
                    },
                    Some(e) => e,
                };
                let expires_at = match parse_rfc3339_ts(exp_str.as_str()) {
                    None => {
                        return Err(Error::InvalidSessionClaim);
                    },
                    Some(t) => t,
                };
                proof {
                    assert(db@.sessions.dom().contains(kid@));
                    assert(session_claims_of(
                        db@.sessions[kid@].public_key,
                        session_token@,
                        session_implicit(),
                    ) == Some((Some(dec_str(session_data.user_id@)), Some(exp_str@))));
                    assert(session_grants(
                        db@,
                        session_token@,
                        session_data.user_id@,
                        expires_at as int,
                    ));
                }
                Ok(Session { user_id: session_data.user_id, token: session_token, expires_at })
            },
        }
    }

    /// Expires the session, removing its key row.
    ///
    /// The token is only parsed, not re-verified: the row is keyed by an
    /// identifier the client has already proved it knows. Removing an absent
    /// row is not an error.
    pub fn expire(self, db: &mut Model) -> (r: Result<(), Error>)
        requires
            old(db).wf(),
        ensures
            final(db).wf(),
            final(db)@.users == old(db)@.users,
            final(db)@.adhoc == old(db)@.adhoc,
            final(db)@.lobby == old(db)@.lobby,
            final(db)@.games == old(db)@.games,
            footer_kid_of(self.token@) is None ==> r == Err::<(), Error>(Error::InvalidTokenFormat)
                && final(db)@ == old(db)@,
            footer_kid_of(self.token@) == Some(None::<Seq<char>>) ==> r == Err::<(), Error>(
                Error::MissingTokenId,
            ) && final(db)@ == old(db)@,
            footer_kid_of(self.token@) matches Some(Some(kid)) ==> (r == Ok::<(), Error>(())
                && final(db)@ == old(db)@.with_sessions(old(db)@.sessions.remove(kid))),
            r is Err ==> final(db)@ == old(db)@,
    {
        let kid = match token_footer_kid(self.token.as_str()) {
            FooterKid::BadFormat => {
                return Err(Error::InvalidTokenFormat);
            },
            FooterKid::NoKid => {
                return Err(Error::MissingTokenId);
            },
            FooterKid::Kid(k) => k,
        };
        db.session_delete(kid.as_str());
        Ok(())
    }

    /// Refreshes the session: mints a new token and atomically rekeys the
    /// stored row from the old key id to the new one, which invalidates the
    /// old token.
    pub fn refresh(self, db: &mut Model) -> (r: Result<Session, Error>)
        requires
            old(db).wf(),
            self.user_id.valid(),
        ensures
            final(db).wf(),
            final(db)@.users == old(db)@.users,
            final(db)@.adhoc == old(db)@.adhoc,
            final(db)@.lobby == old(db)@.lobby,
            final(db)@.games == old(db)@.games,
            footer_kid_of(self.token@) is None ==> r == Err::<Session, Error>(
                Error::InvalidTokenFormat,
            ) && final(db)@ == old(db)@,
            footer_kid_of(self.token@) == Some(None::<Seq<char>>) ==> r == Err::<Session, Error>(
                Error::MissingTokenId,
            ) && final(db)@ == old(db)@,
            footer_kid_of(self.token@) matches Some(Some(kid)) ==> (!old(
                db,
            )@.sessions.dom().contains(kid) ==> r == Err::<Session, Error>(Error::NonExistingToken)),
            r matches Ok(ns) ==> {
                &&& ns.user_id == self.user_id
                &&& exists|old_kid: Seq<char>, new_kid: Seq<char>, pk: Seq<char>|
                    {
                        &&& footer_kid_of(self.token@) == Some(Some(old_kid))
                        &&& footer_kid_of(ns.token@) == Some(Some(new_kid))
                        &&& new_kid == paserk_kid_of(pk)
                        &&& final(db)@ == old(db)@.with_sessions(
                            #[trigger] old(db)@.sessions.remove(old_kid).insert(
                                new_kid,
                                (SessionKeyData {
                                    public_key: pk,
                                    expires_at: ns.expires_at as int,
                                }),
                            ),
                        )
                    }
                &&& session_grants(final(db)@, ns.token@, self.user_id@, ns.expires_at as int)
            },
            r is Err ==> final(db)@ == old(db)@,
    {
        let prev_kid = match token_footer_kid(self.token.as_str()) {
            FooterKid::BadFormat => {
                return Err(Error::InvalidTokenFormat);
            },
            FooterKid::NoKid => {
                return Err(Error::MissingTokenId);
            },
            FooterKid::Kid(k) => k,
        };
        if db.session_get(prev_kid.as_str()).is_none() {
            return Err(Error::NonExistingToken);
        }
        let (session, kid, public_key) = match fresh_session(self.user_id) {
            Err(e) => {
                return Err(e);
            },
            Ok(t) => t,
        };
        let ghost kid_v = kid@;
        let ghost pk_v = public_key@;
        if db.session_replace(prev_kid.as_str(), kid, public_key, session.expires_at) {
            proof {
                assert(db@.sessions.dom().contains(kid_v));
                assert(db@.sessions[kid_v].public_key == pk_v);
                assert(session_grants(db@, session.token@, self.user_id@, session.expires_at as int));
            }
            Ok(session)
        } else {
            Err(Error::StoreError)
        }
    }

    /// Cleans expired session key rows from the store: every row whose
    /// expiry lies strictly before `now` is removed, and no other changes.
    pub fn cleanup(db: &mut Model, now: i64)
        requires
            old(db).wf(),
        ensures
            final(db).wf(),
            final(db)@.users == old(db)@.users,
            final(db)@.adhoc == old(db)@.adhoc,
            final(db)@.lobby == old(db)@.lobby,
            final(db)@.games == old(db)@.games,
            forall|k: Seq<char>|
                final(db)@.sessions.dom().contains(k) <==> (#[trigger] old(
                    db,
                )@.sessions.dom().contains(k) && old(db)@.sessions[k].expires_at >= now),
            forall|k: Seq<char>|
                #[trigger] final(db)@.sessions.dom().contains(k) ==> final(db)@.sessions[k] == old(
                    db,
                )@.sessions[k],
    {
        db.cleanup(now);
    }
}


/// Clones the token string, view-preserving.
impl SessionToken {
    /// An element-wise copy.
    pub fn duplicate(&self) -> (r: SessionToken)
        ensures
            r@ == self@,
    {
        SessionToken(self.0.clone())
    }
}

/// Authentication method carried by the `Authorization` HTTP header.
#[derive(Debug, Clone)]
pub enum Authorization {
    /// An ad-hoc credential, `Authorization: AdHoc <token>`.
    AdHoc(AdHocToken),
    /// A session token, `Authorization: Session <token>`.
    Session(SessionToken),
}

impl Authorization {
    /// Parses an `Authorization` header value: a scheme and a token joined
    /// by the first space. Recognized schemes, case-sensitively: `AdHoc` and
    /// `Session`.
    pub fn from_str(s: &str) -> (r: Result<Authorization, Error>)
        ensures
            !contains_char(s@, ' ') ==> r == Err::<Authorization, Error>(
                Error::InvalidAuthorization,
            ),
            forall|scheme: Seq<char>, tok: Seq<char>|
                s@ == scheme + seq![' '] + tok && !contains_char(scheme, ' ') ==> {
                    &&& scheme == "AdHoc"@ ==> (r matches Ok(a) && a matches Authorization::AdHoc(
                        t,
                    ) && t@ == tok)
                    &&& scheme == "Session"@ ==> (r matches Ok(a)
                        && a matches Authorization::Session(t) && t@ == tok)
                    &&& (scheme != "AdHoc"@ && scheme != "Session"@) ==> r == Err::<
                        Authorization,
                        Error,
                    >(Error::InvalidAuthorizationScheme)
                },
    {
        let parts = match split_once_char(s, ' ') {
            Some(p) => p,
            None => {
                proof {
                    assert forall|scheme: Seq<char>, tok: Seq<char>|
                        s@ == scheme + seq![' '] + tok && !contains_char(scheme, ' ')
                            implies false by {
                        assert(s@[scheme.len() as int] == ' ');
                        assert(contains_char(s@, ' '));
                    }
                }
                return Err(Error::InvalidAuthorization);
            },
        };
        let (scheme, tok) = parts;
        let ghost sch0 = scheme@;
        let ghost tok0 = tok@;
        proof {
            assert forall|scheme_w: Seq<char>, tok_w: Seq<char>|
                s@ == scheme_w + seq![' '] + tok_w && !contains_char(scheme_w, ' ')
                    implies scheme_w == sch0 && tok_w == tok0 by {
                lemma_split_at_char_unique(scheme_w, tok_w, sch0, tok0, ' ');
            }
        }
        proof {
            reveal_strlit("AdHoc");
            reveal_strlit("Session");
            assert(contains_char(s@, ' ')) by {
                assert(s@[sch0.len() as int] == ' ');
            }
        }
        if crate::util::str_eq(scheme, "AdHoc") {
            Ok(Authorization::AdHoc(AdHocToken(tok.to_owned())))
        } else if crate::util::str_eq(scheme, "Session") {
            Ok(Authorization::Session(SessionToken(tok.to_owned())))
        } else {
            Err(Error::InvalidAuthorizationScheme)
        }
    }
}

impl UserId {
    /// Creates an ad-hoc credential for this user.
    pub fn create_adhoc_token(self, db: &mut Model) -> (r: Result<AdHocToken, Error>)
        requires
            old(db).wf(),
            self.valid(),
        ensures
            final(db).wf(),
            final(db)@.users == old(db)@.users,
            final(db)@.sessions == old(db)@.sessions,
            final(db)@.lobby == old(db)@.lobby,
            final(db)@.games == old(db)@.games,
            r matches Ok(tok) ==> {
                &&& contains_char(tok@, '.')
                &&& forall|l: Seq<char>, rest: Seq<char>|
                    tok@ == l + seq!['.'] + rest && !contains_char(l, '.')
                        ==> adhoc_outcome_for_parts(final(db)@, l, rest) == Ok::<int, Error>(
                        self@,
                    )
                &&& exists|tid: Seq<u8>, data: AdHocData|
                    {
                        &&& !old(db)@.adhoc.dom().contains(tid)
                        &&& data.user_id == self@
                        &&& final(db)@ == old(db)@.with_adhoc(
                            #[trigger] old(db)@.adhoc.insert(tid, data),
                        )
                    }
            },
            r matches Err(e) ==> e == Error::TokenIdCollision && final(db)@ == old(db)@,
    {
        AdHocToken::create(db, self)
    }

    /// Creates a session for this user.
    pub fn create_session(self, db: &mut Model) -> (r: Result<Session, Error>)
        requires
            old(db).wf(),
            self.valid(),
        ensures
            final(db).wf(),
            final(db)@.users == old(db)@.users,
            final(db)@.adhoc == old(db)@.adhoc,
            final(db)@.lobby == old(db)@.lobby,
            final(db)@.games == old(db)@.games,
            r matches Ok(s) ==> s.user_id == self && session_grants(
                final(db)@,
                s.token@,
                self@,
                s.expires_at as int,
            ),
            r is Err ==> final(db)@ == old(db)@,
    {
        Session::create(db, self)
    }
}

/// The session round trip, as far as the clock allows it to be stated: a
/// token determines its session. Creation ensures the store backs the fresh
/// token for exactly the created user and expiry (`session_grants`), and
/// verification ensures any returned session is one the store backs for that
/// token — so whenever verification of a created token succeeds, it returns
/// precisely the user and expiry that creation embedded. (Success itself
/// cannot be promised: the signature check validates `exp` against the wall
/// clock inside the outside call.)
pub proof fn lemma_session_grants_unique(
    m: ModelView,
    t: Seq<char>,
    u1: int,
    e1: int,
    u2: int,
    e2: int,
)
    requires
        session_grants(m, t, u1, e1),
        session_grants(m, t, u2, e2),
        u1 >= 0,
        u2 >= 0,
    ensures
        u1 == u2,
        e1 == e2,
{
    let (kid1, ee1): (Seq<char>, Seq<char>) = choose|kid: Seq<char>, e: Seq<char>|
        {
            &&& footer_kid_of(t) == Some(Some(kid))
            &&& #[trigger] m.sessions.dom().contains(kid)
            &&& session_claims_of(m.sessions[kid].public_key, t, session_implicit()) == Some(
                (Some(dec_str(u1)), Some(e)),
            )
            &&& #[trigger] rfc3339_ts_of(e) == Some(e1)
        };
    let (kid2, ee2): (Seq<char>, Seq<char>) = choose|kid: Seq<char>, e: Seq<char>|
        {
            &&& footer_kid_of(t) == Some(Some(kid))
            &&& #[trigger] m.sessions.dom().contains(kid)
            &&& session_claims_of(m.sessions[kid].public_key, t, session_implicit()) == Some(
                (Some(dec_str(u2)), Some(e)),
            )
            &&& #[trigger] rfc3339_ts_of(e) == Some(e2)
        };
    assert(kid1 == kid2);
    assert(dec_str(u1) == dec_str(u2));
    crate::numstr::lemma_dec_str_injective(u1, u2);
    assert(ee1 == ee2);
}

/// Post-expire: once the key row a token's footer names is removed, the
/// store backs no session for that token, and verification fails with
/// `NonExistingToken` by the authenticate contract.
pub proof fn lemma_post_expire_rejected(
    m0: ModelView,
    m1: ModelView,
    kid: Seq<char>,
    t: Seq<char>,
)
    requires
        footer_kid_of(t) == Some(Some(kid)),
        m1.sessions == m0.sessions.remove(kid),
    ensures
        !m1.sessions.dom().contains(kid),
        forall|u: int, e: int| !session_grants(m1, t, u, e),
{
    assert forall|u: int, e: int| !session_grants(m1, t, u, e) by {
        if session_grants(m1, t, u, e) {
            let (kidw, ew): (Seq<char>, Seq<char>) = choose|kidw: Seq<char>, ew: Seq<char>|
                {
                    &&& footer_kid_of(t) == Some(Some(kidw))
                    &&& #[trigger] m1.sessions.dom().contains(kidw)
                    &&& session_claims_of(m1.sessions[kidw].public_key, t, session_implicit())
                        == Some((Some(dec_str(u)), Some(ew)))
                    &&& #[trigger] rfc3339_ts_of(ew) == Some(e)
                };
            assert(kidw == kid);
        }
    }
}

/// Post-refresh: rekeying the stored row invalidates the old token — unless
/// the freshly derived key id collides with the old one, which happens with
/// negligible probability, the old token grants nothing and verification
/// fails with `NonExistingToken` by the authenticate contract.
pub proof fn lemma_post_refresh_old_token_rejected(
    m0: ModelView,
    m1: ModelView,
    old_kid: Seq<char>,
    new_kid: Seq<char>,
    data: SessionKeyData,
    t: Seq<char>,
)
    requires
        footer_kid_of(t) == Some(Some(old_kid)),
        new_kid != old_kid,
        m1.sessions == m0.sessions.remove(old_kid).insert(new_kid, data),
    ensures
        !m1.sessions.dom().contains(old_kid),
        forall|u: int, e: int| !session_grants(m1, t, u, e),
{
    assert forall|u: int, e: int| !session_grants(m1, t, u, e) by {
        if session_grants(m1, t, u, e) {
            let (kidw, ew): (Seq<char>, Seq<char>) = choose|kidw: Seq<char>, ew: Seq<char>|
                {
                    &&& footer_kid_of(t) == Some(Some(kidw))
                    &&& #[trigger] m1.sessions.dom().contains(kidw)
                    &&& session_claims_of(m1.sessions[kidw].public_key, t, session_implicit())
                        == Some((Some(dec_str(u)), Some(ew)))
                    &&& #[trigger] rfc3339_ts_of(ew) == Some(e)
                };
            assert(kidw == old_kid);
        }
    }
}

} // verus!
