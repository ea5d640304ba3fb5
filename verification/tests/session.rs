//! PASETO session lifecycle: create, verify, refresh, expire, sweep.

use gq_server::model::auth::{Error, Session, SessionToken};
use gq_server::model::users::User;
use gq_server::model::Model;

use pasetors::claims::Claims;
use pasetors::footer::Footer;
use pasetors::keys::{AsymmetricKeyPair, Generate};
use pasetors::paserk::Id;
use pasetors::token::UntrustedToken;
use pasetors::version4::V4;
use pasetors::Public;

fn now_ts() -> i64 {
    chrono::Utc::now().timestamp()
}

#[test]
fn session_verify_with_generated_token() {
    let mut m = Model::test();

    let user1 = User::new("user1").create(&mut m).unwrap();
    let token1 = user1.create_session(&mut m).unwrap().token;

    let session = token1.clone().authenticate(&m).unwrap();
    assert_eq!(user1, session.user_id);

    let user2 = User::new("user2").create(&mut m).unwrap();
    let token2 = user2.create_session(&mut m).unwrap().token;

    // Also multiple tokens for a single user;
    let token3 = user2.create_session(&mut m).unwrap().token;

    let user4 = User::new("user1").create(&mut m).unwrap();
    let token4 = user4.create_session(&mut m).unwrap().token;

    let session = token1.authenticate(&m).unwrap();
    assert_eq!(user1, session.user_id);

    let session = token2.authenticate(&m).unwrap();
    assert_eq!(user2, session.user_id);

    let session = token3.authenticate(&m).unwrap();
    assert_eq!(user2, session.user_id);

    let session = token4.authenticate(&m).unwrap();
    assert_eq!(user4, session.user_id);
}

#[test]
fn session_verify_with_random_data_fails() {
    let m = Model::test();
    let err = SessionToken::new("fake_token".into()).authenticate(&m).unwrap_err();
    assert_eq!(err, Error::InvalidTokenFormat);
}

#[test]
fn verify_with_expired_session_fails() {
    let mut m = Model::test();

    let user_id = User::new("user1").create(&mut m).unwrap();
    let session = user_id.create_session(&mut m).unwrap();
    let token = session.token.clone();

    session.expire(&mut m).unwrap();

    let err = token.authenticate(&m).unwrap_err();
    assert_eq!(err, Error::NonExistingToken);
}

#[test]
fn session_refresh() {
    let mut m = Model::test();

    let user_id = User::new("user1").create(&mut m).unwrap();
    let old_session = user_id.create_session(&mut m).unwrap();
    let session = old_session.clone().refresh(&mut m).unwrap();

    assert_ne!(old_session.token, session.token);

    let err = old_session.token.authenticate(&m).unwrap_err();
    assert_eq!(err, Error::NonExistingToken);
    let authenticated = session.token.clone().authenticate(&m).unwrap();
    assert_eq!(session, authenticated);
}

#[test]
fn session_round_trip_reports_expiry() {
    let mut m = Model::test();

    let user_id = User::new("user1").create(&mut m).unwrap();
    let session = user_id.create_session(&mut m).unwrap();

    // 24 hours from now, give or take the call itself.
    let now = now_ts();
    assert!(session.expires_at > now + 86000 && session.expires_at <= now + 86600);

    let verified = session.token.clone().authenticate(&m).unwrap();
    assert_eq!(verified.user_id, user_id);
    assert_eq!(verified.expires_at, session.expires_at);
}

#[test]
fn cleanup_sweeps_only_expired_rows() {
    let mut m = Model::test();

    let user_id = User::new("user1").create(&mut m).unwrap();
    let session = user_id.create_session(&mut m).unwrap();

    // Sweeping at the current time keeps the live session.
    Session::cleanup(&mut m, now_ts());
    assert!(session.token.clone().authenticate(&m).is_ok());

    // Sweeping after its expiry removes it.
    Session::cleanup(&mut m, session.expires_at + 1);
    assert_eq!(session.token.authenticate(&m).unwrap_err(), Error::NonExistingToken);
}

#[test]
fn token_without_kid_is_rejected() {
    let mut m = Model::test();
    let user_id = User::new("user1").create(&mut m).unwrap();
    user_id.create_session(&mut m).unwrap();

    let implicit = b"AsyncDeckbuilderAppSessionTokenSecret";
    let kp = AsymmetricKeyPair::<V4>::generate().unwrap();
    let claims = Claims::new().unwrap();

    // A well-formed token with no footer at all.
    let bare = pasetors::public::sign(&kp.secret, &claims, None, Some(implicit)).unwrap();
    let err = SessionToken::new(bare).authenticate(&m).unwrap_err();
    assert_eq!(err, Error::InvalidTokenFormat);

    // A well-formed token whose footer carries no `kid` claim.
    let mut footer = Footer::new();
    footer.add_additional("note", "no key id here").unwrap();
    let no_kid =
        pasetors::public::sign(&kp.secret, &claims, Some(&footer), Some(implicit)).unwrap();
    let err = SessionToken::new(no_kid).authenticate(&m).unwrap_err();
    assert_eq!(err, Error::MissingTokenId);
}

#[test]
fn token_signed_by_foreign_key_is_rejected() {
    let mut m = Model::test();
    let user_id = User::new("user1").create(&mut m).unwrap();
    let session = user_id.create_session(&mut m).unwrap();

    // Reuse the stored session's key id, but sign with an unrelated keypair.
    let parsed = UntrustedToken::<Public, V4>::try_from(session.token.as_str()).unwrap();
    let mut stored_footer = Footer::new();
    stored_footer.parse_bytes(parsed.untrusted_footer()).unwrap();
    let kid = stored_footer.get_claim("kid").unwrap().as_str().unwrap().to_owned();
    let implicit = b"AsyncDeckbuilderAppSessionTokenSecret";
    let kp = AsymmetricKeyPair::<V4>::generate().unwrap();
    let mut claims = Claims::new().unwrap();
    claims.issuer("1").unwrap();
    let id = Id::try_from(kid.as_str()).unwrap();
    let mut footer = Footer::new();
    footer.key_id(&id);
    let forged =
        pasetors::public::sign(&kp.secret, &claims, Some(&footer), Some(implicit)).unwrap();

    let err = SessionToken::new(forged).authenticate(&m).unwrap_err();
    assert_eq!(err, Error::InvalidSignature);
}
