//! Ad-hoc credential issuance and verification.

use gq_server::model::auth::{AdHocToken, Error};
use gq_server::model::users::User;
use gq_server::model::Model;

#[test]
fn verify_with_generated_token() {
    let mut m = Model::test();

    let user1 = User::new("user1").create(&mut m).unwrap();
    let token1 = user1.create_adhoc_token(&mut m).unwrap();
    let authorized_user = token1.authenticate(&m).unwrap();

    assert_eq!(user1, authorized_user);

    // Checking that everything works when more users are added
    let user2 = User::new("user2").create(&mut m).unwrap();
    let token2 = user2.create_adhoc_token(&mut m).unwrap();

    // Also multiple tokens for a single user;
    let token3 = user2.create_adhoc_token(&mut m).unwrap();

    let user4 = User::new("user1").create(&mut m).unwrap();
    let token4 = user4.create_adhoc_token(&mut m).unwrap();

    let authorized_user = token1.authenticate(&m).unwrap();
    assert_eq!(user1, authorized_user);

    let authorized_user = token2.authenticate(&m).unwrap();
    assert_eq!(user2, authorized_user);

    let authorized_user = token3.authenticate(&m).unwrap();
    assert_eq!(user2, authorized_user);

    let authorized_user = token4.authenticate(&m).unwrap();
    assert_eq!(user4, authorized_user);
}

#[test]
fn verify_with_random_data_fails() {
    let m = Model::test();

    let err = AdHocToken::new("fake_token".into()).authenticate(&m).unwrap_err();
    assert_eq!(err, Error::InvalidTokenFormat);
}

#[test]
fn verify_with_invalid_key_fails() {
    let m = Model::test();

    let err = AdHocToken::new("U7PydAY1TsKmmVGf4LS3YA==.PUGKx45wSK+0rhl4F2TDdg==".into())
        .authenticate(&m)
        .unwrap_err();
    assert_eq!(err, Error::NonExistingToken);
}

#[test]
fn tampered_token_rejected() {
    let mut m = Model::test();

    let user1 = User::new("user1").create(&mut m).unwrap();
    let user2 = User::new("user2").create(&mut m).unwrap();
    let token1 = user1.create_adhoc_token(&mut m).unwrap();
    let token2 = user2.create_adhoc_token(&mut m).unwrap();

    // Graft the second token's client-held part onto the first token's id:
    // the recomputed signature no longer matches the stored one.
    let (id1, _) = token1.as_str().split_once('.').unwrap();
    let (_, part2) = token2.as_str().split_once('.').unwrap();
    let forged = AdHocToken::new(format!("{}.{}", id1, part2));
    assert_eq!(forged.authenticate(&m).unwrap_err(), Error::SignatureMismatch);

    // The untampered tokens still verify.
    assert_eq!(token1.authenticate(&m).unwrap(), user1);
    assert_eq!(token2.authenticate(&m).unwrap(), user2);
}

#[test]
fn distinct_users_for_same_nickname() {
    let mut m = Model::test();

    // Nickname collisions are allowed; the users are still distinct.
    let u1 = User::new("user1").create(&mut m).unwrap();
    let u2 = User::new("user1").create(&mut m).unwrap();
    assert_ne!(u1, u2);

    let t1 = u1.create_adhoc_token(&mut m).unwrap();
    let t2 = u2.create_adhoc_token(&mut m).unwrap();
    assert_eq!(t1.authenticate(&m).unwrap(), u1);
    assert_eq!(t2.authenticate(&m).unwrap(), u2);
}
