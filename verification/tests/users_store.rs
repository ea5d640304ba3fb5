//! The users table of the store.

use gq_server::model::users::{User, UserId};
use gq_server::model::Model;
use gq_server::query::Query;

#[test]
fn users_empty_initially() {
    let m = Model::test();
    assert_eq!(m.user_count(), 0);
}

#[test]
fn creating_users() {
    let mut m = Model::test();

    let user1 = User::new("user1").create(&mut m).unwrap();
    assert_eq!(user1.fetch(&m).unwrap(), User::new("user1"));

    let user2 = User::new("user2").create(&mut m).unwrap();
    assert_ne!(user1, user2);
    assert_eq!(user2.fetch(&m).unwrap(), User::new("user2"));

    // Usernames *can* collide
    let user3 = User::new("user1").create(&mut m).unwrap();
    assert_ne!(user3, user1);
    assert_eq!(user3.fetch(&m).unwrap(), User::new("user1"));

    assert_eq!(m.user_count(), 3);
}

#[test]
fn fetch_unknown_user() {
    let mut m = Model::test();
    let user1 = User::new("user1").create(&mut m).unwrap();

    let query = Query::new();
    assert_eq!(query.user(&m, user1).unwrap(), User::new("user1"));
    let unknown = UserId::from_str("999").unwrap();
    assert!(query.user(&m, unknown).is_none());
}

#[test]
fn user_id_string_round_trip() {
    // The id travels through token claims as its canonical decimal string.
    let id = UserId::from_str("42").unwrap();
    assert_eq!(id.to_string(), "42");
    let large = UserId::from_str("9223372036854775807").unwrap();
    assert_eq!(large.to_string(), "9223372036854775807");

    // Only canonical positive decimals are accepted.
    assert!(UserId::from_str("0").is_err());
    assert!(UserId::from_str("042").is_err());
    assert!(UserId::from_str("").is_err());
    assert!(UserId::from_str("4x2").is_err());
    assert!(UserId::from_str("9223372036854775808").is_err());
}
