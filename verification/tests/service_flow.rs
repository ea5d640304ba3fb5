//! Request-level flows through the authorization step and the endpoints.

use gq_server::model::auth::Error;
use gq_server::model::Model;
use gq_server::mutation::lobby::LobbyMutations;
use gq_server::mutation::users::UsersMutations;
use gq_server::query::Query;
use gq_server::service::expire_session;
use gq_server::service::session::middleware;

fn now_ts() -> i64 {
    chrono::Utc::now().timestamp()
}

#[test]
fn create_ad_hoc_users() {
    let mut m = Model::test();
    let users = UsersMutations::default();
    let query = Query::new();

    // Adding a single user
    let created = users.create_adhoc(&mut m, "user1".into()).unwrap();
    let user1 = created.user;
    assert_eq!(query.user(&m, user1).unwrap().nickname, "user1");

    // Add two more users, introducing a nickname collision
    let created2 = users.create_adhoc(&mut m, "user2".into()).unwrap();
    let created3 = users.create_adhoc(&mut m, "user1".into()).unwrap();
    let user2 = created2.user;
    let user3 = created3.user;

    assert_eq!(query.user(&m, user2).unwrap().nickname, "user2");
    assert_eq!(query.user(&m, user3).unwrap().nickname, "user1");

    // All users are distinct
    assert_ne!(user1, user2);
    assert_ne!(user2, user3);
    assert_ne!(user1, user3);
}

#[test]
fn refresh_without_session_header() {
    let mut m = Model::test();

    let outcome = middleware(&mut m, None, now_ts()).unwrap();
    assert!(outcome.session.is_none());
    assert!(outcome.new_token.is_none());
}

#[test]
fn refresh_with_adhoc_session_flow() {
    let mut m = Model::test();
    let users = UsersMutations::default();

    let created = users.create_adhoc(&mut m, "user1".into()).unwrap();
    let adhoc_token = created.token;

    // An ad-hoc credential is upgraded: a session token is surfaced.
    let header = format!("AdHoc {}", adhoc_token.as_str());
    let outcome = middleware(&mut m, Some(&header), now_ts()).unwrap();
    let session_token1 = outcome.new_token.expect("upgrade must surface a token");
    assert_eq!(outcome.session.unwrap().user_id, created.user);

    // A second upgrade mints a distinct session.
    let outcome = middleware(&mut m, Some(&header), now_ts()).unwrap();
    let session_token2 = outcome.new_token.expect("upgrade must surface a token");
    assert_ne!(session_token1, session_token2);

    // A fresh session passes through without a new header.
    let header1 = format!("Session {}", session_token1.as_str());
    let outcome = middleware(&mut m, Some(&header1), now_ts()).unwrap();
    assert!(outcome.new_token.is_none());
    assert_eq!(outcome.session.unwrap().user_id, created.user);
}

#[test]
fn refresh_with_invalid_authorization_header() {
    let mut m = Model::test();

    let err = middleware(&mut m, Some("junk"), now_ts()).unwrap_err();
    assert_eq!(err, Error::InvalidAuthorization);

    let err = middleware(&mut m, Some("AdHoc junk"), now_ts()).unwrap_err();
    assert_eq!(err, Error::InvalidTokenFormat);

    let err = middleware(&mut m, Some("Session junk"), now_ts()).unwrap_err();
    assert_eq!(err, Error::InvalidTokenFormat);

    let err = middleware(&mut m, Some("Basic junk"), now_ts()).unwrap_err();
    assert_eq!(err, Error::InvalidAuthorizationScheme);
}

#[test]
fn expire_session_without_authorization() {
    let mut m = Model::test();
    assert!(expire_session(&mut m, None).is_ok());
}

#[test]
fn expire_session_rejects_deleted_token() {
    let mut m = Model::test();
    let users = UsersMutations::default();

    let created = users.create_adhoc(&mut m, "user1".into()).unwrap();
    let header = format!("AdHoc {}", created.token.as_str());
    let outcome = middleware(&mut m, Some(&header), now_ts()).unwrap();
    let session_token = outcome.new_token.unwrap();

    // DELETE /session with the bearer session closes it...
    let header = format!("Session {}", session_token.as_str());
    let outcome = middleware(&mut m, Some(&header), now_ts()).unwrap();
    expire_session(&mut m, outcome.session).unwrap();

    // ...and the token no longer authorizes anything.
    let err = middleware(&mut m, Some(&header), now_ts()).unwrap_err();
    assert_eq!(err, Error::NonExistingToken);
}

#[test]
fn adhoc_session_refresh_and_expire_flow() {
    let mut m = Model::test();
    let users = UsersMutations::default();

    let created = users.create_adhoc(&mut m, "user1".into()).unwrap();
    let adhoc_header = format!("AdHoc {}", created.token.as_str());
    let outcome = middleware(&mut m, Some(&adhoc_header), now_ts()).unwrap();
    let session_token = outcome.new_token.unwrap();

    let session_header = format!("Session {}", session_token.as_str());
    let outcome = middleware(&mut m, Some(&session_header), now_ts()).unwrap();
    assert!(outcome.new_token.is_none());

    let outcome = middleware(&mut m, Some(&session_header), now_ts()).unwrap();
    expire_session(&mut m, outcome.session).unwrap();

    let err = middleware(&mut m, Some(&session_header), now_ts()).unwrap_err();
    assert_eq!(err, Error::NonExistingToken);
}

#[test]
fn near_expiry_session_is_refreshed() {
    let mut m = Model::test();
    let users = UsersMutations::default();

    let created = users.create_adhoc(&mut m, "user1".into()).unwrap();
    let header = format!("AdHoc {}", created.token.as_str());
    let outcome = middleware(&mut m, Some(&header), now_ts()).unwrap();
    let session_token = outcome.new_token.unwrap();

    // Pretend the request arrives five minutes before the session expires:
    // the middleware refreshes it in place and surfaces the new token.
    let session = outcome.session.unwrap();
    let late = session.expires_at - 300;
    let session_header = format!("Session {}", session_token.as_str());
    let outcome = middleware(&mut m, Some(&session_header), late).unwrap();
    let refreshed_token = outcome.new_token.expect("near-expiry session must be refreshed");
    assert_ne!(refreshed_token, session_token);

    // The old token is gone; the refreshed one authorizes.
    let err = middleware(&mut m, Some(&session_header), now_ts()).unwrap_err();
    assert_eq!(err, Error::NonExistingToken);
    let refreshed_header = format!("Session {}", refreshed_token.as_str());
    let outcome = middleware(&mut m, Some(&refreshed_header), now_ts()).unwrap();
    assert_eq!(outcome.session.unwrap().user_id, created.user);
}

#[test]
fn create_two_lobby_games() {
    let mut m = Model::test();
    let users = UsersMutations::default();
    let lobby = LobbyMutations::default();
    let query = Query::new();

    let created = users.create_adhoc(&mut m, "user1".into()).unwrap();
    let header = format!("AdHoc {}", created.token.as_str());

    let outcome = middleware(&mut m, Some(&header), now_ts()).unwrap();
    let game_id1 = lobby.create_game(&mut m, outcome.session.as_ref()).unwrap();

    let outcome = middleware(&mut m, Some(&header), now_ts()).unwrap();
    let game_id2 = lobby.create_game(&mut m, outcome.session.as_ref()).unwrap();

    assert_ne!(game_id1, game_id2);

    let info1 = query.lobby(&m, &game_id1).unwrap();
    assert_eq!(info1.created_by, created.user);
    assert_eq!(info1.players, vec![]);

    let info2 = query.lobby(&m, &game_id2).unwrap();
    assert_eq!(info2.created_by, created.user);
    assert_eq!(info2.players, vec![]);
}

#[test]
fn lobby_game_join_flow() {
    let mut m = Model::test();
    let users = UsersMutations::default();
    let lobby = LobbyMutations::default();
    let query = Query::new();

    let creator = users.create_adhoc(&mut m, "creator".into()).unwrap();
    let player1 = users.create_adhoc(&mut m, "player1".into()).unwrap();
    let player2 = users.create_adhoc(&mut m, "player2".into()).unwrap();

    let creator_header = format!("AdHoc {}", creator.token.as_str());
    let outcome = middleware(&mut m, Some(&creator_header), now_ts()).unwrap();
    let game_id = lobby.create_game(&mut m, outcome.session.as_ref()).unwrap();

    let info = query.lobby(&m, &game_id).unwrap();
    assert_eq!(info.created_by, creator.user);
    assert_eq!(info.players, vec![]);

    let p1_header = format!("AdHoc {}", player1.token.as_str());
    let outcome = middleware(&mut m, Some(&p1_header), now_ts()).unwrap();
    let joined = lobby.join_game(&mut m, outcome.session.as_ref(), game_id.clone()).unwrap();
    assert_eq!(joined, game_id);

    let info = query.lobby(&m, &game_id).unwrap();
    assert_eq!(info.created_by, creator.user);
    assert_eq!(info.players, vec![player1.user]);

    let p2_header = format!("AdHoc {}", player2.token.as_str());
    let outcome = middleware(&mut m, Some(&p2_header), now_ts()).unwrap();
    let joined = lobby.join_game(&mut m, outcome.session.as_ref(), game_id.clone()).unwrap();
    assert_eq!(joined, game_id);

    let info = query.lobby(&m, &game_id).unwrap();
    assert_eq!(info.created_by, creator.user);
    assert_eq!(info.players, vec![player1.user, player2.user]);

    // Either player may start; the game moves atomically out of the lobby.
    let outcome = middleware(&mut m, Some(&p2_header), now_ts()).unwrap();
    let started = lobby.start_game(&mut m, outcome.session.as_ref(), game_id.clone()).unwrap();
    assert_eq!(started, game_id);

    assert!(query.lobby(&m, &game_id).is_none());
    let info = query.game(&m, &game_id).unwrap();
    assert_eq!(info.created_by, creator.user);
    assert_eq!(info.players, vec![player1.user, player2.user]);
}
