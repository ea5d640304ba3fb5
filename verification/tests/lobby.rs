//! The lobby state machine: create, join, start.

use gq_server::model::game::{Error, GameId, LobbyGame};
use gq_server::model::users::User;
use gq_server::model::Model;
use gq_server::mutation::lobby::LobbyMutations;
use gq_server::query::Query;

fn session_for(m: &mut Model, nickname: &str) -> gq_server::model::auth::Session {
    let user = User::new(nickname).create(m).unwrap();
    user.create_session(m).unwrap()
}

#[test]
fn create_game() {
    let mut m = Model::test();

    let user = User::new("user1").create(&mut m).unwrap();

    let game1 = LobbyGame::create(&mut m, user).unwrap();
    assert_eq!(game1.created_by, user);
    assert_eq!(game1.player1, None);
    assert_eq!(game1.player2, None);

    let game2 = LobbyGame::create(&mut m, user).unwrap();
    assert_eq!(game2.created_by, user);
    assert_eq!(game2.player1, None);
    assert_eq!(game2.player2, None);

    assert_ne!(game1.id, game2.id);

    let row1 = m.lobby_get(&game1.id).unwrap();
    assert_eq!((user, None, None), (row1.created_by, row1.player1, row1.player2));

    let row2 = m.lobby_get(&game2.id).unwrap();
    assert_eq!((user, None, None), (row2.created_by, row2.player1, row2.player2));

    assert_eq!(m.lobby_count(), 2);
}

#[test]
fn seat_ordering() {
    let mut m = Model::test();
    let lobby = LobbyMutations::default();

    let creator = session_for(&mut m, "creator");
    let p1 = session_for(&mut m, "player1");
    let p2 = session_for(&mut m, "player2");
    let p3 = session_for(&mut m, "player3");

    let game = lobby.create_game(&mut m, Some(&creator)).unwrap();

    // First join fills player1, second fills player2, a third finds it full.
    lobby.join_game(&mut m, Some(&p1), game.clone()).unwrap();
    let row = m.lobby_get(&game).unwrap();
    assert_eq!(row.player1, Some(p1.user_id));
    assert_eq!(row.player2, None);

    lobby.join_game(&mut m, Some(&p2), game.clone()).unwrap();
    let row = m.lobby_get(&game).unwrap();
    assert_eq!(row.player1, Some(p1.user_id));
    assert_eq!(row.player2, Some(p2.user_id));

    let err = lobby.join_game(&mut m, Some(&p3), game.clone()).unwrap_err();
    assert_eq!(err, Error::GameFull);
}

#[test]
fn same_user_may_take_both_seats() {
    let mut m = Model::test();
    let lobby = LobbyMutations::default();

    let creator = session_for(&mut m, "creator");
    let game = lobby.create_game(&mut m, Some(&creator)).unwrap();

    lobby.join_game(&mut m, Some(&creator), game.clone()).unwrap();
    lobby.join_game(&mut m, Some(&creator), game.clone()).unwrap();
    let row = m.lobby_get(&game).unwrap();
    assert_eq!(row.player1, Some(creator.user_id));
    assert_eq!(row.player2, Some(creator.user_id));
}

#[test]
fn join_unknown_game() {
    let mut m = Model::test();
    let lobby = LobbyMutations::default();
    let s = session_for(&mut m, "user1");

    let unknown = GameId::new(vec![7u8; 16]);
    let err = lobby.join_game(&mut m, Some(&s), unknown).unwrap_err();
    assert_eq!(err, Error::GameNotFound);
}

#[test]
fn lobby_mutations_require_a_session() {
    let mut m = Model::test();
    let lobby = LobbyMutations::default();

    let err = lobby.create_game(&mut m, None).unwrap_err();
    assert_eq!(err, Error::Unauthorized);

    let id = GameId::new(vec![7u8; 16]);
    assert_eq!(lobby.join_game(&mut m, None, id.clone()).unwrap_err(), Error::Unauthorized);
    assert_eq!(lobby.start_game(&mut m, None, id).unwrap_err(), Error::Unauthorized);
}

#[test]
fn start_atomicity() {
    let mut m = Model::test();
    let lobby = LobbyMutations::default();
    let query = Query::new();

    let creator = session_for(&mut m, "creator");
    let p1 = session_for(&mut m, "player1");
    let p2 = session_for(&mut m, "player2");

    let game = lobby.create_game(&mut m, Some(&creator)).unwrap();

    // Starting with empty seats fails and changes nothing.
    let err = lobby.start_game(&mut m, Some(&creator), game.clone()).unwrap_err();
    assert_eq!(err, Error::MissingPlayer);
    assert!(m.lobby_get(&game).is_some());
    assert!(m.game_get(&game).is_none());

    lobby.join_game(&mut m, Some(&p1), game.clone()).unwrap();
    lobby.join_game(&mut m, Some(&p2), game.clone()).unwrap();

    // A participant (not the creator) may start the game.
    let started = lobby.start_game(&mut m, Some(&p1), game.clone()).unwrap();
    assert_eq!(started, game);

    // The id moved atomically from the lobby to the started games.
    assert!(query.lobby(&m, &game).is_none());
    let info = query.game(&m, &game).unwrap();
    assert_eq!(info.created_by, creator.user_id);
    assert_eq!(info.players, vec![p1.user_id, p2.user_id]);

    // Starting again fails: the game left the lobby.
    let err = lobby.start_game(&mut m, Some(&p2), game.clone()).unwrap_err();
    assert_eq!(err, Error::CannotStartGame);
    assert!(query.game(&m, &game).is_some());
}
