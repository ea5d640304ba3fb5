//! Lobby related mutations.
//!
//! Every mutation here demands an authenticated session; the seat-assignment
//! and start rules of the lobby state machine live in the contracts.

use vstd::prelude::*;

use crate::model::auth::Session;
use crate::model::game::{Error, GameId, LobbyData, LobbyGame};
use crate::model::Model;

verus! {

/// The lobby mutation surface.
#[derive(Debug)]
pub struct LobbyMutations;

impl Default for LobbyMutations {
    fn default() -> (r: LobbyMutations) {
        LobbyMutations {}
    }
}

impl LobbyMutations {
    /// Creates a new game in the lobby and returns its id, which players
    /// pass around to join. Requires an authenticated session; the creator
    /// is the session's user, and both seats start empty.
    pub fn create_game(&self, db: &mut Model, session: Option<&Session>) -> (r: Result<
        GameId,
        Error,
    >)
        requires
            old(db).wf(),
        ensures
            final(db).wf(),
            final(db)@.users == old(db)@.users,
            final(db)@.adhoc == old(db)@.adhoc,
            final(db)@.sessions == old(db)@.sessions,
            final(db)@.games == old(db)@.games,
            session is None ==> r == Err::<GameId, Error>(Error::Unauthorized) && final(db)@ == old(
                db,
            )@,
            session matches Some(s) ==> (!old(db)@.users.dom().contains(s.user_id@) ==> r == Err::<
                GameId,
                Error,
            >(Error::StoreError)),
            r matches Ok(gid) ==> (session matches Some(s) && {
                &&& !old(db)@.lobby.dom().contains(gid@)
                &&& !old(db)@.games.dom().contains(gid@)
                &&& final(db)@ == old(db)@.with_lobby(
                    old(db)@.lobby.insert(
                        gid@,
                        (LobbyData { created_by: s.user_id@, player1: None, player2: None }),
                    ),
                )
            }),
            r is Err ==> final(db)@ == old(db)@,
    {
        let s = match session {
            None => {
                return Err(Error::Unauthorized);
            },
            Some(s) => s,
        };
        match LobbyGame::create(db, s.user_id) {
            Ok(game) => Ok(game.id),
            Err(e) => Err(e),
        }
    }

    /// Takes a seat in the lobby game; the game id is returned.
    ///
    /// The session's user fills `player1` when it is empty, else `player2`
    /// when it is empty, else the game is full. Joining twice is not
    /// detected: the same user may occupy both seats.
    pub fn join_game(&self, db: &mut Model, session: Option<&Session>, game_id: GameId) -> (r:
        Result<GameId, Error>)
        requires
            old(db).wf(),
        ensures
            final(db).wf(),
            final(db)@.users == old(db)@.users,
            final(db)@.adhoc == old(db)@.adhoc,
            final(db)@.sessions == old(db)@.sessions,
            final(db)@.games == old(db)@.games,
            session is None ==> r == Err::<GameId, Error>(Error::Unauthorized) && final(db)@ == old(
                db,
            )@,
            session matches Some(s) ==> {
                &&& !old(db)@.lobby.dom().contains(game_id@) ==> r == Err::<GameId, Error>(
                    Error::GameNotFound,
                ) && final(db)@ == old(db)@
                &&& (old(db)@.lobby.dom().contains(game_id@) && old(
                    db,
                )@.lobby[game_id@].player1 is Some && old(db)@.lobby[game_id@].player2 is Some)
                    ==> r == Err::<GameId, Error>(Error::GameFull) && final(db)@ == old(db)@
                &&& (old(db)@.lobby.dom().contains(game_id@) && old(
                    db,
                )@.lobby[game_id@].player1 is None && old(db)@.users.dom().contains(s.user_id@))
                    ==> (r matches Ok(gid) && gid@ == game_id@ && final(db)@ == old(db)@.with_lobby(
                    old(db)@.lobby.insert(
                        game_id@,
                        (LobbyData {
                            created_by: old(db)@.lobby[game_id@].created_by,
                            player1: Some(s.user_id@),
                            player2: old(db)@.lobby[game_id@].player2,
                        }),
                    ),
                ))
                &&& (old(db)@.lobby.dom().contains(game_id@) && old(
                    db,
                )@.lobby[game_id@].player1 is Some && old(db)@.lobby[game_id@].player2 is None
                    && old(db)@.users.dom().contains(s.user_id@)) ==> (r matches Ok(gid) && gid@
                    == game_id@ && final(db)@ == old(db)@.with_lobby(
                    old(db)@.lobby.insert(
                        game_id@,
                        (LobbyData {
                            created_by: old(db)@.lobby[game_id@].created_by,
                            player1: old(db)@.lobby[game_id@].player1,
                            player2: Some(s.user_id@),
                        }),
                    ),
                ))
            },
            r is Err ==> final(db)@ == old(db)@,
    {
        let s = match session {
            None => {
                return Err(Error::Unauthorized);
            },
            Some(s) => s,
        };
        let mut game = match db.lobby_get(&game_id) {
            None => {
                return Err(Error::GameNotFound);
            },
            Some(g) => g,
        };
        if game.player1.is_none() {
            game.player1 = Some(s.user_id);
        } else if game.player2.is_none() {
            game.player2 = Some(s.user_id);
        } else {
            return Err(Error::GameFull);
        }
        if db.fetch_user(s.user_id.raw()).is_none() {
            return Err(Error::StoreError);
        }
        if db.lobby_update(game) {
            Ok(game_id)
        } else {
            Err(Error::GameNotFound)
        }
    }

    /// Starts the game: atomically moves it from the lobby to the started
    /// games. Any authenticated user who can name the id may start it; the
    /// caller need not be a participant.
    pub fn start_game(&self, db: &mut Model, session: Option<&Session>, game_id: GameId) -> (r:
        Result<GameId, Error>)
        requires
            old(db).wf(),
        ensures
            final(db).wf(),
            final(db)@.users == old(db)@.users,
            final(db)@.adhoc == old(db)@.adhoc,
            final(db)@.sessions == old(db)@.sessions,
            session is None ==> r == Err::<GameId, Error>(Error::Unauthorized) && final(db)@ == old(
                db,
            )@,
            session is Some ==> {
                &&& !old(db)@.lobby.dom().contains(game_id@) ==> r == Err::<GameId, Error>(
                    Error::CannotStartGame,
                )
                &&& (old(db)@.lobby.dom().contains(game_id@) && (old(
                    db,
                )@.lobby[game_id@].player1 is None || old(db)@.lobby[game_id@].player2 is None))
                    ==> r == Err::<GameId, Error>(Error::MissingPlayer)
                &&& r matches Ok(gid) ==> {
                    &&& gid@ == game_id@
                    &&& old(db)@.lobby.dom().contains(game_id@)
                    &&& final(db)@ == old(db)@.with_lobby(
                        old(db)@.lobby.remove(game_id@),
                    ).with_games(
                        old(db)@.games.insert(
                            game_id@,
                            (crate::model::game::GameData {
                                created_by: old(db)@.lobby[game_id@].created_by,
                                player1: old(db)@.lobby[game_id@].player1->0,
                                player2: old(db)@.lobby[game_id@].player2->0,
                            }),
                        ),
                    )
                }
                &&& (old(db)@.lobby.dom().contains(game_id@) && old(
                    db,
                )@.lobby[game_id@].player1 is Some && old(db)@.lobby[game_id@].player2 is Some)
                    ==> r is Ok
            },
            r is Err ==> final(db)@ == old(db)@,
    {
        if session.is_none() {
            return Err(Error::Unauthorized);
        }
        match db.start_game(&game_id) {
            Ok(_game) => Ok(game_id),
            Err(e) => Err(e),
        }
    }
}

} // verus!
