//! Main query entry point.

use vstd::prelude::*;

pub mod users;

use crate::model::game::{Game, GameId};
use crate::model::users::{User, UserId};
use crate::model::Model;

verus! {

/// The query surface.
#[derive(Debug)]
pub struct Query;

impl Default for Query {
    fn default() -> (r: Query) {
        Query {}
    }
}

/// The public shape of a game: its creator and the occupied seats in order.
#[derive(Debug, Clone)]
pub struct GameInfo {
    /// Who created the game.
    pub created_by: UserId,
    /// The occupied seats, player 1 first.
    pub players: Vec<UserId>,
}

/// The occupied seats of a lobby row, player 1 first.
pub open spec fn seats_seq(player1: Option<int>, player2: Option<int>) -> Seq<int> {
    (match player1 {
        Some(u) => seq![u],
        None => Seq::<int>::empty(),
    }) + (match player2 {
        Some(u) => seq![u],
        None => Seq::<int>::empty(),
    })
}

impl Query {
    /// A fresh query root.
    pub fn new() -> (r: Query) {
        Query {}
    }

    /// Gets a user by their id; no authentication required.
    pub fn user(&self, db: &Model, id: UserId) -> (r: Option<User>)
        requires
            db.wf(),
        ensures
            r matches Some(u) ==> db@.users.dom().contains(id@) && u.nickname@ == db@.users[id@],
            r is None ==> !db@.users.dom().contains(id@),
    {
        User::fetch(db, id)
    }

    /// Gets the lobby game info by its id; no authentication required.
    pub fn lobby(&self, db: &Model, id: &GameId) -> (r: Option<GameInfo>)
        requires
            db.wf(),
        ensures
            r matches Some(info) ==> {
                &&& db@.lobby.dom().contains(id@)
                &&& info.created_by@ == db@.lobby[id@].created_by
                &&& info.players.deep_view() == seats_seq(
                    db@.lobby[id@].player1,
                    db@.lobby[id@].player2,
                )
            },
            r is None ==> !db@.lobby.dom().contains(id@),
    {
        let game = match db.lobby_get(id) {
            None => {
                return None;
            },
            Some(g) => g,
        };
        let mut players: Vec<UserId> = Vec::new();
        if let Some(p) = game.player1 {
            players.push(p);
        }
        if let Some(p) = game.player2 {
            players.push(p);
        }
        proof {
            assert(players.deep_view() =~= seats_seq(
                db@.lobby[id@].player1,
                db@.lobby[id@].player2,
            ));
        }
        Some(GameInfo { created_by: game.created_by, players })
    }

    /// Gets a started game's info by its id; no authentication required.
    /// Both seats of a started game are filled.
    pub fn game(&self, db: &Model, id: &GameId) -> (r: Option<GameInfo>)
        requires
            db.wf(),
        ensures
            r matches Some(info) ==> {
                &&& db@.games.dom().contains(id@)
                &&& info.created_by@ == db@.games[id@].created_by
                &&& info.players.deep_view() == seq![
                    db@.games[id@].player1,
                    db@.games[id@].player2,
                ]
            },
            r is None ==> !db@.games.dom().contains(id@),
    {
        let game: Game = match db.game_get(id) {
            None => {
                return None;
            },
            Some(g) => g,
        };
        let mut players: Vec<UserId> = Vec::new();
        players.push(game.player1);
        players.push(game.player2);
        proof {
            assert(players.deep_view() =~= seq![db@.games[id@].player1, db@.games[id@].player2]);
        }
        Some(GameInfo { created_by: game.created_by, players })
    }
}

} // verus!
