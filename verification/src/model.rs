//! The service's data model: a transactional in-memory store.
//!
//! A deployment would keep this state in an embedded relational engine; the
//! library holds the tables in memory, with their relational invariants
//! (unique keys, the lobby/games id disjointness behind the atomic start
//! transition) stated and verified. Every mutating operation either succeeds
//! with the stated effect or leaves the model unchanged, which is the
//! transactional behaviour requests rely on.

use vstd::prelude::*;

pub mod auth;
pub mod game;
pub mod tables;
pub mod users;

use crate::model::game::{
    lobby_data_of, game_data_of, Game, GameData, GameId, GamesTable, LobbyData, LobbyGame,
    LobbyTable,
};
use crate::model::tables::{AdHocData, AdHocRecord, AdHocTable, SessionKeyData, SessionTable};
use crate::model::tables::adhoc_data_of;
use crate::model::users::{User, UserId, Users};

verus! {

/// The abstract contents of the store.
pub ghost struct ModelView {
    /// Users: id to nickname.
    pub users: Map<int, Seq<char>>,
    /// Ad-hoc credentials: 16-byte token id to stored credential data.
    pub adhoc: Map<Seq<u8>, AdHocData>,
    /// Session verifying keys: PASERK key id to key data.
    pub sessions: Map<Seq<char>, SessionKeyData>,
    /// Games waiting in the lobby: game id to seats.
    pub lobby: Map<Seq<u8>, LobbyData>,
    /// Started games: game id to players.
    pub games: Map<Seq<u8>, GameData>,
}

impl ModelView {
    /// This view with the users table replaced.
    pub open spec fn with_users(self, users: Map<int, Seq<char>>) -> ModelView {
        ModelView { users, ..self }
    }

    /// This view with the ad-hoc credentials table replaced.
    pub open spec fn with_adhoc(self, adhoc: Map<Seq<u8>, AdHocData>) -> ModelView {
        ModelView { adhoc, ..self }
    }

    /// This view with the session keys table replaced.
    pub open spec fn with_sessions(self, sessions: Map<Seq<char>, SessionKeyData>) -> ModelView {
        ModelView { sessions, ..self }
    }

    /// This view with the lobby table replaced.
    pub open spec fn with_lobby(self, lobby: Map<Seq<u8>, LobbyData>) -> ModelView {
        ModelView { lobby, ..self }
    }

    /// This view with the started-games table replaced.
    pub open spec fn with_games(self, games: Map<Seq<u8>, GameData>) -> ModelView {
        ModelView { games, ..self }
    }
}

/// The store handle the components operate on.
pub struct Model {
    users: Users,
    adhoc_tokens: AdHocTable,
    session_tokens: SessionTable,
    lobby: LobbyTable,
    games: GamesTable,
}

impl View for Model {
    type V = ModelView;

    closed spec fn view(&self) -> ModelView {
        ModelView {
            users: self.users@,
            adhoc: self.adhoc_tokens@,
            sessions: self.session_tokens@,
            lobby: self.lobby@,
            games: self.games@,
        }
    }
}

impl Model {
    /// All table invariants hold.
    pub closed spec fn wf(&self) -> bool {
        &&& self.users.wf()
        &&& self.adhoc_tokens.wf()
        &&& self.session_tokens.wf()
        &&& self.lobby.wf()
        &&& self.games.wf()
        &&& forall|k: Seq<u8>|
            #[trigger] self.lobby@.dom().contains(k) ==> !self.games@.dom().contains(k)
    }

    /// An empty store, as a test context starts with.
    pub fn test() -> (r: Model)
        ensures
            r.wf(),
            r@.users == Map::<int, Seq<char>>::empty(),
            r@.adhoc == Map::<Seq<u8>, AdHocData>::empty(),
            r@.sessions == Map::<Seq<char>, SessionKeyData>::empty(),
            r@.lobby == Map::<Seq<u8>, LobbyData>::empty(),
            r@.games == Map::<Seq<u8>, GameData>::empty(),
    {
        Model {
            users: Users::new(),
            adhoc_tokens: AdHocTable::new(),
            session_tokens: SessionTable::new(),
            lobby: LobbyTable::new(),
            games: GamesTable::new(),
        }
    }

    /// Inserts a user row, assigning a fresh id; below the id-space machine
    /// limit the insert succeeds.
    pub fn create_user(&mut self, nickname: String) -> (r: Result<UserId, users::Error>)
        requires
            old(self).wf(),
        ensures
            final(self).wf(),
            r matches Ok(u) ==> {
                &&& u.valid()
                &&& !old(self)@.users.dom().contains(u@)
                &&& final(self)@ == old(self)@.with_users(old(self)@.users.insert(u@, nickname@))
            },
            r is Err ==> final(self)@ == old(self)@,
            old(self)@.users.dom().len() < i64::MAX - 1 ==> r is Ok,
    {
        self.users.create(nickname)
    }

    /// Looks a user up by id.
    pub fn fetch_user(&self, user_id: i64) -> (r: Option<User>)
        requires
            self.wf(),
        ensures
            r matches Some(u) ==> self@.users.dom().contains(user_id as int) && u.nickname@
                == self@.users[user_id as int],
            r is None ==> !self@.users.dom().contains(user_id as int),
    {
        self.users.user(user_id)
    }

    /// The number of stored users.
    pub fn user_count(&self) -> (r: usize)
        requires
            self.wf(),
        ensures
            r == self@.users.dom().len(),
    {
        self.users.count()
    }

    /// Looks an ad-hoc credential row up by its token id.
    pub(crate) fn adhoc_get(&self, id: &Vec<u8>) -> (r: Option<&AdHocRecord>)
        requires
            self.wf(),
        ensures
            r matches Some(rec) ==> self@.adhoc.dom().contains(id@) && self@.adhoc[id@]
                == adhoc_data_of(rec) && rec.user_id >= 1,
            r is None ==> !self@.adhoc.dom().contains(id@),
    {
        self.adhoc_tokens.get(id)
    }

    /// Inserts an ad-hoc credential row unless its id collides.
    pub(crate) fn adhoc_try_insert(&mut self, id: Vec<u8>, rec: AdHocRecord) -> (r: bool)
        requires
            old(self).wf(),
            rec.user_id >= 1,
        ensures
            final(self).wf(),
            r == !old(self)@.adhoc.dom().contains(id@),
            r ==> final(self)@ == old(self)@.with_adhoc(
                old(self)@.adhoc.insert(id@, adhoc_data_of(&rec)),
            ),
            !r ==> final(self)@ == old(self)@,
    {
        self.adhoc_tokens.try_insert(id, rec)
    }

    /// Looks a session key row up by key id.
    pub(crate) fn session_get(&self, kid: &str) -> (r: Option<(String, i64)>)
        requires
            self.wf(),
        ensures
            r matches Some(row) ==> self@.sessions.dom().contains(kid@) && self@.sessions[kid@]
                == (SessionKeyData { public_key: row.0@, expires_at: row.1 as int }),
            r is None ==> !self@.sessions.dom().contains(kid@),
    {
        self.session_tokens.get(kid)
    }

    /// Inserts a session key row; fails on a key id collision.
    pub(crate) fn session_insert_new(&mut self, kid: String, public_key: String, expires_at: i64)
        -> (r: bool)
        requires
            old(self).wf(),
        ensures
            final(self).wf(),
            r == !old(self)@.sessions.dom().contains(kid@),
            r ==> final(self)@ == old(self)@.with_sessions(
                old(self)@.sessions.insert(
                    kid@,
                    (SessionKeyData { public_key: public_key@, expires_at: expires_at as int }),
                ),
            ),
            !r ==> final(self)@ == old(self)@,
    {
        self.session_tokens.insert_new(kid, public_key, expires_at)
    }

    /// Atomically rekeys the session row `old_kid` to the new key data.
    pub(crate) fn session_replace(
        &mut self,
        old_kid: &str,
        kid: String,
        public_key: String,
        expires_at: i64,
    ) -> (r: bool)
        requires
            old(self).wf(),
        ensures
            final(self).wf(),
            r == (old(self)@.sessions.dom().contains(old_kid@) && (kid@ == old_kid@ || !old(
                self,
            )@.sessions.dom().contains(kid@))),
            r ==> final(self)@ == old(self)@.with_sessions(
                old(self)@.sessions.remove(old_kid@).insert(
                    kid@,
                    (SessionKeyData { public_key: public_key@, expires_at: expires_at as int }),
                ),
            ),
            !r ==> final(self)@ == old(self)@,
    {
        self.session_tokens.replace(old_kid, kid, public_key, expires_at)
    }

    /// Deletes the session row with this key id; idempotent.
    pub(crate) fn session_delete(&mut self, kid: &str)
        requires
            old(self).wf(),
        ensures
            final(self).wf(),
            final(self)@ == old(self)@.with_sessions(old(self)@.sessions.remove(kid@)),
    {
        self.session_tokens.delete(kid)
    }


    /// Looks a lobby game up by id.
    pub fn lobby_get(&self, id: &GameId) -> (r: Option<LobbyGame>)
        requires
            self.wf(),
        ensures
            r matches Some(g) ==> self@.lobby.dom().contains(id@) && self@.lobby[id@]
                == lobby_data_of(&g) && g.id@ == id@,
            r is None ==> !self@.lobby.dom().contains(id@),
    {
        self.lobby.get(id)
    }

    /// Looks a started game up by id.
    pub fn game_get(&self, id: &GameId) -> (r: Option<Game>)
        requires
            self.wf(),
        ensures
            r matches Some(g) ==> self@.games.dom().contains(id@) && self@.games[id@]
                == game_data_of(&g) && g.id@ == id@,
            r is None ==> !self@.games.dom().contains(id@),
    {
        self.games.get(id)
    }

    /// Inserts a lobby row; fails when the id is already used by a lobby or
    /// started game.
    pub(crate) fn lobby_insert_new(&mut self, game: LobbyGame) -> (r: bool)
        requires
            old(self).wf(),
        ensures
            final(self).wf(),
            r == (!old(self)@.lobby.dom().contains(game.id@) && !old(self)@.games.dom().contains(
                game.id@,
            )),
            r ==> final(self)@ == old(self)@.with_lobby(
                old(self)@.lobby.insert(game.id@, lobby_data_of(&game)),
            ),
            !r ==> final(self)@ == old(self)@,
    {
        if self.games.get(&game.id).is_some() {
            return false;
        }
        self.lobby.insert_new(game)
    }

    /// Overwrites the lobby row keyed by `game.id`; fails when it is absent.
    pub(crate) fn lobby_update(&mut self, game: LobbyGame) -> (r: bool)
        requires
            old(self).wf(),
        ensures
            final(self).wf(),
            r == old(self)@.lobby.dom().contains(game.id@),
            r ==> final(self)@ == old(self)@.with_lobby(
                old(self)@.lobby.insert(game.id@, lobby_data_of(&game)),
            ),
            !r ==> final(self)@ == old(self)@,
    {
        self.lobby.update(game)
    }

    /// The number of games waiting in the lobby.
    pub fn lobby_count(&self) -> (r: usize)
        requires
            self.wf(),
        ensures
            r == self@.lobby.dom().len(),
    {
        self.lobby.count()
    }

    /// The atomic start transition: moves the row `id` from the lobby to the
    /// started games, in one step. When the game is absent from the lobby,
    /// `CannotStartGame` comes back; when a seat is still empty,
    /// `MissingPlayer`; either way nothing changes.
    pub fn start_game(&mut self, id: &GameId) -> (r: Result<Game, crate::model::game::Error>)
        requires
            old(self).wf(),
        ensures
            final(self).wf(),
            final(self)@.users == old(self)@.users,
            final(self)@.adhoc == old(self)@.adhoc,
            final(self)@.sessions == old(self)@.sessions,
            !old(self)@.lobby.dom().contains(id@) ==> r == Err::<Game, crate::model::game::Error>(
                crate::model::game::Error::CannotStartGame,
            ),
            old(self)@.lobby.dom().contains(id@) && (old(self)@.lobby[id@].player1 is None || old(
                self,
            )@.lobby[id@].player2 is None) ==> r == Err::<Game, crate::model::game::Error>(
                crate::model::game::Error::MissingPlayer,
            ),
            r matches Ok(g) ==> {
                &&& old(self)@.lobby.dom().contains(id@)
                &&& g.id@ == id@
                &&& Some(g.created_by@) == Some(old(self)@.lobby[id@].created_by)
                &&& Some(g.player1@) == old(self)@.lobby[id@].player1
                &&& Some(g.player2@) == old(self)@.lobby[id@].player2
                &&& final(self)@ == old(self)@.with_lobby(old(self)@.lobby.remove(id@)).with_games(
                    old(self)@.games.insert(id@, game_data_of(&g)),
                )
            },
            old(self)@.lobby.dom().contains(id@) && old(self)@.lobby[id@].player1 is Some && old(
                self,
            )@.lobby[id@].player2 is Some ==> r is Ok,
            r is Err ==> final(self)@ == old(self)@,
    {
        let row = match self.lobby.get(id) {
            None => {
                return Err(crate::model::game::Error::CannotStartGame);
            },
            Some(g) => g,
        };
        let player1 = match row.player1 {
            None => {
                return Err(crate::model::game::Error::MissingPlayer);
            },
            Some(p) => p,
        };
        let player2 = match row.player2 {
            None => {
                return Err(crate::model::game::Error::MissingPlayer);
            },
            Some(p) => p,
        };
        let removed = match self.lobby.remove(id) {
            None => {
                return Err(crate::model::game::Error::CannotStartGame);
            },
            Some(g) => g,
        };
        let game = Game { id: removed.id, created_by: removed.created_by, player1, player2 };
        let inserted = self.games.insert_new(game.duplicate());
        if inserted {
            Ok(game)
        } else {
            Err(crate::model::game::Error::StoreError)
        }
    }

    /// Performs cleanup on the model: deletes every session key row that
    /// expired strictly before `now`.
    pub fn cleanup(&mut self, now: i64)
        requires
            old(self).wf(),
        ensures
            final(self).wf(),
            final(self)@.users == old(self)@.users,
            final(self)@.adhoc == old(self)@.adhoc,
            final(self)@.lobby == old(self)@.lobby,
            final(self)@.games == old(self)@.games,
            forall|k: Seq<char>|
                final(self)@.sessions.dom().contains(k) <==> (#[trigger] old(
                    self,
                )@.sessions.dom().contains(k) && old(self)@.sessions[k].expires_at >= now),
            forall|k: Seq<char>|
                #[trigger] final(self)@.sessions.dom().contains(k) ==> final(self)@.sessions[k]
                    == old(self)@.sessions[k],
    {
        self.session_tokens.delete_expired(now)
    }
}

} // verus!
