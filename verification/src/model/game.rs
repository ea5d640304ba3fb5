//! Game model: lobby games and started games.
//!
//! A game id lives in exactly one of the two collections: the lobby (seats
//! may be empty) or the started games (both seats filled). The `start`
//! transition moves a row atomically from the former to the latter.

use vstd::prelude::*;

use crate::util::{bytes_eq, clone_bytes};

verus! {

/// Errors of the lobby component.
#[derive(Debug, Clone, Copy, PartialEq, Eq, Structural)]
pub enum Error {
    /// Both seats of the lobby game are taken.
    GameFull,
    /// No lobby game has this id.
    GameNotFound,
    /// The game is not in the lobby, so it cannot be started.
    CannotStartGame,
    /// A seat is still empty, so the game cannot be started.
    MissingPlayer,
    /// The caller presented no authenticated session.
    Unauthorized,
    /// The store refused the operation.
    StoreError,
}

/// Game id newtype: a random 16-byte identifier.
#[derive(Debug, Clone)]
pub struct GameId(Vec<u8>);

impl View for GameId {
    type V = Seq<u8>;

    closed spec fn view(&self) -> Seq<u8> {
        self.0@
    }
}

impl PartialEq for GameId {
    fn eq(&self, other: &GameId) -> (r: bool) {
        bytes_eq(&self.0, &other.0)
    }
}

impl vstd::std_specs::cmp::PartialEqSpecImpl for GameId {
    open spec fn obeys_eq_spec() -> bool {
        true
    }

    open spec fn eq_spec(&self, other: &GameId) -> bool {
        self@ == other@
    }
}

impl GameId {
    /// Wraps a raw 16-byte identifier.
    pub fn new(id: Vec<u8>) -> (r: GameId)
        ensures
            r@ == id@,
    {
        GameId(id)
    }

    /// An element-wise copy.
    pub fn duplicate(&self) -> (r: GameId)
        ensures
            r@ == self@,
    {
        GameId(clone_bytes(&self.0))
    }
}

/// The view of an optional seat.
pub open spec fn seat_view(seat: Option<UserId>) -> Option<int> {
    match seat {
        Some(u) => Some(u@),
        None => None,
    }
}

use crate::model::users::UserId;

/// Game in the lobby.
#[derive(Debug, Clone)]
pub struct LobbyGame {
    /// Game ID.
    pub id: GameId,
    /// Created by user ID.
    pub created_by: UserId,
    /// Player 1 ID.
    pub player1: Option<UserId>,
    /// Player 2 ID.
    pub player2: Option<UserId>,
}

/// A started game: both seats are filled.
#[derive(Debug, Clone)]
pub struct Game {
    /// Game ID.
    pub id: GameId,
    /// Created by user ID.
    pub created_by: UserId,
    /// Player 1 ID.
    pub player1: UserId,
    /// Player 2 ID.
    pub player2: UserId,
}

/// Abstract contents of one lobby row.
pub ghost struct LobbyData {
    pub created_by: int,
    pub player1: Option<int>,
    pub player2: Option<int>,
}

/// Abstract contents of one started-game row.
pub ghost struct GameData {
    pub created_by: int,
    pub player1: int,
    pub player2: int,
}

/// The abstract contents of a lobby row.
pub open spec fn lobby_data_of(g: &LobbyGame) -> LobbyData {
    LobbyData {
        created_by: g.created_by@,
        player1: seat_view(g.player1),
        player2: seat_view(g.player2),
    }
}

/// The abstract contents of a started-game row.
pub open spec fn game_data_of(g: &Game) -> GameData {
    GameData { created_by: g.created_by@, player1: g.player1@, player2: g.player2@ }
}

impl LobbyGame {
    /// An element-wise copy.
    pub fn duplicate(&self) -> (r: LobbyGame)
        ensures
            r.id@ == self.id@,
            r.created_by == self.created_by,
            r.player1 == self.player1,
            r.player2 == self.player2,
            lobby_data_of(&r) == lobby_data_of(self),
    {
        LobbyGame {
            id: self.id.duplicate(),
            created_by: self.created_by,
            player1: self.player1,
            player2: self.player2,
        }
    }
}

impl View for LobbyGame {
    type V = Seq<u8>;

    open spec fn view(&self) -> Seq<u8> {
        self.id@
    }
}

impl Game {
    /// An element-wise copy.
    pub fn duplicate(&self) -> (r: Game)
        ensures
            r.id@ == self.id@,
            r.created_by == self.created_by,
            r.player1 == self.player1,
            r.player2 == self.player2,
            game_data_of(&r) == game_data_of(self),
    {
        Game {
            id: self.id.duplicate(),
            created_by: self.created_by,
            player1: self.player1,
            player2: self.player2,
        }
    }
}

impl View for Game {
    type V = Seq<u8>;

    open spec fn view(&self) -> Seq<u8> {
        self.id@
    }
}

/// The lobby table, keyed by game id.
pub struct LobbyTable {
    rows: Vec<LobbyGame>,
}

spec fn lobby_map(rows: Seq<LobbyGame>) -> Map<Seq<u8>, LobbyData>
    decreases rows.len(),
{
    if rows.len() == 0 {
        Map::empty()
    } else {
        lobby_map(rows.drop_last()).insert(rows.last().id@, lobby_data_of(&rows.last()))
    }
}

proof fn lemma_lobby_map_dom(rows: Seq<LobbyGame>, k: Seq<u8>)
    ensures
        lobby_map(rows).dom().contains(k) <==> exists|i: int|
            0 <= i < rows.len() && (#[trigger] rows[i].id@) == k,
    decreases rows.len(),
{
    if rows.len() > 0 {
        lemma_lobby_map_dom(rows.drop_last(), k);
        if lobby_map(rows).dom().contains(k) && rows.last().id@ != k {
            let i = choose|i: int|
                0 <= i < rows.drop_last().len() && (#[trigger] rows.drop_last()[i].id@) == k;
            assert(rows[i].id@ == k);
        }
        if exists|i: int| 0 <= i < rows.len() && (#[trigger] rows[i].id@) == k {
            let i = choose|i: int| 0 <= i < rows.len() && (#[trigger] rows[i].id@) == k;
            if i < rows.len() - 1 {
                assert(rows.drop_last()[i].id@ == k);
            }
        }
    }
}

proof fn lemma_lobby_map_get(rows: Seq<LobbyGame>, i: int)
    requires
        0 <= i < rows.len(),
        forall|a: int, b: int|
            0 <= a < b < rows.len() ==> (#[trigger] rows[a].id@) != (#[trigger] rows[b].id@),
    ensures
        lobby_map(rows).dom().contains(rows[i].id@),
        lobby_map(rows)[rows[i].id@] == lobby_data_of(&rows[i]),
    decreases rows.len(),
{
    lemma_lobby_map_dom(rows, rows[i].id@);
    if i < rows.len() - 1 {
        lemma_lobby_map_get(rows.drop_last(), i);
        assert(rows.drop_last()[i].id@ == rows[i].id@);
        assert(rows.last().id@ != rows[i].id@);
    }
}

proof fn lemma_lobby_map_remove(rows: Seq<LobbyGame>, i: int)
    requires
        0 <= i < rows.len(),
        forall|a: int, b: int|
            0 <= a < b < rows.len() ==> (#[trigger] rows[a].id@) != (#[trigger] rows[b].id@),
    ensures
        lobby_map(rows.remove(i)) =~= lobby_map(rows).remove(rows[i].id@),
    decreases rows.len(),
{
    if i == rows.len() - 1 {
        assert(rows.remove(i) =~= rows.drop_last());
        lemma_lobby_map_dom(rows.drop_last(), rows[i].id@);
        assert(!lobby_map(rows.drop_last()).dom().contains(rows[i].id@));
        assert(lobby_map(rows.remove(i)) =~= lobby_map(rows).remove(rows[i].id@));
    } else {
        let shorter = rows.drop_last();
        lemma_lobby_map_remove(shorter, i);
        assert(rows.remove(i).drop_last() =~= shorter.remove(i));
        assert(rows.remove(i).last() == rows.last());
        assert(lobby_map(rows.remove(i)) == lobby_map(shorter.remove(i)).insert(
            rows.last().id@,
            lobby_data_of(&rows.last()),
        ));
        assert(rows.last().id@ != rows[i].id@);
        assert(lobby_map(rows.remove(i)) =~= lobby_map(rows).remove(rows[i].id@));
    }
}

proof fn lemma_lobby_map_len(rows: Seq<LobbyGame>)
    requires
        forall|a: int, b: int|
            0 <= a < b < rows.len() ==> (#[trigger] rows[a].id@) != (#[trigger] rows[b].id@),
    ensures
        lobby_map(rows).dom().finite(),
        lobby_map(rows).dom().len() == rows.len(),
    decreases rows.len(),
{
    if rows.len() > 0 {
        lemma_lobby_map_len(rows.drop_last());
        lemma_lobby_map_dom(rows.drop_last(), rows.last().id@);
        assert(!lobby_map(rows.drop_last()).dom().contains(rows.last().id@));
        assert(lobby_map(rows).dom() =~= lobby_map(rows.drop_last()).dom().insert(
            rows.last().id@,
        ));
    }
}

impl View for LobbyTable {
    type V = Map<Seq<u8>, LobbyData>;

    closed spec fn view(&self) -> Map<Seq<u8>, LobbyData> {
        lobby_map(self.rows@)
    }
}

impl LobbyTable {
    pub closed spec fn wf(&self) -> bool {
        forall|a: int, b: int|
            0 <= a < b < self.rows@.len() ==> (#[trigger] self.rows@[a].id@) != (
            #[trigger] self.rows@[b].id@)
    }

    pub fn new() -> (r: LobbyTable)
        ensures
            r.wf(),
            r@ == Map::<Seq<u8>, LobbyData>::empty(),
    {
        let r = LobbyTable { rows: Vec::new() };
        proof {
            assert(r@ =~= Map::<Seq<u8>, LobbyData>::empty());
        }
        r
    }

    fn index_of(&self, id: &GameId) -> (r: Option<usize>)
        ensures
            r matches Some(i) ==> i < self.rows@.len() && self.rows@[i as int].id@ == id@,
            r is None ==> forall|j: int|
                0 <= j < self.rows@.len() ==> (#[trigger] self.rows@[j].id@) != id@,
    {
        let n = self.rows.len();
        let mut i: usize = 0;
        while i < n
            invariant
                0 <= i <= n == self.rows@.len(),
                forall|j: int| 0 <= j < i ==> (#[trigger] self.rows@[j].id@) != id@,
            decreases n - i,
        {
            if self.rows[i].id == *id {
                return Some(i);
            }
            i = i + 1;
        }
        None
    }

    /// Keyed lookup; `None` exactly when no row has this id.
    pub fn get(&self, id: &GameId) -> (r: Option<LobbyGame>)
        requires
            self.wf(),
        ensures
            r matches Some(g) ==> self@.dom().contains(id@) && self@[id@] == lobby_data_of(&g)
                && g.id@ == id@,
            r is None ==> !self@.dom().contains(id@),
    {
        match self.index_of(id) {
            Some(i) => {
                proof {
                    lemma_lobby_map_get(self.rows@, i as int);
                }
                Some(self.rows[i].duplicate())
            },
            None => {
                proof {
                    lemma_lobby_map_dom(self.rows@, id@);
                }
                None
            },
        }
    }

    /// Plain insert; fails (leaving the table unchanged) when the id exists.
    pub fn insert_new(&mut self, game: LobbyGame) -> (r: bool)
        requires
            old(self).wf(),
        ensures
            final(self).wf(),
            r == !old(self)@.dom().contains(game.id@),
            r ==> final(self)@ == old(self)@.insert(game.id@, lobby_data_of(&game)),
            !r ==> final(self)@ == old(self)@,
    {
        match self.index_of(&game.id) {
            Some(i) => {
                proof {
                    lemma_lobby_map_get(self.rows@, i as int);
                }
                false
            },
            None => {
                proof {
                    lemma_lobby_map_dom(self.rows@, game.id@);
                }
                self.rows.push(game);
                proof {
                    assert(self.rows@.drop_last() =~= old(self).rows@);
                }
                true
            },
        }
    }

    /// Overwrites the row keyed by `game.id`; fails when it is absent.
    pub fn update(&mut self, game: LobbyGame) -> (r: bool)
        requires
            old(self).wf(),
        ensures
            final(self).wf(),
            r == old(self)@.dom().contains(game.id@),
            r ==> final(self)@ == old(self)@.insert(game.id@, lobby_data_of(&game)),
            !r ==> final(self)@ == old(self)@,
    {
        let i = match self.index_of(&game.id) {
            Some(i) => i,
            None => {
                proof {
                    lemma_lobby_map_dom(self.rows@, game.id@);
                }
                return false;
            },
        };
        proof {
            lemma_lobby_map_get(self.rows@, i as int);
            lemma_lobby_map_remove(self.rows@, i as int);
        }
        let ghost before = self.rows@;
        self.rows.remove(i);
        proof {
            before.remove_ensures(i as int);
            lemma_lobby_map_dom(self.rows@, game.id@);
        }
        let ghost mid_map = self@;
        self.rows.push(game);
        proof {
            assert(self.rows@.drop_last() =~= before.remove(i as int));
            assert(self@ == mid_map.insert(self.rows@.last().id@, lobby_data_of(&self.rows@.last())));
            assert(self@ =~= old(self)@.insert(
                self.rows@.last().id@,
                lobby_data_of(&self.rows@.last()),
            ));
        }
        true
    }

    /// Removes and returns the row keyed by `id`, if present.
    pub fn remove(&mut self, id: &GameId) -> (r: Option<LobbyGame>)
        requires
            old(self).wf(),
        ensures
            final(self).wf(),
            r matches Some(g) ==> {
                &&& old(self)@.dom().contains(id@)
                &&& old(self)@[id@] == lobby_data_of(&g)
                &&& g.id@ == id@
                &&& final(self)@ == old(self)@.remove(id@)
            },
            r is None ==> !old(self)@.dom().contains(id@) && final(self)@ == old(self)@,
    {
        let i = match self.index_of(id) {
            Some(i) => i,
            None => {
                proof {
                    lemma_lobby_map_dom(self.rows@, id@);
                }
                return None;
            },
        };
        proof {
            lemma_lobby_map_get(self.rows@, i as int);
            lemma_lobby_map_remove(self.rows@, i as int);
        }
        let ghost before = self.rows@;
        let row = self.rows.remove(i);
        proof {
            before.remove_ensures(i as int);
        }
        Some(row)
    }

    /// The number of lobby games.
    pub fn count(&self) -> (r: usize)
        requires
            self.wf(),
        ensures
            r == self@.dom().len(),
    {
        proof {
            lemma_lobby_map_len(self.rows@);
        }
        self.rows.len()
    }
}

/// The started-games table, keyed by game id.
pub struct GamesTable {
    rows: Vec<Game>,
}

spec fn games_map(rows: Seq<Game>) -> Map<Seq<u8>, GameData>
    decreases rows.len(),
{
    if rows.len() == 0 {
        Map::empty()
    } else {
        games_map(rows.drop_last()).insert(rows.last().id@, game_data_of(&rows.last()))
    }
}

proof fn lemma_games_map_dom(rows: Seq<Game>, k: Seq<u8>)
    ensures
        games_map(rows).dom().contains(k) <==> exists|i: int|
            0 <= i < rows.len() && (#[trigger] rows[i].id@) == k,
    decreases rows.len(),
{
    if rows.len() > 0 {
        lemma_games_map_dom(rows.drop_last(), k);
        if games_map(rows).dom().contains(k) && rows.last().id@ != k {
            let i = choose|i: int|
                0 <= i < rows.drop_last().len() && (#[trigger] rows.drop_last()[i].id@) == k;
            assert(rows[i].id@ == k);
        }
        if exists|i: int| 0 <= i < rows.len() && (#[trigger] rows[i].id@) == k {
            let i = choose|i: int| 0 <= i < rows.len() && (#[trigger] rows[i].id@) == k;
            if i < rows.len() - 1 {
                assert(rows.drop_last()[i].id@ == k);
            }
        }
    }
}

proof fn lemma_games_map_get(rows: Seq<Game>, i: int)
    requires
        0 <= i < rows.len(),
        forall|a: int, b: int|
            0 <= a < b < rows.len() ==> (#[trigger] rows[a].id@) != (#[trigger] rows[b].id@),
    ensures
        games_map(rows).dom().contains(rows[i].id@),
        games_map(rows)[rows[i].id@] == game_data_of(&rows[i]),
    decreases rows.len(),
{
    lemma_games_map_dom(rows, rows[i].id@);
    if i < rows.len() - 1 {
        lemma_games_map_get(rows.drop_last(), i);
        assert(rows.drop_last()[i].id@ == rows[i].id@);
        assert(rows.last().id@ != rows[i].id@);
    }
}

impl View for GamesTable {
    type V = Map<Seq<u8>, GameData>;

    closed spec fn view(&self) -> Map<Seq<u8>, GameData> {
        games_map(self.rows@)
    }
}

impl GamesTable {
    pub closed spec fn wf(&self) -> bool {
        forall|a: int, b: int|
            0 <= a < b < self.rows@.len() ==> (#[trigger] self.rows@[a].id@) != (
            #[trigger] self.rows@[b].id@)
    }

    pub fn new() -> (r: GamesTable)
        ensures
            r.wf(),
            r@ == Map::<Seq<u8>, GameData>::empty(),
    {
        let r = GamesTable { rows: Vec::new() };
        proof {
            assert(r@ =~= Map::<Seq<u8>, GameData>::empty());
        }
        r
    }

    /// Keyed lookup; `None` exactly when no row has this id.
    pub fn get(&self, id: &GameId) -> (r: Option<Game>)
        requires
            self.wf(),
        ensures
            r matches Some(g) ==> self@.dom().contains(id@) && self@[id@] == game_data_of(&g)
                && g.id@ == id@,
            r is None ==> !self@.dom().contains(id@),
    {
        let n = self.rows.len();
        let mut i: usize = 0;
        while i < n
            invariant
                self.wf(),
                0 <= i <= n == self.rows@.len(),
                forall|j: int| 0 <= j < i ==> (#[trigger] self.rows@[j].id@) != id@,
            decreases n - i,
        {
            if self.rows[i].id == *id {
                proof {
                    lemma_games_map_get(self.rows@, i as int);
                }
                return Some(self.rows[i].duplicate());
            }
            i = i + 1;
        }
        proof {
            lemma_games_map_dom(self.rows@, id@);
        }
        None
    }

    /// Plain insert; fails (leaving the table unchanged) when the id exists.
    pub fn insert_new(&mut self, game: Game) -> (r: bool)
        requires
            old(self).wf(),
        ensures
            final(self).wf(),
            r == !old(self)@.dom().contains(game.id@),
            r ==> final(self)@ == old(self)@.insert(game.id@, game_data_of(&game)),
            !r ==> final(self)@ == old(self)@,
    {
        let n = self.rows.len();
        let mut i: usize = 0;
        while i < n
            invariant
                old(self).wf(),
                self.rows@ == old(self).rows@,
                0 <= i <= n == self.rows@.len(),
                forall|j: int| 0 <= j < i ==> (#[trigger] self.rows@[j].id@) != game.id@,
            decreases n - i,
        {
            if self.rows[i].id == game.id {
                proof {
                    lemma_games_map_get(self.rows@, i as int);
                }
                return false;
            }
            i = i + 1;
        }
        proof {
            lemma_games_map_dom(self.rows@, game.id@);
        }
        self.rows.push(game);
        proof {
            assert(self.rows@.drop_last() =~= old(self).rows@);
        }
        true
    }
}

impl LobbyGame {
    /// Creates a new game in the lobby, seats empty, owned by `created_by`.
    ///
    /// The id is drawn at random; a collision with an existing game, or an
    /// unknown creator (the store enforces the foreign key), leaves the
    /// store unchanged.
    pub fn create(db: &mut crate::model::Model, created_by: UserId) -> (r: Result<
        LobbyGame,
        Error,
    >)
        requires
            old(db).wf(),
        ensures
            final(db).wf(),
            final(db)@.users == old(db)@.users,
            final(db)@.adhoc == old(db)@.adhoc,
            final(db)@.sessions == old(db)@.sessions,
            final(db)@.games == old(db)@.games,
            r matches Ok(g) ==> {
                &&& old(db)@.users.dom().contains(created_by@)
                &&& g.created_by == created_by
                &&& g.player1 is None
                &&& g.player2 is None
                &&& !old(db)@.lobby.dom().contains(g.id@)
                &&& !old(db)@.games.dom().contains(g.id@)
                &&& final(db)@ == old(db)@.with_lobby(
                    old(db)@.lobby.insert(
                        g.id@,
                        (LobbyData { created_by: created_by@, player1: None, player2: None }),
                    ),
                )
            },
            !old(db)@.users.dom().contains(created_by@) ==> r == Err::<LobbyGame, Error>(
                Error::StoreError,
            ),
            r is Err ==> final(db)@ == old(db)@,
    {
        if db.fetch_user(created_by.raw()).is_none() {
            return Err(Error::StoreError);
        }
        let id = GameId::new(crate::codec::random_id_bytes());
        let game = LobbyGame { id, created_by, player1: None, player2: None };
        let ghost gdata = lobby_data_of(&game);
        let result = game.duplicate();
        if db.lobby_insert_new(game) {
            proof {
                assert(gdata == (LobbyData {
                    created_by: created_by@,
                    player1: None,
                    player2: None,
                }));
            }
            Ok(result)
        } else {
            Err(Error::StoreError)
        }
    }
}

/// Start atomicity: moving a row from the lobby map to the games map leaves
/// the id gone from the lobby and present among started games, with exactly
/// the moved data.
pub proof fn lemma_start_atomicity(
    lobby0: Map<Seq<u8>, LobbyData>,
    games0: Map<Seq<u8>, GameData>,
    lobby1: Map<Seq<u8>, LobbyData>,
    games1: Map<Seq<u8>, GameData>,
    g: Seq<u8>,
    data: GameData,
)
    requires
        lobby1 == lobby0.remove(g),
        games1 == games0.insert(g, data),
    ensures
        !lobby1.dom().contains(g),
        games1.dom().contains(g),
        games1[g] == data,
        forall|k: Seq<u8>| k != g ==> lobby1.dom().contains(k) == lobby0.dom().contains(k),
        forall|k: Seq<u8>| k != g ==> games1.dom().contains(k) == games0.dom().contains(k),
{
}

} // verus!
