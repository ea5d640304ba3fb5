//! Service users storage.

use vstd::prelude::*;

use crate::model::Model;
use crate::numstr::{dec_str, parse_u64_dec, u64_to_dec};

verus! {

/// Errors of the users component.
#[derive(Debug, Clone, Copy, PartialEq, Eq, Structural)]
pub enum Error {
    /// A user id string does not parse.
    InvalidUserId,
    /// The store refused the operation.
    StoreError,
}

/// Newtype for user id.
#[derive(Debug, Clone, Copy, PartialEq, Eq, Hash, Structural)]
pub struct UserId(pub(crate) i64);

impl View for UserId {
    type V = int;

    closed spec fn view(&self) -> int {
        self.0 as int
    }
}

impl DeepView for UserId {
    type V = int;

    open spec fn deep_view(&self) -> int {
        self@
    }
}

impl UserId {
    /// Ids handed out by the store are positive.
    pub open spec fn valid(&self) -> bool {
        self@ >= 1
    }

    /// Renders the id as its canonical decimal string.
    pub fn to_string(&self) -> (r: String)
        requires
            self.valid(),
        ensures
            r@ == dec_str(self@),
    {
        u64_to_dec(self.0 as u64)
    }

    /// The raw stored id.
    pub(crate) fn raw(&self) -> (r: i64)
        ensures
            r as int == self@,
    {
        self.0
    }

    /// Wraps a raw stored id.
    pub(crate) fn from_raw(id: i64) -> (r: UserId)
        ensures
            r@ == id as int,
            id >= 1 ==> r.valid(),
    {
        UserId(id)
    }

    /// Parses an id from its canonical decimal string.
    pub fn from_str(s: &str) -> (r: Result<UserId, Error>)
        ensures
            r matches Ok(u) ==> s@ == dec_str(u@) && u.valid(),
            r is Err ==> r == Err::<UserId, Error>(Error::InvalidUserId) && (forall|n: int|
                1 <= n <= i64::MAX ==> s@ != dec_str(n)),
    {
        match parse_u64_dec(s) {
            Some(n) => {
                if 1 <= n && n <= i64::MAX as u64 {
                    Ok(UserId(n as i64))
                } else {
                    proof {
                        assert forall|m: int| 1 <= m <= i64::MAX implies s@ != dec_str(m) by {
                            if s@ == dec_str(m) {
                                crate::numstr::lemma_dec_str_injective(m, n as int);
                            }
                        }
                    }
                    Err(Error::InvalidUserId)
                }
            },
            None => Err(Error::InvalidUserId),
        }
    }
}

/// Two user ids are the same value exactly when their views agree.
pub proof fn lemma_user_id_eq(a: UserId, b: UserId)
    ensures
        (a == b) <==> (a@ == b@),
{
}

/// A user id always fits the stored machine integer, and a valid one is
/// positive: together with the parser's contract this gives the round trip
/// `from_str(u.to_string()) == Ok(u)` for every valid id.
pub proof fn lemma_user_id_bounds(u: UserId)
    ensures
        i64::MIN <= u@ <= i64::MAX,
        u.valid() ==> 1 <= u@,
{
}

/// User queryable data.
#[derive(Debug, Clone)]
pub struct User {
    /// How the user is visible to others.
    pub nickname: String,
}

impl PartialEq for User {
    fn eq(&self, other: &User) -> (r: bool) {
        self.nickname == other.nickname
    }
}

impl vstd::std_specs::cmp::PartialEqSpecImpl for User {
    open spec fn obeys_eq_spec() -> bool {
        true
    }

    open spec fn eq_spec(&self, other: &User) -> bool {
        self.nickname@ == other.nickname@
    }
}

struct UserRow {
    id: i64,
    nickname: String,
}

/// The users table: rows keyed by a monotonically assigned positive id.
pub struct Users {
    rows: Vec<UserRow>,
    next_id: i64,
}

/// The map denoted by a sequence of user rows.
spec fn users_map(rows: Seq<UserRow>) -> Map<int, Seq<char>>
    decreases rows.len(),
{
    if rows.len() == 0 {
        Map::empty()
    } else {
        users_map(rows.drop_last()).insert(rows.last().id as int, rows.last().nickname@)
    }
}

proof fn lemma_users_map_dom(rows: Seq<UserRow>, k: int)
    ensures
        users_map(rows).dom().contains(k) <==> exists|i: int|
            0 <= i < rows.len() && #[trigger] rows[i].id as int == k,
    decreases rows.len(),
{
    if rows.len() > 0 {
        lemma_users_map_dom(rows.drop_last(), k);
        if users_map(rows).dom().contains(k) && rows.last().id as int != k {
            let i = choose|i: int|
                0 <= i < rows.drop_last().len() && #[trigger] rows.drop_last()[i].id as int == k;
            assert(rows[i].id as int == k);
        }
        if exists|i: int| 0 <= i < rows.len() && #[trigger] rows[i].id as int == k {
            let i = choose|i: int| 0 <= i < rows.len() && #[trigger] rows[i].id as int == k;
            if i < rows.len() - 1 {
                assert(rows.drop_last()[i].id as int == k);
            }
        }
    }
}

proof fn lemma_users_map_get(rows: Seq<UserRow>, i: int)
    requires
        0 <= i < rows.len(),
        forall|a: int, b: int|
            0 <= a < b < rows.len() ==> (#[trigger] rows[a].id) != (#[trigger] rows[b].id),
    ensures
        users_map(rows).dom().contains(rows[i].id as int),
        users_map(rows)[rows[i].id as int] == rows[i].nickname@,
    decreases rows.len(),
{
    lemma_users_map_dom(rows, rows[i].id as int);
    if i < rows.len() - 1 {
        lemma_users_map_get(rows.drop_last(), i);
        assert(rows.drop_last()[i].id == rows[i].id);
        assert(rows.last().id != rows[i].id);
    }
}

proof fn lemma_users_map_len(rows: Seq<UserRow>)
    requires
        forall|a: int, b: int|
            0 <= a < b < rows.len() ==> (#[trigger] rows[a].id) != (#[trigger] rows[b].id),
    ensures
        users_map(rows).dom().finite(),
        users_map(rows).dom().len() == rows.len(),
    decreases rows.len(),
{
    if rows.len() > 0 {
        lemma_users_map_len(rows.drop_last());
        lemma_users_map_dom(rows.drop_last(), rows.last().id as int);
        assert(!users_map(rows.drop_last()).dom().contains(rows.last().id as int));
        assert(users_map(rows).dom() =~= users_map(rows.drop_last()).dom().insert(
            rows.last().id as int,
        ));
    }
}

impl View for Users {
    type V = Map<int, Seq<char>>;

    closed spec fn view(&self) -> Map<int, Seq<char>> {
        users_map(self.rows@)
    }
}

impl Users {
    /// Well-formed: positive unique ids, all below the next id to assign,
    /// which (users being append-only) always exceeds the row count by one.
    pub closed spec fn wf(&self) -> bool {
        &&& 1 <= self.next_id
        &&& self.next_id == self.rows@.len() + 1
        &&& forall|i: int|
            0 <= i < self.rows@.len() ==> 1 <= (#[trigger] self.rows@[i].id) < self.next_id
        &&& forall|a: int, b: int|
            0 <= a < b < self.rows@.len() ==> (#[trigger] self.rows@[a].id) != (
            #[trigger] self.rows@[b].id)
    }

    /// Creates an empty users table.
    pub fn new() -> (r: Users)
        ensures
            r.wf(),
            r@ == Map::<int, Seq<char>>::empty(),
    {
        let r = Users { rows: Vec::new(), next_id: 1 };
        proof {
            assert(r@ =~= Map::<int, Seq<char>>::empty());
        }
        r
    }

    /// Returns a single user by their id; `None` exactly when the id is
    /// unknown.
    pub fn user(&self, user_id: i64) -> (r: Option<User>)
        requires
            self.wf(),
        ensures
            r matches Some(u) ==> self@.dom().contains(user_id as int) && u.nickname@
                == self@[user_id as int],
            r is None ==> !self@.dom().contains(user_id as int),
    {
        let n = self.rows.len();
        let mut i: usize = 0;
        while i < n
            invariant
                self.wf(),
                0 <= i <= n == self.rows@.len(),
                forall|j: int| 0 <= j < i ==> (#[trigger] self.rows@[j].id) != user_id,
            decreases n - i,
        {
            if self.rows[i].id == user_id {
                proof {
                    lemma_users_map_get(self.rows@, i as int);
                }
                return Some(User { nickname: self.rows[i].nickname.clone() });
            }
            i = i + 1;
        }
        proof {
            lemma_users_map_dom(self.rows@, user_id as int);
        }
        None
    }

    /// Creates a new user, returning the freshly assigned id. Failure is
    /// owed only to the id space running out: below that machine limit the
    /// insert succeeds.
    pub fn create(&mut self, nickname: String) -> (r: Result<UserId, Error>)
        requires
            old(self).wf(),
        ensures
            final(self).wf(),
            r matches Ok(u) ==> {
                &&& u.valid()
                &&& !old(self)@.dom().contains(u@)
                &&& final(self)@ == old(self)@.insert(u@, nickname@)
            },
            r is Err ==> final(self)@ == old(self)@,
            old(self)@.dom().len() < i64::MAX - 1 ==> r is Ok,
    {
        proof {
            lemma_users_map_len(self.rows@);
        }
        if self.next_id == i64::MAX {
            return Err(Error::StoreError);
        }
        let id = self.next_id;
        self.next_id = self.next_id + 1;
        self.rows.push(UserRow { id, nickname });
        proof {
            assert(self.rows@.drop_last() =~= old(self).rows@);
            lemma_users_map_dom(old(self).rows@, id as int);
        }
        Ok(UserId(id))
    }

    /// The number of stored users.
    pub fn count(&self) -> (r: usize)
        requires
            self.wf(),
        ensures
            r == self@.dom().len(),
    {
        proof {
            lemma_users_map_len(self.rows@);
        }
        self.rows.len()
    }
}

impl User {
    /// Helper to create a user.
    pub fn new(nickname: &str) -> (r: User)
        ensures
            r.nickname@ == nickname@,
    {
        User { nickname: nickname.to_owned() }
    }

    /// Fetches a user from the store.
    pub fn fetch(db: &Model, user_id: UserId) -> (r: Option<User>)
        requires
            db.wf(),
        ensures
            r matches Some(u) ==> db@.users.dom().contains(user_id@) && u.nickname@
                == db@.users[user_id@],
            r is None ==> !db@.users.dom().contains(user_id@),
    {
        db.fetch_user(user_id.0)
    }

    /// Creates this user in the store; below the id-space machine limit the
    /// insert succeeds.
    pub fn create(self, db: &mut Model) -> (r: Result<UserId, Error>)
        requires
            old(db).wf(),
        ensures
            final(db).wf(),
            r matches Ok(u) ==> {
                &&& u.valid()
                &&& !old(db)@.users.dom().contains(u@)
                &&& final(db)@ == old(db)@.with_users(old(db)@.users.insert(u@, self.nickname@))
            },
            r is Err ==> final(db)@ == old(db)@,
            old(db)@.users.dom().len() < i64::MAX - 1 ==> r is Ok,
    {
        db.create_user(self.nickname)
    }
}

impl UserId {
    /// Fetches the `User` with this id from the store.
    pub fn fetch(self, db: &Model) -> (r: Option<User>)
        requires
            db.wf(),
        ensures
            r matches Some(u) ==> db@.users.dom().contains(self@) && u.nickname@
                == db@.users[self@],
            r is None ==> !db@.users.dom().contains(self@),
    {
        User::fetch(db, self)
    }
}

} // verus!
