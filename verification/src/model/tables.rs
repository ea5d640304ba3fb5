//! The credential and session-key tables of the store.
//!
//! Each table is a vector of rows with a uniqueness invariant on its key and
//! a `Map` view; the operations mirror the statements the service issues
//! against the relational store (insert-if-absent, keyed lookup, keyed
//! update, keyed delete, sweep of expired rows).

use vstd::prelude::*;

verus! {

// ---------------------------------------------------------------------------
// Ad-hoc credential rows: keyed by the 16-byte token id.
// ---------------------------------------------------------------------------
/// A stored ad-hoc credential, as the verifier reads it back.
pub struct AdHocRecord {
    /// The user this credential authenticates.
    pub user_id: i64,
    /// Stored random secret mixed into the signature.
    pub secret: Vec<u8>,
    /// Expected SHA3-256 signature.
    pub signature: Vec<u8>,
}

/// Abstract contents of one ad-hoc credential row.
pub ghost struct AdHocData {
    pub user_id: int,
    pub secret: Seq<u8>,
    pub signature: Seq<u8>,
}

struct AdHocRow {
    id: Vec<u8>,
    rec: AdHocRecord,
}

pub struct AdHocTable {
    rows: Vec<AdHocRow>,
}

pub open spec fn adhoc_data_of(rec: &AdHocRecord) -> AdHocData {
    AdHocData { user_id: rec.user_id as int, secret: rec.secret@, signature: rec.signature@ }
}

spec fn adhoc_map(rows: Seq<AdHocRow>) -> Map<Seq<u8>, AdHocData>
    decreases rows.len(),
{
    if rows.len() == 0 {
        Map::empty()
    } else {
        adhoc_map(rows.drop_last()).insert(rows.last().id@, adhoc_data_of(&rows.last().rec))
    }
}

proof fn lemma_adhoc_map_dom(rows: Seq<AdHocRow>, k: Seq<u8>)
    ensures
        adhoc_map(rows).dom().contains(k) <==> exists|i: int|
            0 <= i < rows.len() && (#[trigger] rows[i].id@) == k,
    decreases rows.len(),
{
    if rows.len() > 0 {
        lemma_adhoc_map_dom(rows.drop_last(), k);
        if adhoc_map(rows).dom().contains(k) && rows.last().id@ != k {
            let i = choose|i: int|
                0 <= i < rows.drop_last().len() && (#[trigger] rows.drop_last()[i].id@) == k;
            assert(rows[i].id@ == k);
        }
        if exists|i: int| 0 <= i < rows.len() && (#[trigger] rows[i].id@) == k {
            let i = choose|i: int| 0 <= i < rows.len() && (#[trigger] rows[i].id@) == k;
            if i < rows.len() - 1 {
                assert(rows.drop_last()[i].id@ == k);
            }
        }
    }
}

proof fn lemma_adhoc_map_get(rows: Seq<AdHocRow>, i: int)
    requires
        0 <= i < rows.len(),
        forall|a: int, b: int|
            0 <= a < b < rows.len() ==> (#[trigger] rows[a].id@) != (#[trigger] rows[b].id@),
    ensures
        adhoc_map(rows).dom().contains(rows[i].id@),
        adhoc_map(rows)[rows[i].id@] == adhoc_data_of(&rows[i].rec),
    decreases rows.len(),
{
    lemma_adhoc_map_dom(rows, rows[i].id@);
    if i < rows.len() - 1 {
        lemma_adhoc_map_get(rows.drop_last(), i);
        assert(rows.drop_last()[i].id@ == rows[i].id@);
        assert(rows.last().id@ != rows[i].id@);
    }
}

impl View for AdHocTable {
    type V = Map<Seq<u8>, AdHocData>;

    closed spec fn view(&self) -> Map<Seq<u8>, AdHocData> {
        adhoc_map(self.rows@)
    }
}

impl AdHocTable {
    pub closed spec fn wf(&self) -> bool {
        &&& forall|a: int, b: int|
            0 <= a < b < self.rows@.len() ==> (#[trigger] self.rows@[a].id@) != (
            #[trigger] self.rows@[b].id@)
        &&& forall|i: int| 0 <= i < self.rows@.len() ==> (#[trigger] self.rows@[i].rec.user_id) >= 1
    }

    pub fn new() -> (r: AdHocTable)
        ensures
            r.wf(),
            r@ == Map::<Seq<u8>, AdHocData>::empty(),
    {
        let r = AdHocTable { rows: Vec::new() };
        proof {
            assert(r@ =~= Map::<Seq<u8>, AdHocData>::empty());
        }
        r
    }

    /// Keyed lookup; `None` exactly when no row has this id.
    pub fn get(&self, id: &Vec<u8>) -> (r: Option<&AdHocRecord>)
        requires
            self.wf(),
        ensures
            r matches Some(rec) ==> self@.dom().contains(id@) && self@[id@] == adhoc_data_of(rec)
                && rec.user_id >= 1,
            r is None ==> !self@.dom().contains(id@),
    {
        let n = self.rows.len();
        let mut i: usize = 0;
        while i < n
            invariant
                self.wf(),
                0 <= i <= n == self.rows@.len(),
                forall|j: int| 0 <= j < i ==> (#[trigger] self.rows@[j].id@) != id@,
            decreases n - i,
        {
            if crate::util::bytes_eq(&self.rows[i].id, id) {
                proof {
                    lemma_adhoc_map_get(self.rows@, i as int);
                }
                return Some(&self.rows[i].rec);
            }
            i = i + 1;
        }
        proof {
            lemma_adhoc_map_dom(self.rows@, id@);
        }
        None
    }

    /// Insert-if-absent, as `on conflict(id) do nothing`: returns whether a
    /// row was inserted.
    pub fn try_insert(&mut self, id: Vec<u8>, rec: AdHocRecord) -> (r: bool)
        requires
            old(self).wf(),
            rec.user_id >= 1,
        ensures
            final(self).wf(),
            r == !old(self)@.dom().contains(id@),
            r ==> final(self)@ == old(self)@.insert(id@, adhoc_data_of(&rec)),
            !r ==> final(self)@ == old(self)@,
    {
        if self.get(&id).is_some() {
            return false;
        }
        let ghost data = adhoc_data_of(&rec);
        self.rows.push(AdHocRow { id, rec });
        proof {
            assert(self.rows@.drop_last() =~= old(self).rows@);
            lemma_adhoc_map_dom(old(self).rows@, self.rows@.last().id@);
        }
        true
    }
}

// ---------------------------------------------------------------------------
// Session key rows: keyed by the PASERK key id string.
// ---------------------------------------------------------------------------
/// Abstract contents of one session key row.
pub ghost struct SessionKeyData {
    pub public_key: Seq<char>,
    pub expires_at: int,
}

struct SessionRow {
    kid: String,
    public_key: String,
    expires_at: i64,
}

pub struct SessionTable {
    rows: Vec<SessionRow>,
}

spec fn session_data_of(row: &SessionRow) -> SessionKeyData {
    SessionKeyData { public_key: row.public_key@, expires_at: row.expires_at as int }
}

spec fn session_map(rows: Seq<SessionRow>) -> Map<Seq<char>, SessionKeyData>
    decreases rows.len(),
{
    if rows.len() == 0 {
        Map::empty()
    } else {
        session_map(rows.drop_last()).insert(rows.last().kid@, session_data_of(&rows.last()))
    }
}

proof fn lemma_session_map_dom(rows: Seq<SessionRow>, k: Seq<char>)
    ensures
        session_map(rows).dom().contains(k) <==> exists|i: int|
            0 <= i < rows.len() && (#[trigger] rows[i].kid@) == k,
    decreases rows.len(),
{
    if rows.len() > 0 {
        lemma_session_map_dom(rows.drop_last(), k);
        if session_map(rows).dom().contains(k) && rows.last().kid@ != k {
            let i = choose|i: int|
                0 <= i < rows.drop_last().len() && (#[trigger] rows.drop_last()[i].kid@) == k;
            assert(rows[i].kid@ == k);
        }
        if exists|i: int| 0 <= i < rows.len() && (#[trigger] rows[i].kid@) == k {
            let i = choose|i: int| 0 <= i < rows.len() && (#[trigger] rows[i].kid@) == k;
            if i < rows.len() - 1 {
                assert(rows.drop_last()[i].kid@ == k);
            }
        }
    }
}

proof fn lemma_session_map_get(rows: Seq<SessionRow>, i: int)
    requires
        0 <= i < rows.len(),
        forall|a: int, b: int|
            0 <= a < b < rows.len() ==> (#[trigger] rows[a].kid@) != (#[trigger] rows[b].kid@),
    ensures
        session_map(rows).dom().contains(rows[i].kid@),
        session_map(rows)[rows[i].kid@] == session_data_of(&rows[i]),
    decreases rows.len(),
{
    lemma_session_map_dom(rows, rows[i].kid@);
    if i < rows.len() - 1 {
        lemma_session_map_get(rows.drop_last(), i);
        assert(rows.drop_last()[i].kid@ == rows[i].kid@);
        assert(rows.last().kid@ != rows[i].kid@);
    }
}

proof fn lemma_session_map_remove(rows: Seq<SessionRow>, i: int)
    requires
        0 <= i < rows.len(),
        forall|a: int, b: int|
            0 <= a < b < rows.len() ==> (#[trigger] rows[a].kid@) != (#[trigger] rows[b].kid@),
    ensures
        session_map(rows.remove(i)) =~= session_map(rows).remove(rows[i].kid@),
    decreases rows.len(),
{
    if i == rows.len() - 1 {
        assert(rows.remove(i) =~= rows.drop_last());
        lemma_session_map_dom(rows.drop_last(), rows[i].kid@);
        assert(!session_map(rows.drop_last()).dom().contains(rows[i].kid@));
        assert(session_map(rows.remove(i)) =~= session_map(rows).remove(rows[i].kid@));
    } else {
        let shorter = rows.drop_last();
        lemma_session_map_remove(shorter, i);
        assert(rows.remove(i).drop_last() =~= shorter.remove(i));
        assert(rows.remove(i).last() == rows.last());
        assert(session_map(rows.remove(i)) == session_map(shorter.remove(i)).insert(
            rows.last().kid@,
            session_data_of(&rows.last()),
        ));
        assert(rows.last().kid@ != rows[i].kid@);
        assert(session_map(shorter).remove(rows[i].kid@).insert(
            rows.last().kid@,
            session_data_of(&rows.last()),
        ) =~= session_map(shorter).insert(
            rows.last().kid@,
            session_data_of(&rows.last()),
        ).remove(rows[i].kid@));
        assert(session_map(rows.remove(i)) =~= session_map(rows).remove(rows[i].kid@));
    }
}

impl View for SessionTable {
    type V = Map<Seq<char>, SessionKeyData>;

    closed spec fn view(&self) -> Map<Seq<char>, SessionKeyData> {
        session_map(self.rows@)
    }
}

impl SessionTable {
    pub closed spec fn wf(&self) -> bool {
        forall|a: int, b: int|
            0 <= a < b < self.rows@.len() ==> (#[trigger] self.rows@[a].kid@) != (
            #[trigger] self.rows@[b].kid@)
    }

    pub fn new() -> (r: SessionTable)
        ensures
            r.wf(),
            r@ == Map::<Seq<char>, SessionKeyData>::empty(),
    {
        let r = SessionTable { rows: Vec::new() };
        proof {
            assert(r@ =~= Map::<Seq<char>, SessionKeyData>::empty());
        }
        r
    }

    fn index_of(&self, kid: &str) -> (r: Option<usize>)
        requires
            self.wf(),
        ensures
            r matches Some(i) ==> i < self.rows@.len() && self.rows@[i as int].kid@ == kid@,
            r is None ==> forall|j: int|
                0 <= j < self.rows@.len() ==> (#[trigger] self.rows@[j].kid@) != kid@,
    {
        let n = self.rows.len();
        let mut i: usize = 0;
        while i < n
            invariant
                0 <= i <= n == self.rows@.len(),
                forall|j: int| 0 <= j < i ==> (#[trigger] self.rows@[j].kid@) != kid@,
            decreases n - i,
        {
            if crate::util::str_eq(self.rows[i].kid.as_str(), kid) {
                return Some(i);
            }
            i = i + 1;
        }
        None
    }

    /// Keyed lookup of the stored public key and expiry.
    pub fn get(&self, kid: &str) -> (r: Option<(String, i64)>)
        requires
            self.wf(),
        ensures
            r matches Some(row) ==> self@.dom().contains(kid@) && self@[kid@] == (SessionKeyData {
                public_key: row.0@,
                expires_at: row.1 as int,
            }),
            r is None ==> !self@.dom().contains(kid@),
    {
        match self.index_of(kid) {
            Some(i) => {
                proof {
                    lemma_session_map_get(self.rows@, i as int);
                }
                Some((self.rows[i].public_key.clone(), self.rows[i].expires_at))
            },
            None => {
                proof {
                    lemma_session_map_dom(self.rows@, kid@);
                }
                None
            },
        }
    }

    /// Plain insert; fails (leaving the table unchanged) when the key exists,
    /// as the unique-key constraint would.
    pub fn insert_new(&mut self, kid: String, public_key: String, expires_at: i64) -> (r: bool)
        requires
            old(self).wf(),
        ensures
            final(self).wf(),
            r == !old(self)@.dom().contains(kid@),
            r ==> final(self)@ == old(self)@.insert(
                kid@,
                SessionKeyData { public_key: public_key@, expires_at: expires_at as int },
            ),
            !r ==> final(self)@ == old(self)@,
    {
        match self.index_of(&kid) {
            Some(i) => {
                proof {
                    lemma_session_map_get(self.rows@, i as int);
                }
                false
            },
            None => {
                proof {
                    lemma_session_map_dom(self.rows@, kid@);
                }
                self.rows.push(SessionRow { kid, public_key, expires_at });
                proof {
                    assert(self.rows@.drop_last() =~= old(self).rows@);
                }
                true
            },
        }
    }

    /// The keyed update of the refresh transition: the row keyed `old_kid`
    /// gets the new key id, public key and expiry. Fails (leaving the table
    /// unchanged) when `old_kid` is absent, or when `kid` would collide with
    /// another existing row.
    pub fn replace(&mut self, old_kid: &str, kid: String, public_key: String, expires_at: i64) -> (r:
        bool)
        requires
            old(self).wf(),
        ensures
            final(self).wf(),
            r == (old(self)@.dom().contains(old_kid@) && (kid@ == old_kid@ || !old(
                self,
            )@.dom().contains(kid@))),
            r ==> final(self)@ == old(self)@.remove(old_kid@).insert(
                kid@,
                SessionKeyData { public_key: public_key@, expires_at: expires_at as int },
            ),
            !r ==> final(self)@ == old(self)@,
    {
        let i = match self.index_of(old_kid) {
            Some(i) => i,
            None => {
                proof {
                    lemma_session_map_dom(self.rows@, old_kid@);
                }
                return false;
            },
        };
        proof {
            lemma_session_map_get(self.rows@, i as int);
        }
        if !crate::util::str_eq(kid.as_str(), old_kid) {
            match self.index_of(&kid) {
                Some(j) => {
                    proof {
                        lemma_session_map_get(self.rows@, j as int);
                    }
                    return false;
                },
                None => {
                    proof {
                        lemma_session_map_dom(self.rows@, kid@);
                    }
                },
            }
        }
        self.delete(old_kid);
        proof {
            assert(!self@.dom().contains(kid@));
            lemma_session_map_dom(self.rows@, kid@);
        }
        let ghost mid = self.rows@;
        let ghost mid_map = self@;
        self.rows.push(SessionRow { kid, public_key, expires_at });
        proof {
            assert(self.rows@.drop_last() =~= mid);
            assert(self@ == mid_map.insert(self.rows@.last().kid@, session_data_of(&self.rows@.last())));
            assert(self@ =~= old(self)@.remove(old_kid@).insert(
                self.rows@.last().kid@,
                (SessionKeyData {
                    public_key: self.rows@.last().public_key@,
                    expires_at: self.rows@.last().expires_at as int,
                }),
            ));
        }
        true
    }

    /// Keyed delete; absent keys are not an error.
    pub fn delete(&mut self, kid: &str)
        requires
            old(self).wf(),
        ensures
            final(self).wf(),
            final(self)@ == old(self)@.remove(kid@),
    {
        match self.index_of(kid) {
            Some(i) => {
                proof {
                    lemma_session_map_remove(self.rows@, i as int);
                }
                let ghost before = self.rows@;
                self.rows.remove(i);
                proof {
                    before.remove_ensures(i as int);
                }
            },
            None => {
                proof {
                    lemma_session_map_dom(self.rows@, kid@);
                    assert(final(self)@ =~= old(self)@.remove(kid@));
                }
            },
        }
    }

    /// Deletes every row whose expiry lies strictly before `now`.
    pub fn delete_expired(&mut self, now: i64)
        requires
            old(self).wf(),
        ensures
            final(self).wf(),
            forall|k: Seq<char>|
                final(self)@.dom().contains(k) <==> (#[trigger] old(self)@.dom().contains(k) && old(
                    self,
                )@[k].expires_at >= now),
            forall|k: Seq<char>|
                #[trigger] final(self)@.dom().contains(k) ==> final(self)@[k] == old(self)@[k],
    {
        let n = self.rows.len();
        let mut kept: Vec<SessionRow> = Vec::new();
        let mut i: usize = 0;
        while i < n
            invariant
                0 <= i <= n == self.rows@.len(),
                old(self).wf(),
                self.rows@ == old(self).rows@,
                forall|a: int, b: int|
                    0 <= a < b < kept@.len() ==> (#[trigger] kept@[a].kid@) != (
                #[trigger] kept@[b].kid@),
                forall|k: Seq<char>|
                    session_map(kept@).dom().contains(k) <==> (#[trigger] session_map(
                        self.rows@.take(i as int),
                    ).dom().contains(k) && session_map(self.rows@.take(i as int))[k].expires_at
                        >= now),
                forall|k: Seq<char>|
                    #[trigger] session_map(kept@).dom().contains(k) ==> session_map(kept@)[k]
                        == session_map(self.rows@.take(i as int))[k],
                forall|j: int, k: int|
                    0 <= j < kept@.len() && 0 <= k < self.rows@.len() && i <= k ==> (
                    #[trigger] kept@[j].kid@) != (#[trigger] self.rows@[k].kid@),
            decreases n - i,
        {
            let ghost prefix = self.rows@.take(i as int);
            let ghost kept_before = kept@;
            proof {
                assert(self.rows@.take(i as int + 1).drop_last() =~= prefix);
                assert(self.rows@.take(i as int + 1).last() == self.rows@[i as int]);
                lemma_session_map_dom(prefix, self.rows@[i as int].kid@);
                assert(!session_map(prefix).dom().contains(self.rows@[i as int].kid@));
            }
            let keep = self.rows[i].expires_at >= now;
            if keep {
                let row = SessionRow {
                    kid: self.rows[i].kid.clone(),
                    public_key: self.rows[i].public_key.clone(),
                    expires_at: self.rows[i].expires_at,
                };
                kept.push(row);
                proof {
                    assert(kept@.drop_last() =~= kept_before);
                    lemma_session_map_dom(kept_before, self.rows@[i as int].kid@);
                    lemma_session_map_dom(self.rows@, self.rows@[i as int].kid@);
                    assert(kept@.last().kid@ == self.rows@[i as int].kid@);
                    assert(session_data_of(&kept@.last()) == session_data_of(
                        &self.rows@[i as int],
                    ));
                    assert(session_map(kept@) == session_map(kept_before).insert(
                        self.rows@[i as int].kid@,
                        session_data_of(&self.rows@[i as int]),
                    ));
                    assert(session_map(self.rows@.take(i as int + 1)) == session_map(
                        prefix,
                    ).insert(self.rows@[i as int].kid@, session_data_of(&self.rows@[i as int])));
                }
            } else {
                proof {
                    lemma_session_map_dom(kept_before, self.rows@[i as int].kid@);
                    assert(session_map(self.rows@.take(i as int + 1)) == session_map(
                        prefix,
                    ).insert(self.rows@[i as int].kid@, session_data_of(&self.rows@[i as int])));
                }
            }
            i = i + 1;
        }
        proof {
            assert(self.rows@.take(n as int) =~= self.rows@);
        }
        self.rows = kept;
    }
}

} // verus!
