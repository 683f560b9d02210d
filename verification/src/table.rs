//! One table of records, shared by every resource kind.
//!
//! A table stores rows in insertion order.  A row wraps the client-supplied
//! data of its resource in a server-assigned identifier and a pair of
//! timestamps.  The table is modelled two ways: as the sequence of its rows
//! (`entries`, what a listing returns) and as a map from identifier to row
//! (`model`, what lookups, updates and deletes are stated over).  Every row
//! carries a distinct identifier; that invariant is attached to the type, so
//! no caller has to restate it.

use vstd::prelude::*;

verus! {

/// A stored record: the client data `data` of payload type `P`, keyed by a
/// server-assigned identifier, with the timestamps of its creation and of
/// its last write.
#[derive(Clone, Copy, Debug)]
pub struct Row<P> {
    pub id: u128,
    pub created_at: i64,
    pub updated_at: i64,
    pub data: P,
}

/// No two rows of the sequence carry the same identifier.
pub open spec fn unique_ids<P>(s: Seq<Row<P>>) -> bool {
    forall|i: int, j: int| 0 <= i < j < s.len() ==> s[i].id != s[j].id
}

/// The map from identifier to row that a sequence of rows describes.
/// When an identifier repeats, the later row wins; on a sequence with
/// `unique_ids` the question does not arise.
pub open spec fn map_of<P>(s: Seq<Row<P>>) -> Map<u128, Row<P>>
    decreases s.len(),
{
    if s.len() == 0 {
        Map::empty()
    } else {
        map_of(s.drop_last()).insert(s.last().id, s.last())
    }
}

/// An identifier is in the map exactly when some row of the sequence carries it.
pub proof fn lemma_map_of_contains<P>(s: Seq<Row<P>>, k: u128)
    ensures
        map_of(s).dom().contains(k) <==> exists|i: int| 0 <= i < s.len() && s[i].id == k,
    decreases s.len(),
{
    if s.len() > 0 {
        lemma_map_of_contains(s.drop_last(), k);
        if s.last().id == k {
            assert(s[s.len() - 1].id == k);
        } else if map_of(s).dom().contains(k) {
            let i = choose|i: int| 0 <= i < s.drop_last().len() && s.drop_last()[i].id == k;
            assert(s[i].id == k);
        } else if exists|i: int| 0 <= i < s.len() && s[i].id == k {
            let i = choose|i: int| 0 <= i < s.len() && s[i].id == k;
            assert(s.drop_last()[i].id == k);
        }
    }
}

/// On a sequence without repeated identifiers, the map sends each row's
/// identifier to that row.
pub proof fn lemma_map_of_index<P>(s: Seq<Row<P>>, i: int)
    requires
        unique_ids(s),
        0 <= i < s.len(),
    ensures
        map_of(s).dom().contains(s[i].id),
        map_of(s)[s[i].id] == s[i],
    decreases s.len(),
{
    if i < s.len() - 1 {
        assert(unique_ids(s.drop_last())) by {
            assert(forall|x: int, y: int|
                0 <= x < y < s.drop_last().len() ==> s.drop_last()[x] == s[x] && s.drop_last()[y]
                    == s[y]);
        }
        lemma_map_of_index(s.drop_last(), i);
        assert(s.drop_last()[i] == s[i]);
        assert(s[i].id != s.last().id) by {
            assert(s.last() == s[s.len() - 1]);
        }
    }
}

/// Appending a row extends the map at that row's identifier.
pub proof fn lemma_map_of_push<P>(s: Seq<Row<P>>, r: Row<P>)
    ensures
        map_of(s.push(r)) == map_of(s).insert(r.id, r),
{
    assert(s.push(r).drop_last() =~= s);
    assert(s.push(r).last() == r);
}

/// Replacing the row at an index by one with the same identifier rewrites
/// the map at that identifier alone.
pub proof fn lemma_map_of_update<P>(s: Seq<Row<P>>, i: int, r: Row<P>)
    requires
        unique_ids(s),
        0 <= i < s.len(),
        r.id == s[i].id,
    ensures
        map_of(s.update(i, r)) == map_of(s).insert(r.id, r),
    decreases s.len(),
{
    let t = s.update(i, r);
    if i == s.len() - 1 {
        assert(t.drop_last() =~= s.drop_last());
        assert(t.last() == r);
        assert(map_of(s).insert(s.last().id, s.last()).insert(r.id, r) =~= map_of(
            s.drop_last(),
        ).insert(r.id, r));
    } else {
        assert(unique_ids(s.drop_last())) by {
            assert(forall|x: int, y: int|
                0 <= x < y < s.drop_last().len() ==> s.drop_last()[x] == s[x] && s.drop_last()[y]
                    == s[y]);
        }
        assert(s.drop_last()[i] == s[i]);
        lemma_map_of_update(s.drop_last(), i, r);
        assert(t.drop_last() =~= s.drop_last().update(i, r));
        assert(t.last() == s.last());
        assert(r.id != s.last().id) by {
            assert(s.last() == s[s.len() - 1]);
        }
        assert(map_of(s.drop_last()).insert(r.id, r).insert(s.last().id, s.last()) =~= map_of(
            s.drop_last(),
        ).insert(s.last().id, s.last()).insert(r.id, r));
    }
}

/// Removing the row at an index erases the map at that row's identifier alone.
pub proof fn lemma_map_of_remove<P>(s: Seq<Row<P>>, i: int)
    requires
        unique_ids(s),
        0 <= i < s.len(),
    ensures
        map_of(s.remove(i)) == map_of(s).remove(s[i].id),
    decreases s.len(),
{
    let t = s.remove(i);
    assert(unique_ids(s.drop_last())) by {
        assert(forall|x: int, y: int|
            0 <= x < y < s.drop_last().len() ==> s.drop_last()[x] == s[x] && s.drop_last()[y]
                == s[y]);
    }
    if i == s.len() - 1 {
        assert(t =~= s.drop_last());
        assert(!map_of(s.drop_last()).dom().contains(s[i].id)) by {
            lemma_map_of_contains(s.drop_last(), s[i].id);
            assert(forall|j: int|
                0 <= j < s.drop_last().len() ==> s.drop_last()[j] == s[j] && s[j].id != s[i].id);
        }
        assert(map_of(s.drop_last()).insert(s.last().id, s.last()).remove(s[i].id) =~= map_of(
            s.drop_last(),
        ));
    } else {
        assert(s.drop_last()[i] == s[i]);
        lemma_map_of_remove(s.drop_last(), i);
        assert(t.drop_last() =~= s.drop_last().remove(i));
        assert(t.last() == s.last()) by {
            assert(t[t.len() - 1] == s[s.len() - 1]);
        }
        assert(s[i].id != s.last().id) by {
            assert(s.last() == s[s.len() - 1]);
        }
        assert(map_of(s.drop_last()).remove(s[i].id).insert(s.last().id, s.last()) =~= map_of(
            s.drop_last(),
        ).insert(s.last().id, s.last()).remove(s[i].id));
    }
}

/// One table of rows over the payload type `P`.
pub struct Table<P> {
    rows: Vec<Row<P>>,
}

impl<P> Table<P> {
    /// The rows of the table, oldest first.
    pub closed spec fn entries(self) -> Seq<Row<P>> {
        self.rows@
    }

    /// The table read as a map from identifier to row.
    pub open spec fn model(self) -> Map<u128, Row<P>> {
        map_of(self.entries())
    }

    #[verifier::type_invariant]
    spec fn wf(self) -> bool {
        unique_ids(self.rows@)
    }

    /// An empty table.
    pub fn new() -> (t: Table<P>)
        ensures
            t.entries() == Seq::<Row<P>>::empty(),
            t.model() == Map::<u128, Row<P>>::empty(),
    {
        Table { rows: Vec::new() }
    }

    /// How many rows the table holds.
    pub fn len(&self) -> (n: usize)
        ensures
            n == self.entries().len(),
    {
        self.rows.len()
    }

    /// All rows, oldest first: what a plain listing returns.
    pub fn all(&self) -> (r: &Vec<Row<P>>)
        ensures
            r@ == self.entries(),
    {
        &self.rows
    }

    /// The position of the row carrying `id`, if any.
    fn index_of(&self, id: u128) -> (r: Option<usize>)
        ensures
            r matches Some(i) ==> i < self.entries().len() && self.entries()[i as int].id == id,
            r is None ==> forall|j: int| 0 <= j < self.entries().len() ==> self.entries()[j].id != id,
    {
        let n = self.rows.len();
        let mut k: usize = 0;
        while k < n
            invariant
                n == self.rows@.len(),
                k <= n,
                forall|j: int| 0 <= j < k ==> self.rows@[j].id != id,
            decreases n - k,
        {
            if self.rows[k].id == id {
                return Some(k);
            }
            k = k + 1;
        }
        None
    }

    /// Fetch by identifier: the row the model holds under `id`, or nothing.
    pub fn find(&self, id: u128) -> (r: Option<&Row<P>>)
        ensures
            r is Some <==> self.model().dom().contains(id),
            r matches Some(row) ==> *row == self.model()[id] && row.id == id,
    {
        proof {
            use_type_invariant(self);
            lemma_map_of_contains(self.entries(), id);
        }
        match self.index_of(id) {
            Some(i) => {
                proof {
                    lemma_map_of_index(self.entries(), i as int);
                }
                Some(&self.rows[i])
            },
            None => None,
        }
    }

    /// Insert a new row under `id`, with both timestamps set to `now`, as a
    /// creation does.  Fails, leaving the table unchanged, exactly when `id`
    /// is already taken.
    pub fn create_with(&mut self, id: u128, now: i64, data: P) -> (created: bool)
        ensures
            created <==> !old(self).model().dom().contains(id),
            created ==> final(self).entries() == old(self).entries().push(
                (Row { id, created_at: now, updated_at: now, data }),
            ),
            created ==> final(self).model() == old(self).model().insert(
                id,
                (Row { id, created_at: now, updated_at: now, data }),
            ),
            !created ==> *final(self) == *old(self),
    {
        proof {
            use_type_invariant(&*self);
            lemma_map_of_contains(self.entries(), id);
        }
        match self.index_of(id) {
            Some(_) => false,
            None => {
                let mut rows: Vec<Row<P>> = Vec::new();
                std::mem::swap(&mut rows, &mut self.rows);
                let row = Row { id, created_at: now, updated_at: now, data };
                rows.push(row);
                proof {
                    lemma_map_of_push(rows@.drop_last(), row);
                    assert(rows@.drop_last() =~= old(self).entries());
                    assert(rows@.last() == row);
                    assert(unique_ids(rows@)) by {
                        assert(forall|j: int|
                            0 <= j < rows@.len() - 1 ==> rows@[j] == old(self).entries()[j]);
                        assert(rows@[rows@.len() - 1].id == id);
                    }
                }
                self.rows = rows;
                true
            },
        }
    }

    /// Create a row from client data alone: the identifier is drawn fresh and
    /// both timestamps are read from the clock.  On success the new row is
    /// reported by its identifier; it failed only if the drawn identifier was
    /// already taken, and then the table is unchanged.
    pub fn create(&mut self, data: P) -> (r: Option<u128>)
        ensures
            r matches Some(id) ==> ({
                let row = final(self).model()[id];
                &&& !old(self).model().dom().contains(id)
                &&& row.id == id
                &&& row.data == data
                &&& row.created_at == row.updated_at
                &&& final(self).model() == old(self).model().insert(id, row)
                &&& final(self).entries() == old(self).entries().push(row)
            }),
            r is None ==> *final(self) == *old(self),
    {
        let id = crate::ids::fresh_id();
        let now = crate::clock::now_seconds();
        if self.create_with(id, now, data) {
            Some(id)
        } else {
            None
        }
    }

    /// Replace every client field of the row under `id` and set its updated
    /// timestamp to `now`, keeping its identifier and creation timestamp: a
    /// full replace, not a merge.  Rows under other identifiers, and the
    /// order of the listing, are untouched.  Reports whether the row existed;
    /// if not, the table is unchanged.
    pub fn update_with(&mut self, id: u128, now: i64, data: P) -> (found: bool)
        ensures
            found <==> old(self).model().dom().contains(id),
            final(self).entries().len() == old(self).entries().len(),
            forall|j: int|
                0 <= j < old(self).entries().len() && old(self).entries()[j].id != id ==> final(self).entries()[j] == old(self).entries()[j],
            found ==> forall|j: int|
                0 <= j < old(self).entries().len() && old(self).entries()[j].id == id ==> final(self).entries()[j] == (Row {
                    id,
                    created_at: old(self).entries()[j].created_at,
                    updated_at: now,
                    data,
                }),
            found ==> final(self).model() == old(self).model().insert(
                id,
                (Row {
                    id,
                    created_at: old(self).model()[id].created_at,
                    updated_at: now,
                    data,
                }),
            ),
            !found ==> *final(self) == *old(self),
    {
        proof {
            use_type_invariant(&*self);
            lemma_map_of_contains(self.entries(), id);
        }
        match self.index_of(id) {
            None => false,
            Some(i) => {
                proof {
                    lemma_map_of_index(self.entries(), i as int);
                }
                let mut rows: Vec<Row<P>> = Vec::new();
                std::mem::swap(&mut rows, &mut self.rows);
                let created_at = rows[i].created_at;
                let row = Row { id, created_at, updated_at: now, data };
                rows.set(i, row);
                proof {
                    lemma_map_of_update(old(self).entries(), i as int, row);
                    assert(unique_ids(rows@)) by {
                        assert(forall|j: int|
                            0 <= j < rows@.len() && j != i ==> rows@[j] == old(self).entries()[j]);
                    }
                    assert(forall|j: int|
                        0 <= j < old(self).entries().len() && old(self).entries()[j].id == id
                            ==> j == i);
                }
                self.rows = rows;
                true
            },
        }
    }

    /// Replace the row under `id` with client data alone, the updated
    /// timestamp read from the clock.  The identifier and the creation
    /// timestamp stay; reports whether the row existed.
    pub fn update(&mut self, id: u128, data: P) -> (found: bool)
        ensures
            found <==> old(self).model().dom().contains(id),
            final(self).entries().len() == old(self).entries().len(),
            forall|j: int|
                0 <= j < old(self).entries().len() && old(self).entries()[j].id != id ==> final(self).entries()[j] == old(self).entries()[j],
            found ==> ({
                let row = final(self).model()[id];
                &&& row.id == id
                &&& row.data == data
                &&& row.created_at == old(self).model()[id].created_at
                &&& final(self).model() == old(self).model().insert(id, row)
            }),
            !found ==> *final(self) == *old(self),
    {
        let now = crate::clock::now_seconds();
        self.update_with(id, now, data)
    }

    /// Remove the row under `id` and report how many rows that touched:
    /// one when the row existed, zero when it did not.  The remaining rows
    /// keep their order.
    pub fn delete(&mut self, id: u128) -> (n: usize)
        ensures
            n <= 1,
            (n == 1) <==> old(self).model().dom().contains(id),
            final(self).model() == old(self).model().remove(id),
            n == 1 ==> (exists|j: int|
                0 <= j < old(self).entries().len() && old(self).entries()[j].id == id && final(self).entries() == old(self).entries().remove(j)),
            n == 0 ==> *final(self) == *old(self),
    {
        proof {
            use_type_invariant(&*self);
            lemma_map_of_contains(self.entries(), id);
        }
        match self.index_of(id) {
            None => {
                proof {
                    assert(old(self).model().remove(id) =~= old(self).model());
                }
                0
            },
            Some(i) => {
                let mut rows: Vec<Row<P>> = Vec::new();
                std::mem::swap(&mut rows, &mut self.rows);
                rows.remove(i);
                proof {
                    lemma_map_of_remove(old(self).entries(), i as int);
                    old(self).entries().remove_ensures(i as int);
                    assert(unique_ids(rows@));
                }
                self.rows = rows;
                1
            },
        }
    }
}

/// Law: a row just created is returned unchanged by a fetch of its
/// identifier — looking the identifier up in the extended model yields
/// exactly the created row.
pub proof fn lemma_create_then_fetch<P>(m: Map<u128, Row<P>>, id: u128, row: Row<P>)
    ensures
        m.insert(id, row).dom().contains(id),
        m.insert(id, row)[id] == row,
{
}

/// Law: after a delete, a fetch of the same identifier finds nothing.
pub proof fn lemma_delete_then_fetch<P>(m: Map<u128, Row<P>>, id: u128)
    ensures
        !m.remove(id).dom().contains(id),
{
}

/// Law: an update replaces every client field, keeps the identifier and the
/// creation timestamp, and — whenever the clock reads later than the stored
/// row's last write — strictly increases the updated timestamp.
pub proof fn lemma_update_refreshes<P>(m: Map<u128, Row<P>>, id: u128, now: i64, data: P)
    requires
        m.dom().contains(id),
        now > m[id].updated_at,
    ensures
        ({
            let m2 = m.insert(id, (Row { id, created_at: m[id].created_at, updated_at: now, data }));
            &&& m2[id].updated_at > m[id].updated_at
            &&& m2[id].data == data
            &&& m2[id].created_at == m[id].created_at
            &&& m2[id].id == id
            &&& forall|k: u128| k != id && m.dom().contains(k) ==> m2[k] == m[k]
        }),
{
}

} // verus!
