//! Buckets of agent indices, keyed by cell identifier.

use vstd::prelude::*;
use crate::hashing::{cell_id, hash, CellCoord};

verus! {

/// Largest capacity that a table is ever asked to reserve up front.
pub const RESERVE_LIMIT: usize = 0x100_0000;

/// The hash table behind a grid: a `hashbrown::HashMap` from cell identifier
/// to the indices of the agents in that cell. The map's own type has an
/// allocator parameter that Verus cannot be told of, so the map sits behind
/// this struct and its contents are only known through [`buckets_of`].
#[verifier::external_body]
pub struct CellTable {
    inner: hashbrown::HashMap<u32, Vec<usize>>,
}

/// What a table holds: for each occupied cell identifier, the agent indices
/// stored under it, in the order in which they were stored.
pub uninterp spec fn buckets_of(table: CellTable) -> Map<u32, Seq<usize>>;

/// `hashbrown::HashMap::with_capacity`: the new table holds nothing. The
/// bound keeps the reserved size far below the point where the map reports
/// a capacity overflow.
#[verifier::external_body]
fn table_with_capacity(capacity: usize) -> (table: CellTable)
    requires
        capacity <= RESERVE_LIMIT,
    ensures
        buckets_of(table) == (Map::<u32, Seq<usize>>::empty()),
{
    CellTable { inner: hashbrown::HashMap::with_capacity(capacity) }
}

/// `hashbrown::HashMap::get_mut`: `None` exactly when nothing is stored under
/// `id`; otherwise a borrow of the bucket stored there, and what is written
/// through the borrow is what the table holds under `id` afterwards. No other
/// entry changes.
#[verifier::external_body]
fn table_get_mut(table: &mut CellTable, id: u32) -> (slot: Option<&mut Vec<usize>>)
    ensures
        match slot {
            Some(bucket) => {
                &&& buckets_of(*old(table)).contains_key(id)
                &&& bucket@ == buckets_of(*old(table))[id]
                &&& buckets_of(*final(table)) == buckets_of(*old(table)).insert(id, final(bucket)@)
            },
            None => {
                &&& !buckets_of(*old(table)).contains_key(id)
                &&& buckets_of(*final(table)) == buckets_of(*old(table))
            },
        },
{
    table.inner.get_mut(&id)
}

/// `hashbrown::HashMap::insert`: afterwards `bucket` is stored under `id` and
/// every other entry is as before; the result is what was stored under `id`
/// before, if anything.
#[verifier::external_body]
fn table_insert(table: &mut CellTable, id: u32, bucket: Vec<usize>) -> (previous: Option<Vec<usize>>)
    ensures
        buckets_of(*final(table)) == buckets_of(*old(table)).insert(id, bucket@),
        match previous {
            Some(b) => buckets_of(*old(table)).contains_key(id) && b@ == buckets_of(*old(table))[id],
            None => !buckets_of(*old(table)).contains_key(id),
        },
{
    table.inner.insert(id, bucket)
}

/// `hashbrown::HashMap::get`: `None` exactly when nothing is stored under
/// `id`; otherwise the bucket stored there.
#[verifier::external_body]
fn table_get(table: &CellTable, id: u32) -> (slot: Option<&Vec<usize>>)
    ensures
        match slot {
            Some(bucket) => buckets_of(*table).contains_key(id) && bucket@ == buckets_of(*table)[id],
            None => !buckets_of(*table).contains_key(id),
        },
{
    table.inner.get(&id)
}

/// `hashbrown::HashMap::iter`, keeping the key of each entry: every stored
/// identifier comes out exactly once. The map fixes no order, so none is
/// stated.
#[verifier::external_body]
fn table_keys(table: &CellTable) -> (keys: Vec<u32>)
    ensures
        keys@.no_duplicates(),
        forall|id: u32| keys@.contains(id) <==> buckets_of(*table).contains_key(id),
{
    table.inner.iter().map(|entry| *entry.0).collect()
}

/// The identifier of each agent's cell, by agent index.
pub open spec fn cell_ids(cells: Seq<CellCoord>, table_size: u32) -> Seq<u32> {
    Seq::new(cells.len(), |i: int| cell_id(cells[i], table_size))
}

/// The indices `i` with `ids[i] == id`, in ascending order.
pub open spec fn members(ids: Seq<u32>, id: u32) -> Seq<usize>
    decreases ids.len(),
{
    if ids.len() == 0 {
        Seq::empty()
    } else if ids.last() == id {
        members(ids.drop_last(), id).push((ids.len() - 1) as usize)
    } else {
        members(ids.drop_last(), id)
    }
}

/// The grid of a population: one bucket for each identifier that occurs,
/// holding the agents with that identifier.
pub open spec fn bucket_map(ids: Seq<u32>) -> Map<u32, Seq<usize>> {
    Map::new(|id: u32| ids.contains(id), |id: u32| members(ids, id))
}

/// Every member of a bucket is an agent with the bucket's identifier.
pub proof fn lemma_members_sound(ids: Seq<u32>, id: u32, k: int)
    requires
        ids.len() <= usize::MAX,
        0 <= k < members(ids, id).len(),
    ensures
        members(ids, id)[k] < ids.len(),
        ids[members(ids, id)[k] as int] == id,
    decreases ids.len(),
{
    if ids.len() > 0 {
        let rest = members(ids.drop_last(), id);
        if k < rest.len() {
            lemma_members_sound(ids.drop_last(), id, k);
        }
    }
}

/// Every agent with the bucket's identifier is a member of the bucket.
pub proof fn lemma_members_complete(ids: Seq<u32>, id: u32, i: int)
    requires
        0 <= i < ids.len() <= usize::MAX,
        ids[i] == id,
    ensures
        members(ids, id).contains(i as usize),
    decreases ids.len(),
{
    let rest = members(ids.drop_last(), id);
    if i == ids.len() - 1 {
        assert(members(ids, id)[rest.len() as int] == i as usize);
    } else {
        lemma_members_complete(ids.drop_last(), id, i);
        let k = choose|k: int| 0 <= k < rest.len() && rest[k] == i as usize;
        assert(members(ids, id)[k] == i as usize);
    }
}

/// A bucket lists its members in strictly ascending order, so none occurs
/// twice.
pub proof fn lemma_members_ascending(ids: Seq<u32>, id: u32, j: int, k: int)
    requires
        ids.len() <= usize::MAX,
        0 <= j < k < members(ids, id).len(),
    ensures
        members(ids, id)[j] < members(ids, id)[k],
    decreases ids.len(),
{
    if ids.len() > 0 {
        let rest = members(ids.drop_last(), id);
        if k < rest.len() {
            lemma_members_ascending(ids.drop_last(), id, j, k);
        } else {
            lemma_members_sound(ids.drop_last(), id, j);
        }
    }
}

/// An identifier that no agent has owns no members.
proof fn lemma_members_absent(ids: Seq<u32>, id: u32)
    requires
        !ids.contains(id),
    ensures
        members(ids, id) == Seq::<usize>::empty(),
    decreases ids.len(),
{
    if ids.len() > 0 {
        assert(ids.last() == ids[ids.len() - 1]);
        assert forall|j: int| 0 <= j < ids.drop_last().len() implies ids.drop_last()[j] != id by {
            assert(ids.drop_last()[j] == ids[j]);
        }
        lemma_members_absent(ids.drop_last(), id);
    }
}

/// Adding agent `n` with identifier `ids[n]` to the grid of the first `n`
/// agents changes one bucket only.
proof fn lemma_bucket_map_step(ids: Seq<u32>, n: int)
    requires
        0 <= n < ids.len(),
    ensures
        bucket_map(ids.take(n + 1)) == bucket_map(ids.take(n)).insert(
            ids[n],
            members(ids.take(n), ids[n]).push(n as usize),
        ),
{
    let before = ids.take(n);
    let after = ids.take(n + 1);
    assert(after.drop_last() == before);
    assert(after.last() == ids[n]);
    assert forall|id: u32| after.contains(id) <==> (before.contains(id) || id == ids[n]) by {
        if after.contains(id) {
            let j = choose|j: int| 0 <= j < after.len() && after[j] == id;
            if j < n {
                assert(before[j] == id);
            }
        }
        if before.contains(id) {
            let j = choose|j: int| 0 <= j < before.len() && before[j] == id;
            assert(after[j] == id);
        }
        if id == ids[n] {
            assert(after[n] == id);
        }
    }
    assert(bucket_map(after) =~= bucket_map(before).insert(
        ids[n],
        members(before, ids[n]).push(n as usize),
    ));
}

/// No bucket of a grid is empty.
pub proof fn lemma_no_empty_bucket(ids: Seq<u32>, id: u32)
    requires
        ids.len() <= usize::MAX,
        bucket_map(ids).contains_key(id),
    ensures
        bucket_map(ids)[id].len() > 0,
{
    let i = choose|i: int| 0 <= i < ids.len() && ids[i] == id;
    lemma_members_complete(ids, id, i);
}

/// Every agent is in exactly one bucket, the one of its cell's identifier,
/// and is listed there once.
pub proof fn lemma_agent_in_one_bucket(ids: Seq<u32>, i: int)
    requires
        0 <= i < ids.len() <= usize::MAX,
    ensures
        bucket_map(ids).contains_key(ids[i]),
        bucket_map(ids)[ids[i]].contains(i as usize),
        bucket_map(ids)[ids[i]].no_duplicates(),
        forall|id: u32|
            bucket_map(ids).contains_key(id) && #[trigger] bucket_map(ids)[id].contains(i as usize)
                ==> id == ids[i],
{
    lemma_members_complete(ids, ids[i], i);
    let own = members(ids, ids[i]);
    assert forall|j: int, k: int| 0 <= j < own.len() && 0 <= k < own.len() && j != k implies own[j]
        != own[k] by {
        if j < k {
            lemma_members_ascending(ids, ids[i], j, k);
        } else {
            lemma_members_ascending(ids, ids[i], k, j);
        }
    }
    assert forall|id: u32|
        bucket_map(ids).contains_key(id) && #[trigger] bucket_map(ids)[id].contains(
            i as usize,
        ) implies id == ids[i] by {
        let k = choose|k: int| 0 <= k < members(ids, id).len() && members(ids, id)[k] == i as usize;
        lemma_members_sound(ids, id, k);
    }
}

/// An agent whose identifier no other agent has is alone in its bucket.
pub proof fn lemma_lone_agent_bucket(ids: Seq<u32>, i: int)
    requires
        0 <= i < ids.len() <= usize::MAX,
        forall|j: int| 0 <= j < ids.len() && j != i ==> ids[j] != ids[i],
    ensures
        bucket_map(ids)[ids[i]] == seq![i as usize],
{
    let own = members(ids, ids[i]);
    lemma_members_complete(ids, ids[i], i);
    assert forall|k: int| 0 <= k < own.len() implies own[k] == i as usize by {
        lemma_members_sound(ids, ids[i], k);
    }
    if own.len() > 1 {
        lemma_members_ascending(ids, ids[i], 0, 1);
    }
    assert(own =~= seq![i as usize]);
}

/// Two agents in the same cell have the same identifier and share a bucket.
pub proof fn lemma_same_cell_same_bucket(cells: Seq<CellCoord>, table_size: u32, i: int, j: int)
    requires
        0 <= i < cells.len() <= usize::MAX,
        0 <= j < cells.len(),
        cells[i] == cells[j],
    ensures
        cell_ids(cells, table_size)[i] == cell_ids(cells, table_size)[j],
        bucket_map(cell_ids(cells, table_size))[cell_id(cells[i], table_size)].contains(i as usize),
        bucket_map(cell_ids(cells, table_size))[cell_id(cells[i], table_size)].contains(j as usize),
{
    let ids = cell_ids(cells, table_size);
    lemma_agent_in_one_bucket(ids, i);
    lemma_agent_in_one_bucket(ids, j);
}

/// The agents of one tick, bucketed by the identifier of their cell. Only
/// occupied cells have a bucket, and a bucket lists its agents by ascending
/// index.
pub struct SpatialGrid {
    table: CellTable,
    ids: Ghost<Seq<u32>>,
}

impl View for SpatialGrid {
    type V = Map<u32, Seq<usize>>;

    closed spec fn view(&self) -> Map<u32, Seq<usize>> {
        buckets_of(self.table)
    }
}

impl SpatialGrid {
    #[verifier::type_invariant]
    spec fn holds_its_agents(self) -> bool {
        buckets_of(self.table) == bucket_map(self.ids@)
    }

    /// The cell identifier of each agent the grid was built from.
    pub closed spec fn ids(&self) -> Seq<u32> {
        self.ids@
    }

    /// Buckets the agents whose cells are `cells`, agent `i` being in
    /// `cells[i]`, by their identifier in a table of `table_size` slots.
    pub fn build(cells: &Vec<CellCoord>, table_size: u32) -> (grid: SpatialGrid)
        requires
            table_size > 0,
        ensures
            grid.ids() == cell_ids(cells@, table_size),
            grid@ == bucket_map(grid.ids()),
    {
        let count: usize = cells.len();
        let slots: usize = if table_size as usize <= count { table_size as usize } else { count };
        let reserve: usize = if slots <= RESERVE_LIMIT { slots } else { RESERVE_LIMIT };
        let mut table = table_with_capacity(reserve);
        let ghost ids = cell_ids(cells@, table_size);
        proof {
            assert(bucket_map(ids.take(0)) =~= Map::<u32, Seq<usize>>::empty());
        }
        for i in 0..count
            invariant
                count == cells.len(),
                table_size > 0,
                ids == cell_ids(cells@, table_size),
                buckets_of(table) == bucket_map(ids.take(i as int)),
        {
            let id: u32 = hash(cells[i], table_size);
            proof {
                lemma_bucket_map_step(ids, i as int);
            }
            match table_get_mut(&mut table, id) {
                Some(bucket) => {
                    bucket.push(i);
                },
                None => {
                    proof {
                        lemma_members_absent(ids.take(i as int), id);
                    }
                    let mut bucket: Vec<usize> = Vec::new();
                    bucket.push(i);
                    table_insert(&mut table, id, bucket);
                },
            }
        }
        proof {
            assert(ids.take(count as int) == ids);
        }
        SpatialGrid { table, ids: Ghost(ids) }
    }

    /// The agents bucketed under `id`, or `None` where no agent is.
    pub fn bucket(&self, id: u32) -> (members: Option<&Vec<usize>>)
        ensures
            self@ == bucket_map(self.ids()),
            match members {
                Some(bucket) => self@.contains_key(id) && bucket@ == self@[id],
                None => !self@.contains_key(id),
            },
    {
        proof {
            use_type_invariant(self);
        }
        table_get(&self.table, id)
    }

    /// The identifiers of the occupied cells, each once, in no particular
    /// order.
    pub fn occupied(&self) -> (ids: Vec<u32>)
        ensures
            self@ == bucket_map(self.ids()),
            ids@.no_duplicates(),
            forall|id: u32| ids@.contains(id) <==> self@.contains_key(id),
    {
        proof {
            use_type_invariant(self);
        }
        table_keys(&self.table)
    }
}

} // verus!
