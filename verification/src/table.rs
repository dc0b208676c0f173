//! Handle tables: a map from monotonically issued 64-bit identifiers to
//! host-side resources.

use std::collections::HashMap;
use vstd::prelude::*;

verus! {

broadcast use vstd::std_specs::hash::group_hash_axioms;

/// What a table is, mathematically: the live entries and the identifier the
/// next insertion will receive.
#[verifier::ext_equal]
pub struct TableModel<T> {
    pub entries: Map<u64, T>,
    pub next_id: nat,
}

impl<T> TableModel<T> {
    /// The table nothing has been added to.
    pub open spec fn empty() -> Self {
        TableModel { entries: Map::empty(), next_id: 0 }
    }

    /// The table after `item` has been stored under the next identifier.
    pub open spec fn added(self, item: T) -> Self {
        TableModel {
            entries: self.entries.insert(self.next_id as u64, item),
            next_id: self.next_id + 1,
        }
    }

    /// The table after `id` has been given up. The counter does not move.
    pub open spec fn removed(self, id: u64) -> Self {
        TableModel { entries: self.entries.remove(id), next_id: self.next_id }
    }

    /// The table with the live entry `id` holding `item` instead.
    pub open spec fn replaced(self, id: u64, item: T) -> Self {
        TableModel { entries: self.entries.insert(id, item), next_id: self.next_id }
    }

    /// The resource that `id` names, if it names one.
    pub open spec fn lookup(self, id: u64) -> Option<T> {
        if self.entries.contains_key(id) {
            Some(self.entries[id])
        } else {
            None
        }
    }

    /// Every live identifier was issued, and issued identifiers fit in 64 bits.
    pub open spec fn wf(self) -> bool {
        &&& self.next_id <= u64::MAX
        &&& self.entries.dom().finite()
        &&& forall|id: u64| self.entries.contains_key(id) ==> (id as nat) < self.next_id
    }
}

/// One step in the life of a table.
pub enum TableOp<T> {
    /// `item` is stored under the next identifier.
    Add(T),
    /// The identifier is given up.
    Remove(u64),
}

impl<T> TableModel<T> {
    /// The table after the step `op`.
    pub open spec fn applied(self, op: TableOp<T>) -> Self {
        match op {
            TableOp::Add(item) => self.added(item),
            TableOp::Remove(id) => self.removed(id),
        }
    }

    /// The table that the steps `ops`, taken in order, make of an empty one.
    pub open spec fn after(ops: Seq<TableOp<T>>) -> Self
        decreases ops.len(),
    {
        if ops.len() == 0 {
            Self::empty()
        } else {
            Self::after(ops.drop_last()).applied(ops.last())
        }
    }
}

/// Whether step `i` of `ops` adds an item and `id` is the identifier it is
/// given.
pub open spec fn issues<T>(ops: Seq<TableOp<T>>, i: int, id: u64) -> bool {
    ops[i] is Add && TableModel::after(ops.take(i)).next_id == id
}

/// Whether step `j` of `ops` removes `id`.
pub open spec fn removes<T>(ops: Seq<TableOp<T>>, j: int, id: u64) -> bool {
    ops[j] matches TableOp::Remove(removed) && removed == id
}

/// Whether step `i` of `ops` adds an item under `id` and no later step
/// removes `id`.
pub open spec fn live_since<T>(ops: Seq<TableOp<T>>, i: int, id: u64) -> bool {
    &&& 0 <= i < ops.len()
    &&& issues(ops, i, id)
    &&& forall|j: int| i < j < ops.len() ==> !removes(ops, j, id)
}

/// The counter never goes back, and every addition moves it on: of two
/// additions the later is given the larger identifier, whatever was removed
/// in between.
pub proof fn lemma_counter_grows<T>(ops: Seq<TableOp<T>>, i: int, j: int)
    requires
        0 <= i <= j <= ops.len(),
    ensures
        TableModel::after(ops.take(i)).next_id <= TableModel::after(ops.take(j)).next_id,
        i < j && ops[i] is Add ==> TableModel::after(ops.take(i)).next_id < TableModel::after(
            ops.take(j),
        ).next_id,
    decreases j - i,
{
    if i < j {
        assert(ops.take(j).drop_last() =~= ops.take(j - 1));
        lemma_counter_grows(ops, i, j - 1);
    }
}

/// An identifier is issued once: no two additions of one history are given
/// the same.
pub proof fn lemma_ids_never_reissued<T>(ops: Seq<TableOp<T>>, i: int, j: int, id: u64)
    requires
        0 <= i < j < ops.len(),
        issues(ops, i, id),
    ensures
        !issues(ops, j, id),
{
    lemma_counter_grows(ops, i, j);
}

/// A table that came about by additions and removals is well formed, as long
/// as the identifiers have not run out.
pub proof fn lemma_after_wf<T>(ops: Seq<TableOp<T>>)
    requires
        TableModel::after(ops).next_id <= u64::MAX,
    ensures
        TableModel::after(ops).wf(),
    decreases ops.len(),
{
    if ops.len() > 0 {
        lemma_after_wf(ops.drop_last());
    }
}

/// After any history of additions and removals, an identifier names a
/// resource exactly if some addition was given it and no later step removed
/// it; the resource is then the one that was added.
pub proof fn lemma_retrievable_iff_live<T>(ops: Seq<TableOp<T>>, id: u64)
    requires
        TableModel::after(ops).next_id <= u64::MAX,
    ensures
        TableModel::after(ops).entries.contains_key(id) <==> exists|i: int|
            live_since(ops, i, id),
        forall|i: int| #[trigger]
            live_since(ops, i, id) ==> TableModel::after(ops).lookup(id) == Some(ops[i]->Add_0),
    decreases ops.len(),
{
    if ops.len() > 0 {
        let n = ops.len() as int;
        let pre = ops.drop_last();
        let before = TableModel::after(pre);
        lemma_retrievable_iff_live(pre, id);
        lemma_after_wf(pre);
        assert(ops.take(n - 1) =~= pre);
        assert forall|i: int| 0 <= i < n - 1 implies issues(ops, i, id) == issues(pre, i, id) by {
            assert(ops.take(i) =~= pre.take(i));
        }
        assert forall|i: int| live_since(pre, i, id) implies (live_since(ops, i, id) <==> !removes(
            ops,
            n - 1,
            id,
        )) by {
            if !removes(ops, n - 1, id) {
                assert forall|j: int| i < j < ops.len() implies !removes(ops, j, id) by {
                    if j < n - 1 {
                        assert(!removes(pre, j, id));
                    }
                }
            }
        }
        assert forall|i: int| live_since(ops, i, id) && i < n - 1 implies live_since(
            pre,
            i,
            id,
        ) by {
            assert forall|j: int| i < j < pre.len() implies !removes(pre, j, id) by {
                assert(!removes(ops, j, id));
            }
        }
        if TableModel::after(ops).entries.contains_key(id) {
            if issues(ops, n - 1, id) {
                assert(live_since(ops, n - 1, id));
            } else {
                assert(before.entries.contains_key(id));
                let i = choose|i: int| live_since(pre, i, id);
                assert(live_since(ops, i, id));
            }
        }
        assert forall|i: int| #[trigger] live_since(ops, i, id) implies TableModel::after(
            ops,
        ).lookup(id) == Some(ops[i]->Add_0) by {
            if i < n - 1 {
                assert(live_since(pre, i, id));
                assert(!removes(ops, n - 1, id));
            }
        }
    }
}

/// A table of resources of one kind, each under the identifier it was given
/// when it was added. Identifiers count up from zero and are never given out
/// twice, so a handle that has been removed stays dead.
pub struct HashMapId<T> {
    id_seed: u64,
    store: HashMap<u64, T>,
}

impl<T> View for HashMapId<T> {
    type V = TableModel<T>;

    closed spec fn view(&self) -> TableModel<T> {
        TableModel { entries: self.store@, next_id: self.id_seed as nat }
    }
}

/// `HashMap::get_mut` on a table's store: a miss leaves the map alone; a hit
/// lends out the value under `id`, and whatever the borrower leaves there is
/// what the map holds under `id` afterwards, all other entries untouched.
#[verifier::external_body]
fn store_get_mut<T>(store: &mut HashMap<u64, T>, id: u64) -> (slot: Option<&mut T>)
    ensures
        match slot {
            Some(item) => {
                &&& old(store)@.contains_key(id)
                &&& *item == old(store)@[id]
                &&& final(store)@ == old(store)@.insert(id, *final(item))
            },
            None => !old(store)@.contains_key(id) && final(store)@ == old(store)@,
        },
{
    store.get_mut(&id)
}

impl<T> Default for HashMapId<T> {
    fn default() -> (table: Self)
        ensures
            table@ == TableModel::<T>::empty(),
            table@.wf(),
    {
        Self::new()
    }
}

impl<T> HashMapId<T> {
    /// An empty table whose first identifier will be 0.
    pub fn new() -> (table: Self)
        ensures
            table@ == TableModel::<T>::empty(),
            table@.wf(),
    {
        Self { id_seed: 0, store: HashMap::new() }
    }

    /// Whether every identifier has been issued, so that nothing more can be added.
    pub fn is_full(&self) -> (full: bool)
        ensures
            full == (self@.next_id == u64::MAX),
    {
        self.id_seed == u64::MAX
    }

    /// Stores `item` and returns its identifier, which is larger than every
    /// identifier this table has issued before.
    pub fn add(&mut self, item: T) -> (id: u64)
        requires
            old(self)@.wf(),
            old(self)@.next_id < u64::MAX,
        ensures
            id == old(self)@.next_id,
            !old(self)@.entries.contains_key(id),
            final(self)@ == old(self)@.added(item),
            final(self)@.wf(),
    {
        let id = self.id_seed;
        self.store.insert(id, item);
        self.id_seed += 1;
        id
    }

    /// Takes the resource under `id` out of the table, if there is one. The
    /// identifier is not issued again.
    pub fn remove(&mut self, id: u64) -> (item: Option<T>)
        ensures
            item == old(self)@.lookup(id),
            final(self)@ == old(self)@.removed(id),
    {
        self.store.remove(&id)
    }

    /// Lends out the resource under `id` for change, if there is one. What the
    /// borrower leaves behind is what `id` names afterwards.
    pub fn get_mut(&mut self, id: u64) -> (slot: Option<&mut T>)
        ensures
            match slot {
                Some(item) => {
                    &&& old(self)@.lookup(id) == Some(*item)
                    &&& final(self)@ == old(self)@.replaced(id, *final(item))
                },
                None => old(self)@.lookup(id) is None && final(self)@ == old(self)@,
            },
    {
        store_get_mut(&mut self.store, id)
    }

    /// The resource under `id`, if there is one.
    pub fn get(&self, id: u64) -> (slot: Option<&T>)
        ensures
            match slot {
                Some(item) => self@.lookup(id) == Some(*item),
                None => self@.lookup(id) is None,
            },
    {
        self.store.get(&id)
    }
}

} // verus!
