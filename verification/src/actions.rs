//! Store operations: the grouped, size-bounded actions that a processed
//! batch asks the storage layer to perform, and the mathematical plan that
//! a coordinator's pending operations turn into.

use vstd::prelude::*;
use crate::chunking::chunks_of;

verus! {

/// The most records a single bulk insert, or keys a single bulk delete,
/// may carry: a policy bound on per-statement batch size.
pub const CHUNK_SIZE: usize = 1000;

/// One operation against the backing store, carrying the records or keys it
/// applies to. A bulk delete also names the primary-key column identifier
/// its filter matches against.
pub enum StoreAction<M, K> {
    /// Persist the given records as new rows, in one statement.
    BulkInsert(Vec<M>),
    /// Persist one record, inserting or updating by its own key state.
    Save(M),
    /// Delete every row whose value in the named column is one of the keys.
    BulkDelete(usize, Vec<K>),
}

/// The mathematical form of a store action.
#[verifier::ext_equal]
pub enum SpecAction<M, K> {
    Insert(Seq<M>),
    Save(M),
    Delete(int, Seq<K>),
}

impl<M, K> View for StoreAction<M, K> {
    type V = SpecAction<M, K>;

    open spec fn view(&self) -> SpecAction<M, K> {
        match self {
            StoreAction::BulkInsert(records) => SpecAction::Insert(records@),
            StoreAction::Save(record) => SpecAction::Save(*record),
            StoreAction::BulkDelete(column, keys) => SpecAction::Delete(*column as int, keys@),
        }
    }
}

/// The views of a sequence of store actions.
pub open spec fn action_views<M, K>(v: Seq<StoreAction<M, K>>) -> Seq<SpecAction<M, K>> {
    v.map_values(|a: StoreAction<M, K>| a@)
}

/// The bulk inserts for the pending creates: one per group of at most
/// `CHUNK_SIZE` records, in original order.
pub open spec fn insert_plan<M, K>(creates: Seq<M>) -> Seq<SpecAction<M, K>> {
    chunks_of(creates, CHUNK_SIZE as int).map_values(|c: Seq<M>| SpecAction::<M, K>::Insert(c))
}

/// The individual saves for the pending updates, in original order.
pub open spec fn save_plan<M, K>(updates: Seq<M>) -> Seq<SpecAction<M, K>> {
    updates.map_values(|m: M| SpecAction::<M, K>::Save(m))
}

/// The bulk deletes for the pending keys: one per group of at most
/// `CHUNK_SIZE` keys, in original order, filtering on the given column.
pub open spec fn delete_plan<M, K>(deletes: Seq<K>, column: int) -> Seq<SpecAction<M, K>> {
    chunks_of(deletes, CHUNK_SIZE as int).map_values(
        |c: Seq<K>| SpecAction::<M, K>::Delete(column, c),
    )
}

/// The full plan for a batch: all creates, then all updates, then all
/// deletes, each kind grouped by the batching policy.
pub open spec fn planned_actions<M, K>(
    creates: Seq<M>,
    updates: Seq<M>,
    deletes: Seq<K>,
    column: int,
) -> Seq<SpecAction<M, K>> {
    insert_plan::<M, K>(creates) + save_plan::<M, K>(updates) + delete_plan::<M, K>(
        deletes,
        column,
    )
}

} // verus!
