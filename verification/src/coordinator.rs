//! The bulk mutation coordinator: accumulates pending creates, updates and
//! deletes for one record type, and turns them, in a single terminal step,
//! into an ordered session of grouped store actions.

use vstd::prelude::*;
use crate::actions::CHUNK_SIZE;
use crate::actions::SpecAction;
use crate::actions::StoreAction;
use crate::actions::action_views;
use crate::actions::delete_plan;
use crate::actions::insert_plan;
use crate::actions::planned_actions;
use crate::actions::save_plan;
use crate::chunking::lemma_chunks_of_step;
use crate::schema::Schema;

verus! {

/// A configuration error raised while processing a batch, before any store
/// operation is issued.
#[derive(Debug, PartialEq, Eq, Structural)]
pub enum BatchError {
    /// The supplied primary-key column name matches no column of the schema.
    InvalidKeyColumn,
}

impl BatchError {
    /// A human-readable description of the error.
    pub fn message(&self) -> (r: String)
        ensures
            r@ == "invalid primary key column name: doesn't exist"@,
    {
        proof {
            broadcast use vstd::string::group_string_axioms;

        }
        match self {
            BatchError::InvalidKeyColumn => "invalid primary key column name: doesn't exist".to_string(),
        }
    }
}

/// Accumulates pending create, update and delete operations against a single
/// record type, to be applied as grouped store operations. `M` is the
/// record's active (mutable, persistable) representation; `K` the type of
/// its primary-key values. The coordinator is single-use: `process` consumes
/// it.
pub struct BatchOperations<M, K> {
    primary_key_column_name: String,
    create: Vec<M>,
    update: Vec<M>,
    delete: Vec<K>,
}

impl<M, K> BatchOperations<M, K> {
    /// The logical name of the primary-key column, stored verbatim.
    pub closed spec fn spec_key_column_name(&self) -> Seq<char> {
        self.primary_key_column_name@
    }

    /// The pending create records, in insertion order.
    pub closed spec fn spec_creates(&self) -> Seq<M> {
        self.create@
    }

    /// The pending update records, in insertion order.
    pub closed spec fn spec_updates(&self) -> Seq<M> {
        self.update@
    }

    /// The pending delete keys, in insertion order.
    pub closed spec fn spec_deletes(&self) -> Seq<K> {
        self.delete@
    }

    /// The total number of pending operations, of all three kinds.
    pub open spec fn spec_len(&self) -> int {
        self.spec_creates().len() + self.spec_updates().len() + self.spec_deletes().len() as int
    }

    /// Creates an empty coordinator. The key column name is stored verbatim
    /// and not validated here: it is resolved only when the batch is
    /// processed, so construction never fails.
    pub fn new(primary_key_column_name: String) -> (r: Self)
        ensures
            r.spec_key_column_name() == primary_key_column_name@,
            r.spec_creates() == Seq::<M>::empty(),
            r.spec_updates() == Seq::<M>::empty(),
            r.spec_deletes() == Seq::<K>::empty(),
    {
        BatchOperations { primary_key_column_name, create: Vec::new(), update: Vec::new(), delete: Vec::new() }
    }

    /// Appends a record to the pending creates.
    pub fn add_create_operation(&mut self, record: M)
        ensures
            final(self).spec_creates() == old(self).spec_creates().push(record),
            final(self).spec_updates() == old(self).spec_updates(),
            final(self).spec_deletes() == old(self).spec_deletes(),
            final(self).spec_key_column_name() == old(self).spec_key_column_name(),
    {
        self.create.push(record);
    }

    /// Appends a record to the pending updates.
    pub fn add_update_operation(&mut self, record: M)
        ensures
            final(self).spec_updates() == old(self).spec_updates().push(record),
            final(self).spec_creates() == old(self).spec_creates(),
            final(self).spec_deletes() == old(self).spec_deletes(),
            final(self).spec_key_column_name() == old(self).spec_key_column_name(),
    {
        self.update.push(record);
    }

    /// Appends a key to the pending deletes.
    pub fn add_delete_operation(&mut self, key: K)
        ensures
            final(self).spec_deletes() == old(self).spec_deletes().push(key),
            final(self).spec_creates() == old(self).spec_creates(),
            final(self).spec_updates() == old(self).spec_updates(),
            final(self).spec_key_column_name() == old(self).spec_key_column_name(),
    {
        self.delete.push(key);
    }

    /// The total pending operation count: creates plus updates plus deletes.
    pub fn len(&self) -> (r: usize)
        requires
            self.spec_len() <= usize::MAX,
        ensures
            r == self.spec_len(),
    {
        self.create.len() + self.update.len() + self.delete.len()
    }

    /// Whether no operation is pending, of any kind.
    pub fn is_empty(&self) -> (r: bool)
        ensures
            r <==> self.spec_len() == 0,
    {
        self.create.len() == 0 && self.update.len() == 0 && self.delete.len() == 0
    }

    /// Resolves the stored key column name against the schema: the typed
    /// column identifier on an exact match, the configuration error when no
    /// column has that name.
    pub fn primary_key_column(&self, schema: &Schema) -> (r: Result<usize, BatchError>)
        ensures
            (r is Ok) <==> (schema.spec_resolve(self.spec_key_column_name()) is Some),
            r matches Ok(c) ==> schema.spec_resolve(self.spec_key_column_name()) == Some(c as int),
            r matches Err(e) ==> e == BatchError::InvalidKeyColumn,
    {
        match schema.resolve(&self.primary_key_column_name) {
            Some(c) => Ok(c),
            None => Err(BatchError::InvalidKeyColumn),
        }
    }

    /// The terminal operation: consumes the coordinator, resolves the key
    /// column against the schema, and on success returns the session holding
    /// the requested operation count and the full ordered plan of store
    /// actions: the creates grouped into bulk inserts, then one save per
    /// update, then the delete keys grouped into bulk deletes filtering on
    /// the resolved column. It fails, with the configuration error and no
    /// plan at all, exactly when the key column name resolves to no column.
    pub fn process(self, schema: &Schema) -> (r: Result<ProcessSession<M, K>, BatchError>)
        requires
            self.spec_len() <= usize::MAX,
        ensures
            (r is Ok) <==> (schema.spec_resolve(self.spec_key_column_name()) is Some),
            r matches Ok(session) ==> ({
                &&& session.spec_requested() == self.spec_len()
                &&& session.spec_actions() == planned_actions::<M, K>(
                    self.spec_creates(),
                    self.spec_updates(),
                    self.spec_deletes(),
                    schema.spec_resolve(self.spec_key_column_name())->Some_0,
                )
            }),
            r matches Err(e) ==> e == BatchError::InvalidKeyColumn,
    {
        let requested = self.len() as u64;
        let column = match self.primary_key_column(schema) {
            Ok(c) => c,
            Err(e) => {
                return Err(e);
            },
        };
        let ghost creates0 = self.spec_creates();
        let ghost updates0 = self.spec_updates();
        let ghost deletes0 = self.spec_deletes();
        let BatchOperations { primary_key_column_name: _, create, update, delete } = self;

        let mut actions: Vec<StoreAction<M, K>> = Vec::new();

        let mut rest = create;
        proof {
            assert(action_views(actions@) + insert_plan::<M, K>(rest@) =~= insert_plan::<M, K>(
                creates0,
            ));
        }
        while rest.len() > 0
            invariant
                action_views(actions@) + insert_plan::<M, K>(rest@) == insert_plan::<M, K>(
                    creates0,
                ),
            decreases rest@.len(),
        {
            let ghost pre = rest@;
            let ghost actions_pre = actions@;
            let take_n = if rest.len() > CHUNK_SIZE {
                CHUNK_SIZE
            } else {
                rest.len()
            };
            let tail = rest.split_off(take_n);
            proof {
                lemma_chunks_of_step(pre, CHUNK_SIZE as int);
                assert(rest@ == pre.subrange(0, take_n as int));
                assert(insert_plan::<M, K>(pre) =~= seq![
                    SpecAction::<M, K>::Insert(pre.subrange(0, take_n as int)),
                ] + insert_plan::<M, K>(tail@));
            }
            actions.push(StoreAction::BulkInsert(rest));
            proof {
                assert(action_views(actions@) =~= action_views(actions_pre) + seq![
                    SpecAction::<M, K>::Insert(pre.subrange(0, take_n as int)),
                ]);
                assert(action_views(actions@) + insert_plan::<M, K>(tail@) =~= action_views(
                    actions_pre,
                ) + insert_plan::<M, K>(pre));
            }
            rest = tail;
        }
        let ghost ins_full = insert_plan::<M, K>(creates0);
        proof {
            assert(insert_plan::<M, K>(rest@) =~= Seq::<SpecAction<M, K>>::empty());
            assert(action_views(actions@) =~= ins_full);
        }

        let mut rest_updates = update;
        proof {
            assert(action_views(actions@) + save_plan::<M, K>(rest_updates@) =~= ins_full
                + save_plan::<M, K>(updates0));
        }
        while rest_updates.len() > 0
            invariant
                action_views(actions@) + save_plan::<M, K>(rest_updates@) == ins_full + save_plan::<
                    M,
                    K,
                >(updates0),
            decreases rest_updates@.len(),
        {
            let ghost pre = rest_updates@;
            let ghost actions_pre = actions@;
            let record = rest_updates.remove(0);
            actions.push(StoreAction::Save(record));
            proof {
                assert(rest_updates@ =~= pre.skip(1));
                assert(save_plan::<M, K>(pre) =~= seq![SpecAction::<M, K>::Save(record)]
                    + save_plan::<M, K>(pre.skip(1)));
                assert(action_views(actions@) =~= action_views(actions_pre) + seq![
                    SpecAction::<M, K>::Save(record),
                ]);
                assert(action_views(actions@) + save_plan::<M, K>(rest_updates@) =~= action_views(
                    actions_pre,
                ) + save_plan::<M, K>(pre));
            }
        }
        let ghost mid_full = ins_full + save_plan::<M, K>(updates0);
        proof {
            assert(save_plan::<M, K>(rest_updates@) =~= Seq::<SpecAction<M, K>>::empty());
            assert(action_views(actions@) =~= mid_full);
        }

        let mut rest_deletes = delete;
        proof {
            assert(action_views(actions@) + delete_plan::<M, K>(rest_deletes@, column as int)
                =~= mid_full + delete_plan::<M, K>(deletes0, column as int));
        }
        while rest_deletes.len() > 0
            invariant
                action_views(actions@) + delete_plan::<M, K>(rest_deletes@, column as int)
                    == mid_full + delete_plan::<M, K>(deletes0, column as int),
            decreases rest_deletes@.len(),
        {
            let ghost pre = rest_deletes@;
            let ghost actions_pre = actions@;
            let take_n = if rest_deletes.len() > CHUNK_SIZE {
                CHUNK_SIZE
            } else {
                rest_deletes.len()
            };
            let tail = rest_deletes.split_off(take_n);
            proof {
                lemma_chunks_of_step(pre, CHUNK_SIZE as int);
                assert(rest_deletes@ == pre.subrange(0, take_n as int));
                assert(delete_plan::<M, K>(pre, column as int) =~= seq![
                    SpecAction::<M, K>::Delete(column as int, pre.subrange(0, take_n as int)),
                ] + delete_plan::<M, K>(tail@, column as int));
            }
            actions.push(StoreAction::BulkDelete(column, rest_deletes));
            proof {
                assert(action_views(actions@) =~= action_views(actions_pre) + seq![
                    SpecAction::<M, K>::Delete(column as int, pre.subrange(0, take_n as int)),
                ]);
                assert(action_views(actions@) + delete_plan::<M, K>(tail@, column as int)
                    =~= action_views(actions_pre) + delete_plan::<M, K>(pre, column as int));
            }
            rest_deletes = tail;
        }
        proof {
            assert(delete_plan::<M, K>(rest_deletes@, column as int) =~= Seq::<
                SpecAction<M, K>,
            >::empty());
            assert(action_views(actions@) =~= planned_actions::<M, K>(
                creates0,
                updates0,
                deletes0,
                column as int,
            ));
        }
        Ok(ProcessSession { actions, requested })
    }
}

/// A processed batch: the total requested operation count and the ordered
/// plan of store actions still to be performed. The caller repeatedly takes
/// the next action, performs it against the store, and stops at the first
/// failure; actions never come out of order.
pub struct ProcessSession<M, K> {
    actions: Vec<StoreAction<M, K>>,
    requested: u64,
}

impl<M, K> ProcessSession<M, K> {
    /// The actions not yet handed out, in plan order.
    pub closed spec fn spec_actions(&self) -> Seq<SpecAction<M, K>> {
        action_views(self.actions@)
    }

    /// The number of operations the batch requested, counted before any
    /// action runs.
    pub closed spec fn spec_requested(&self) -> int {
        self.requested as int
    }

    /// The count of requested operations; on full success of the plan this
    /// is what the whole run reports.
    pub fn requested(&self) -> (r: u64)
        ensures
            r == self.spec_requested(),
    {
        self.requested
    }

    /// Hands out the next store action, in plan order, or `None` once the
    /// plan is exhausted.
    pub fn next_action(&mut self) -> (r: Option<StoreAction<M, K>>)
        ensures
            final(self).spec_requested() == old(self).spec_requested(),
            old(self).spec_actions().len() == 0 ==> r is None && final(self).spec_actions()
                == old(self).spec_actions(),
            old(self).spec_actions().len() > 0 ==> ({
                &&& r matches Some(a) && a@ == old(self).spec_actions()[0]
                &&& final(self).spec_actions() == old(self).spec_actions().skip(1)
            }),
    {
        if self.actions.len() == 0 {
            None
        } else {
            let a = self.actions.remove(0);
            proof {
                assert(old(self).spec_actions()[0] == old(self).actions@[0]@);
                assert(action_views(self.actions@) =~= action_views(old(self).actions@).skip(1));
            }
            Some(a)
        }
    }
}

} // verus!
