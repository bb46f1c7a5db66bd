//! Laws of the batching policy, stated and proved over the plan that
//! `process` produces.

use vstd::prelude::*;
use crate::actions::CHUNK_SIZE;
use crate::actions::SpecAction;
use crate::actions::delete_plan;
use crate::actions::insert_plan;
use crate::actions::planned_actions;
use crate::actions::save_plan;
use crate::chunking::chunks_of;
use crate::chunking::lemma_chunks_of_count;
use crate::chunking::lemma_chunks_of_each_len;
use crate::chunking::lemma_chunks_of_flatten;

verus! {

/// A batch holding only creates plans exactly ceiling(N / CHUNK_SIZE) bulk
/// inserts, each carrying between 1 and CHUNK_SIZE records, and their
/// concatenation is the whole create sequence in its original order.
pub proof fn lemma_plan_only_creates<M, K>(creates: Seq<M>, column: int)
    ensures
        ({
            let acts = planned_actions::<M, K>(creates, Seq::empty(), Seq::empty(), column);
            &&& acts.len() == (creates.len() as int + CHUNK_SIZE as int - 1) / (CHUNK_SIZE as int)
            &&& forall|i: int| 0 <= i < acts.len() ==> (#[trigger] acts[i]) is Insert
            &&& forall|i: int|
                0 <= i < acts.len() ==> 1 <= (#[trigger] acts[i])->Insert_0.len() <= CHUNK_SIZE
            &&& Seq::new(acts.len(), |i: int| acts[i]->Insert_0).flatten() == creates
        }),
{
    let acts = planned_actions::<M, K>(creates, Seq::empty(), Seq::empty(), column);
    let chunks = chunks_of(creates, CHUNK_SIZE as int);
    assert(save_plan::<M, K>(Seq::empty()) =~= Seq::<SpecAction<M, K>>::empty());
    assert(delete_plan::<M, K>(Seq::empty(), column) =~= Seq::<SpecAction<M, K>>::empty());
    assert(acts =~= insert_plan::<M, K>(creates));
    lemma_chunks_of_count(creates, CHUNK_SIZE as int);
    lemma_chunks_of_each_len(creates, CHUNK_SIZE as int);
    lemma_chunks_of_flatten(creates, CHUNK_SIZE as int);
    assert(forall|i: int| 0 <= i < acts.len() ==> (#[trigger] acts[i]) == SpecAction::<M, K>::Insert(
        chunks[i],
    ));
    assert(Seq::new(acts.len(), |i: int| acts[i]->Insert_0) =~= chunks);
}

/// A batch holding only updates plans exactly one individual save per
/// record, in insertion order.
pub proof fn lemma_plan_only_updates<M, K>(updates: Seq<M>, column: int)
    ensures
        ({
            let acts = planned_actions::<M, K>(Seq::empty(), updates, Seq::empty(), column);
            &&& acts.len() == updates.len()
            &&& forall|i: int|
                0 <= i < acts.len() ==> (#[trigger] acts[i]) == SpecAction::<M, K>::Save(
                    updates[i],
                )
        }),
{
    let acts = planned_actions::<M, K>(Seq::empty(), updates, Seq::empty(), column);
    assert(insert_plan::<M, K>(Seq::empty()) =~= Seq::<SpecAction<M, K>>::empty());
    assert(delete_plan::<M, K>(Seq::empty(), column) =~= Seq::<SpecAction<M, K>>::empty());
    assert(acts =~= save_plan::<M, K>(updates));
}

/// A batch holding only deletes plans exactly ceiling(N / CHUNK_SIZE) bulk
/// deletes, each filtering the resolved key column against between 1 and
/// CHUNK_SIZE keys, and their concatenation is the whole key sequence in
/// its original order.
pub proof fn lemma_plan_only_deletes<M, K>(deletes: Seq<K>, column: int)
    ensures
        ({
            let acts = planned_actions::<M, K>(Seq::empty(), Seq::empty(), deletes, column);
            &&& acts.len() == (deletes.len() as int + CHUNK_SIZE as int - 1) / (CHUNK_SIZE as int)
            &&& forall|i: int| 0 <= i < acts.len() ==> (#[trigger] acts[i]) is Delete
            &&& forall|i: int| 0 <= i < acts.len() ==> (#[trigger] acts[i])->Delete_0 == column
            &&& forall|i: int|
                0 <= i < acts.len() ==> 1 <= (#[trigger] acts[i])->Delete_1.len() <= CHUNK_SIZE
            &&& Seq::new(acts.len(), |i: int| acts[i]->Delete_1).flatten() == deletes
        }),
{
    let acts = planned_actions::<M, K>(Seq::empty(), Seq::empty(), deletes, column);
    let chunks = chunks_of(deletes, CHUNK_SIZE as int);
    assert(insert_plan::<M, K>(Seq::empty()) =~= Seq::<SpecAction<M, K>>::empty());
    assert(save_plan::<M, K>(Seq::empty()) =~= Seq::<SpecAction<M, K>>::empty());
    assert(acts =~= delete_plan::<M, K>(deletes, column));
    lemma_chunks_of_count(deletes, CHUNK_SIZE as int);
    lemma_chunks_of_each_len(deletes, CHUNK_SIZE as int);
    lemma_chunks_of_flatten(deletes, CHUNK_SIZE as int);
    assert(forall|i: int| 0 <= i < acts.len() ==> (#[trigger] acts[i]) == SpecAction::<M, K>::Delete(
        column,
        chunks[i],
    ));
    assert(Seq::new(acts.len(), |i: int| acts[i]->Delete_1) =~= chunks);
}

/// The plan keeps the three phases in order and unmixed: first every bulk
/// insert, then every save, then every bulk delete. Together with the
/// session handing actions out strictly in plan order, a failure inside the
/// create phase leaves every save and delete unissued, and only the insert
/// chunks before the failing one performed.
pub proof fn lemma_plan_phases<M, K>(creates: Seq<M>, updates: Seq<M>, deletes: Seq<K>, column: int)
    ensures
        ({
            let acts = planned_actions::<M, K>(creates, updates, deletes, column);
            let ni = chunks_of(creates, CHUNK_SIZE as int).len() as int;
            let nu = updates.len() as int;
            let nd = chunks_of(deletes, CHUNK_SIZE as int).len() as int;
            &&& acts.len() == ni + nu + nd
            &&& forall|i: int| 0 <= i < ni ==> (#[trigger] acts[i]) is Insert
            &&& forall|i: int| ni <= i < ni + nu ==> (#[trigger] acts[i]) is Save
            &&& forall|i: int| ni + nu <= i < acts.len() ==> (#[trigger] acts[i]) is Delete
        }),
{
    let acts = planned_actions::<M, K>(creates, updates, deletes, column);
    let ni = chunks_of(creates, CHUNK_SIZE as int).len() as int;
    let nu = updates.len() as int;
    assert forall|i: int| 0 <= i < ni implies (#[trigger] acts[i]) is Insert by {
        assert(acts[i] == insert_plan::<M, K>(creates)[i]);
    }
    assert forall|i: int| ni <= i < ni + nu implies (#[trigger] acts[i]) is Save by {
        assert(acts[i] == save_plan::<M, K>(updates)[i - ni]);
    }
    assert forall|i: int| ni + nu <= i < acts.len() implies (#[trigger] acts[i]) is Delete by {
        assert(acts[i] == delete_plan::<M, K>(deletes, column)[i - ni - nu]);
    }
}

} // verus!
