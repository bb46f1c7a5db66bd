use batch_ops::BatchError;
use batch_ops::BatchOperations;
use batch_ops::ProcessSession;
use batch_ops::Schema;
use batch_ops::StoreAction;

fn id_schema() -> Schema {
    let mut schema = Schema::new();
    schema.add_column("id".to_string());
    schema.add_column("name".to_string());
    schema
}

fn drain<M, K>(mut session: ProcessSession<M, K>) -> (u64, Vec<StoreAction<M, K>>) {
    let mut actions = Vec::new();
    while let Some(action) = session.next_action() {
        actions.push(action);
    }
    (session.requested(), actions)
}

#[test]
fn empty_batch_plans_nothing() {
    let ops: BatchOperations<u32, u64> = BatchOperations::new("id".to_string());
    let session = ops.process(&id_schema()).unwrap();
    let (requested, actions) = drain(session);
    assert_eq!(requested, 0);
    assert!(actions.is_empty());
}

#[test]
fn creates_only_chunked_bulk_inserts() {
    let mut ops: BatchOperations<u32, u64> = BatchOperations::new("id".to_string());
    for i in 0..2500u32 {
        ops.add_create_operation(i);
    }
    let session = ops.process(&id_schema()).unwrap();
    let (requested, actions) = drain(session);
    assert_eq!(requested, 2500);
    assert_eq!(actions.len(), 3);
    let mut covered: Vec<u32> = Vec::new();
    for action in actions {
        match action {
            StoreAction::BulkInsert(records) => {
                assert!(records.len() >= 1 && records.len() <= 1000);
                covered.extend(records);
            }
            _ => panic!("only bulk inserts expected"),
        }
    }
    let expected: Vec<u32> = (0..2500).collect();
    assert_eq!(covered, expected);
}

#[test]
fn creates_exact_chunk_boundary() {
    let mut ops: BatchOperations<u32, u64> = BatchOperations::new("id".to_string());
    for i in 0..1000u32 {
        ops.add_create_operation(i);
    }
    let session = ops.process(&id_schema()).unwrap();
    let (requested, actions) = drain(session);
    assert_eq!(requested, 1000);
    assert_eq!(actions.len(), 1);
    match &actions[0] {
        StoreAction::BulkInsert(records) => assert_eq!(records.len(), 1000),
        _ => panic!("only bulk inserts expected"),
    }
}

#[test]
fn creates_one_past_chunk_boundary() {
    let mut ops: BatchOperations<u32, u64> = BatchOperations::new("id".to_string());
    for i in 0..1001u32 {
        ops.add_create_operation(i);
    }
    let session = ops.process(&id_schema()).unwrap();
    let (requested, actions) = drain(session);
    assert_eq!(requested, 1001);
    assert_eq!(actions.len(), 2);
    match &actions[0] {
        StoreAction::BulkInsert(records) => assert_eq!(records.len(), 1000),
        _ => panic!("only bulk inserts expected"),
    }
    match &actions[1] {
        StoreAction::BulkInsert(records) => assert_eq!(records, &vec![1000]),
        _ => panic!("only bulk inserts expected"),
    }
}

#[test]
fn updates_only_individual_saves_in_order() {
    let mut ops: BatchOperations<u32, u64> = BatchOperations::new("id".to_string());
    for i in 0..5u32 {
        ops.add_update_operation(10 + i);
    }
    let session = ops.process(&id_schema()).unwrap();
    let (requested, actions) = drain(session);
    assert_eq!(requested, 5);
    assert_eq!(actions.len(), 5);
    for (i, action) in actions.into_iter().enumerate() {
        match action {
            StoreAction::Save(record) => assert_eq!(record, 10 + i as u32),
            _ => panic!("only saves expected"),
        }
    }
}

#[test]
fn deletes_only_chunked_bulk_deletes() {
    let mut ops: BatchOperations<u32, u64> = BatchOperations::new("name".to_string());
    for k in 0..2500u64 {
        ops.add_delete_operation(k);
    }
    let session = ops.process(&id_schema()).unwrap();
    let (requested, actions) = drain(session);
    assert_eq!(requested, 2500);
    assert_eq!(actions.len(), 3);
    let mut covered: Vec<u64> = Vec::new();
    for action in actions {
        match action {
            StoreAction::BulkDelete(column, keys) => {
                assert_eq!(column, 1);
                assert!(keys.len() >= 1 && keys.len() <= 1000);
                covered.extend(keys);
            }
            _ => panic!("only bulk deletes expected"),
        }
    }
    let expected: Vec<u64> = (0..2500).collect();
    assert_eq!(covered, expected);
}

#[test]
fn mixed_batch_full_scenario() {
    let mut ops: BatchOperations<u32, u64> = BatchOperations::new("id".to_string());
    for i in 0..1500u32 {
        ops.add_create_operation(i);
    }
    ops.add_update_operation(7000);
    ops.add_update_operation(7001);
    for k in 0..2500u64 {
        ops.add_delete_operation(k);
    }
    assert_eq!(ops.len(), 4002);
    let session = ops.process(&id_schema()).unwrap();
    let (requested, actions) = drain(session);
    assert_eq!(requested, 4002);
    assert_eq!(actions.len(), 2 + 2 + 3);
    let insert_sizes: Vec<usize> = actions
        .iter()
        .filter_map(|a| match a {
            StoreAction::BulkInsert(records) => Some(records.len()),
            _ => None,
        })
        .collect();
    assert_eq!(insert_sizes, vec![1000, 500]);
    let save_count = actions
        .iter()
        .filter(|a| matches!(a, StoreAction::Save(_)))
        .count();
    assert_eq!(save_count, 2);
    let delete_sizes: Vec<usize> = actions
        .iter()
        .filter_map(|a| match a {
            StoreAction::BulkDelete(_, keys) => Some(keys.len()),
            _ => None,
        })
        .collect();
    assert_eq!(delete_sizes, vec![1000, 1000, 500]);
    // The phases come in order: inserts, then saves, then deletes.
    let kinds: Vec<u8> = actions
        .iter()
        .map(|a| match a {
            StoreAction::BulkInsert(_) => 0,
            StoreAction::Save(_) => 1,
            StoreAction::BulkDelete(_, _) => 2,
        })
        .collect();
    assert_eq!(kinds, vec![0, 0, 1, 1, 2, 2, 2]);
}

#[test]
fn invalid_key_column_fails_before_any_store_call() {
    let mut ops: BatchOperations<u32, u64> = BatchOperations::new("nonexistent".to_string());
    ops.add_create_operation(1);
    let mut store_calls = 0;
    let result = ops.process(&id_schema());
    match result {
        Ok(mut session) => {
            while let Some(_) = session.next_action() {
                store_calls += 1;
            }
            panic!("processing should have failed");
        }
        Err(err) => assert_eq!(err, BatchError::InvalidKeyColumn),
    }
    assert_eq!(store_calls, 0);
}

#[test]
fn failure_in_second_create_chunk_aborts_the_rest() {
    let mut ops: BatchOperations<u32, u64> = BatchOperations::new("id".to_string());
    for i in 0..2500u32 {
        ops.add_create_operation(i);
    }
    ops.add_update_operation(9000);
    ops.add_delete_operation(9001);
    let mut session = ops.process(&id_schema()).unwrap();
    // A store that fails on the second bulk insert it sees.
    let mut applied: Vec<u32> = Vec::new();
    let mut insert_calls = 0;
    let mut save_calls = 0;
    let mut delete_calls = 0;
    let mut failure: Option<&str> = None;
    while let Some(action) = session.next_action() {
        match action {
            StoreAction::BulkInsert(records) => {
                insert_calls += 1;
                if insert_calls == 2 {
                    failure = Some("constraint violation");
                    break;
                }
                applied.extend(records);
            }
            StoreAction::Save(_) => save_calls += 1,
            StoreAction::BulkDelete(_, _) => delete_calls += 1,
        }
    }
    assert_eq!(failure, Some("constraint violation"));
    let expected: Vec<u32> = (0..1000).collect();
    assert_eq!(applied, expected);
    assert_eq!(save_calls, 0);
    assert_eq!(delete_calls, 0);
}
