use batch_ops::BatchError;
use batch_ops::BatchOperations;
use batch_ops::Schema;

#[test]
fn new_coordinator_is_empty() {
    let ops: BatchOperations<u32, u64> = BatchOperations::new("id".to_string());
    assert_eq!(ops.len(), 0);
    assert!(ops.is_empty());
}

#[test]
fn len_counts_all_three_kinds() {
    let mut ops: BatchOperations<u32, u64> = BatchOperations::new("id".to_string());
    ops.add_create_operation(1);
    ops.add_create_operation(2);
    ops.add_update_operation(3);
    ops.add_update_operation(4);
    ops.add_update_operation(5);
    ops.add_delete_operation(6);
    assert_eq!(ops.len(), 6);
    assert!(!ops.is_empty());
}

#[test]
fn is_empty_iff_len_zero() {
    let mut ops: BatchOperations<u32, u64> = BatchOperations::new("id".to_string());
    assert_eq!(ops.is_empty(), ops.len() == 0);
    ops.add_delete_operation(1);
    assert_eq!(ops.is_empty(), ops.len() == 0);
    ops.add_create_operation(2);
    assert_eq!(ops.is_empty(), ops.len() == 0);
}

#[test]
fn schema_resolves_first_exact_match() {
    let mut schema = Schema::new();
    schema.add_column("id".to_string());
    schema.add_column("name".to_string());
    schema.add_column("id".to_string());
    assert_eq!(schema.resolve(&"id".to_string()), Some(0));
    assert_eq!(schema.resolve(&"name".to_string()), Some(1));
    assert_eq!(schema.resolve(&"missing".to_string()), None);
    assert_eq!(schema.resolve(&"Id".to_string()), None);
}

#[test]
fn invalid_key_column_error_message() {
    let err = BatchError::InvalidKeyColumn;
    assert_eq!(err.message(), "invalid primary key column name: doesn't exist");
}
