//! A bulk mutation coordinator: it accumulates pending create, update and
//! delete operations against a single logical record type, then turns them
//! into an ordered plan of size-bounded store operations (bulk inserts,
//! individual saves, bulk deletes by key), applied create -> update -> delete.
//! The caller drives the plan against its storage layer one action at a time,
//! stopping at the first failure.

pub mod actions;
pub mod chunking;
pub mod coordinator;
pub mod laws;
pub mod schema;

pub use actions::SpecAction;
pub use actions::StoreAction;
pub use coordinator::BatchError;
pub use coordinator::BatchOperations;
pub use coordinator::ProcessSession;
pub use schema::Schema;
