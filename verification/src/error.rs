//! What can go wrong in the task table and its storage.

use vstd::prelude::*;

verus! {

/// Why an operation on the task table did not go through.
#[derive(Debug)]
pub enum StoreError {
    /// No row has the given id.
    NotFound(i64),
    /// The highest id has been handed out; no further row can be created.
    IdsExhausted,
    /// A stored row carries a status code outside `0..=3`.
    BadStatus(i64),
    /// A stored row has not the six columns of a task, or one of another type.
    BadRow,
    /// The stored rows do not come in strictly increasing id order.
    Unordered,
    /// The database refused or failed; the text is its own message.
    Storage(String),
}

} // verus!
