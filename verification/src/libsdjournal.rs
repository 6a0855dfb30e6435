//! The error taxonomy shared by every operation on the log store.

use vstd::prelude::*;

verus! {

/// Failure taxonomy for store operations.
///
/// `Internal` carries the (negative) native return code of a failed store
/// call, or a generic internal code for data that could not be decoded.
/// `EndOfFile` is the store's normal end-of-data signal: the cursor ran out
/// of entries, or a single entry's field enumeration finished. It is never
/// surfaced to a caller as a query failure.
#[derive(Debug, Clone, Copy, PartialEq, Eq, Structural)]
pub enum JournalError {
    Internal(i32),
    EndOfFile,
}

} // verus!
