//! Boot sessions, as the auxiliary boot listing reports them.

use vstd::prelude::*;

verus! {

/// One boot session of the machine: its offset relative to the current
/// boot, the opaque boot identifier that distinguishes its entries, and
/// the receipt timestamps of its first and last entry.
#[derive(Debug, Clone)]
pub struct Boot {
    pub index: i32,
    pub boot_id: String,
    pub first_entry: i64,
    pub last_entry: i64,
}

} // verus!
