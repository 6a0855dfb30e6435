//! The two result shapes a query can produce: a table of projected rows,
//! and the complete field dump of a single entry.

use vstd::prelude::*;

verus! {

/// The tabular result of a query: `headers` is the projected field list and
/// every row holds one cell per header, in the same order.
#[derive(Debug)]
pub struct JournalEntries {
    pub headers: Vec<String>,
    pub rows: Vec<Vec<String>>,
}

impl JournalEntries {
    /// An empty result set, pre-sized for `lenght` rows.
    pub fn new(lenght: usize) -> (r: JournalEntries)
        ensures
            r.headers@ == Seq::<String>::empty(),
            r.rows@ == Seq::<Vec<String>>::empty(),
    {
        JournalEntries { headers: Vec::new(), rows: Vec::with_capacity(lenght) }
    }
}

/// The complete record of one entry: parallel `headers`/`values` lists that
/// cover every field actually stored on the entry.
#[derive(Debug)]
pub struct JournalEntry {
    pub headers: Vec<String>,
    pub values: Vec<String>,
}

impl JournalEntry {
    /// An empty record.
    pub fn new() -> (r: JournalEntry)
        ensures
            r.headers@ == Seq::<String>::empty(),
            r.values@ == Seq::<String>::empty(),
    {
        JournalEntry { headers: Vec::new(), values: Vec::new() }
    }
}

} // verus!
