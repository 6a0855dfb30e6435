//! The immutable query specification the traversal engine executes.

use vstd::prelude::*;

verus! {

/// An immutable query specification.
///
/// `pid = 0`, empty lists, an empty slice and zero time bounds mean "not
/// constrained"; `limit = 0` means unlimited. `minimum_priority` is the
/// least severe severity still reported (0 = most severe), never above 7.
/// `quick_search` is kept lowercase so that the traversal can match it
/// case-insensitively. `reset_position` asks the traversal to seek back to
/// the newest entry before iterating.
#[derive(Debug)]
pub struct Query {
    pub pid: u32,
    pub fields: Vec<String>,
    pub minimum_priority: u32,
    pub units: Vec<String>,
    pub slice: String,
    pub limit: u64,
    pub date_less_than: u64,
    pub date_more_than: u64,
    pub transports: Vec<String>,
    pub quick_search: String,
    pub reset_position: bool,
    pub boot_ids: Vec<String>,
}

/// The mathematical content of a [`Query`]: every string as a sequence of
/// characters.
#[verifier::ext_equal]
pub ghost struct QueryV {
    pub pid: u32,
    pub fields: Seq<Seq<char>>,
    pub minimum_priority: u32,
    pub units: Seq<Seq<char>>,
    pub slice: Seq<char>,
    pub limit: u64,
    pub date_less_than: u64,
    pub date_more_than: u64,
    pub transports: Seq<Seq<char>>,
    pub quick_search: Seq<char>,
    pub reset_position: bool,
    pub boot_ids: Seq<Seq<char>>,
}

impl View for Query {
    type V = QueryV;

    open spec fn view(&self) -> QueryV {
        QueryV {
            pid: self.pid,
            fields: self.fields.deep_view(),
            minimum_priority: self.minimum_priority,
            units: self.units.deep_view(),
            slice: self.slice@,
            limit: self.limit,
            date_less_than: self.date_less_than,
            date_more_than: self.date_more_than,
            transports: self.transports.deep_view(),
            quick_search: self.quick_search@,
            reset_position: self.reset_position,
            boot_ids: self.boot_ids.deep_view(),
        }
    }
}

impl QueryV {
    /// A query's severity bound stays within the store's 0..=7 scale.
    pub open spec fn wf(self) -> bool {
        self.minimum_priority <= 7
    }
}

} // verus!
