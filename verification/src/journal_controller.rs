//! The request shapes the surrounding application hands in, and their
//! verified translation into engine queries.
//!
//! The surrounding application parses the request's datetime strings into
//! microseconds (the library takes them already parsed) and supplies the
//! current time for the default upper bound.

use vstd::prelude::*;

use crate::journal_fields;
use crate::query::{Query, QueryV};
use crate::query_builder::QueryBuilder;
use crate::text::lower_of;
use crate::unit::INIT_UNIT;

verus! {

/// A log request as the caller states it: projection, severity, bounds,
/// search term, and the selected services, transports and boots. The
/// datetime bounds arrive as strings and are parsed outside the library.
#[derive(Debug)]
pub struct JournalQuery {
    pub fields: Vec<String>,
    pub priority: u32,
    pub limit: u64,
    pub quick_search: String,
    pub reset_position: bool,
    pub services: Vec<String>,
    pub transports: Vec<String>,
    pub datetime_from: String,
    pub datetime_to: String,
    pub boot_ids: Vec<String>,
}

/// A summary request: only the severity bound is the caller's choice.
#[derive(Debug)]
pub struct SummaryQuery {
    pub priority: u32,
}

impl JournalQuery {
    /// The engine query this request denotes. Selecting the synthetic init
    /// pseudo-entry is equivalent to setting `pid = 1` and removing it
    /// from the unit-name filter, because the init process has no real
    /// unit file in the store. `date_from` and `date_to` are the request's
    /// datetime bounds in microseconds, parsed by the caller;
    /// `default_date_to` is the upper bound used when the request names
    /// none (the surrounding application passes "now plus one day").
    pub fn into_query(
        self,
        date_from: Option<u64>,
        date_to: Option<u64>,
        default_date_to: u64,
    ) -> (q: Query)
        ensures
            q@.wf(),
            ({
                let init = self.services@.len() > 0 && self.services@[0]@ == INIT_UNIT@;
                q@ == (QueryV {
                    pid: if init {
                        1u32
                    } else {
                        0u32
                    },
                    fields: self.fields.deep_view(),
                    minimum_priority: if self.priority > 7 {
                        7u32
                    } else {
                        self.priority
                    },
                    units: if init {
                        self.services.deep_view().drop_first()
                    } else {
                        self.services.deep_view()
                    },
                    slice: Seq::empty(),
                    limit: self.limit,
                    date_less_than: (match date_to {
                        Some(t) => t,
                        None => default_date_to,
                    }),
                    date_more_than: (match date_from {
                        Some(t) => t,
                        None => 0u64,
                    }),
                    transports: self.transports.deep_view(),
                    quick_search: lower_of(self.quick_search@),
                    reset_position: self.reset_position,
                    boot_ids: self.boot_ids.deep_view(),
                })
            }),
    {
        let JournalQuery {
            fields,
            priority,
            limit,
            quick_search,
            reset_position,
            mut services,
            transports,
            datetime_from: _,
            datetime_to: _,
            boot_ids,
        } = self;

        // if the synthetic init entry is selected, remove it from the unit
        // filter and add it back later as a pid filter
        let add_init_filter = crate::unit::resolve_init_selection(&mut services);

        let mut qb = QueryBuilder::default();
        let q = qb.with_fields(fields)
            .with_limit(limit)
            .with_quick_search(quick_search)
            .reset_position(reset_position)
            .with_priority_above_or_equal_to(priority)
            .with_units(services)
            .with_transports(transports)
            .with_boot_ids(boot_ids);

        // add back the filter for the init selection as pid = 1
        if add_init_filter {
            q.with_pid(1);
        }

        match date_from {
            Some(t) => {
                q.with_date_more_than(t);
            },
            None => {},
        }

        match date_to {
            Some(t) => {
                q.with_date_less_than(t);
            },
            None => {
                q.with_date_less_than(default_date_to);
            },
        }

        let built = qb.build();
        proof {
            let init = self.services@.len() > 0 && self.services@[0]@ == INIT_UNIT@;
            assert(built@ =~~= (QueryV {
                pid: if init {
                    1u32
                } else {
                    0u32
                },
                fields: self.fields.deep_view(),
                minimum_priority: if self.priority > 7 {
                    7u32
                } else {
                    self.priority
                },
                units: if init {
                    self.services.deep_view().drop_first()
                } else {
                    self.services.deep_view()
                },
                slice: Seq::empty(),
                limit: self.limit,
                date_less_than: (match date_to {
                    Some(t) => t,
                    None => default_date_to,
                }),
                date_more_than: (match date_from {
                    Some(t) => t,
                    None => 0u64,
                }),
                transports: self.transports.deep_view(),
                quick_search: lower_of(self.quick_search@),
                reset_position: self.reset_position,
                boot_ids: self.boot_ids.deep_view(),
            }));
        }
        built
    }
}

impl SummaryQuery {
    /// The engine query a summary request denotes: only the receipt-time
    /// column, ten thousand rows at most, between the two bounds the
    /// caller computed (the surrounding application passes "five days
    /// ago" and "now plus one day").
    pub fn into_query(self, date_from: u64, date_to: u64) -> (q: Query)
        ensures
            q@.wf(),
            q@ == (QueryV {
                pid: 0,
                fields: seq![journal_fields::REALTIME@],
                minimum_priority: if self.priority > 7 {
                    7u32
                } else {
                    self.priority
                },
                units: Seq::empty(),
                slice: Seq::empty(),
                limit: 10000,
                date_less_than: date_to,
                date_more_than: date_from,
                transports: crate::query_builder::spec_default_transports(),
                quick_search: Seq::empty(),
                reset_position: true,
                boot_ids: Seq::empty(),
            }),
    {
        let mut fields: Vec<String> = Vec::new();
        fields.push(String::from_str(journal_fields::REALTIME));
        proof {
            assert(fields.deep_view() =~= seq![journal_fields::REALTIME@]);
        }
        let mut qb = QueryBuilder::default();
        qb.with_fields(fields)
            .with_limit(10000)
            .with_date_more_than(date_from)
            .with_date_less_than(date_to)
            .with_priority_above_or_equal_to(self.priority);
        qb.build()
    }
}

} // verus!
